//! Variables: handles into an environment's table.

use crate::support::share;
use std::rc::Rc;
use vstd::prelude::*;

verus! {

/// A variable within Knight.
///
/// A variable is a handle: it names a slot of the table of the
/// [`Environment`](crate::environment::Environment) that made it, and the
/// value of the variable lives in that slot. All variables of the same name
/// from the same environment are the same handle, so assigning through one is
/// seen through all of them.
#[derive(Debug, PartialEq, Eq)]
pub struct Variable {
    owner: u64,
    slot: usize,
    name: Rc<String>,
}

/// What a [`Variable`] is: the environment it belongs to, its place in that
/// environment's table, and its name.
pub struct VariableView {
    pub owner: u64,
    pub slot: nat,
    pub name: Seq<char>,
}

impl View for Variable {
    type V = VariableView;

    closed spec fn view(&self) -> VariableView {
        VariableView { owner: self.owner, slot: self.slot as nat, name: self.name@ }
    }
}

impl Clone for Variable {
    /// Another handle to the same variable.
    fn clone(&self) -> (res: Self)
        ensures
            res == *self,
    {
        Variable { owner: self.owner, slot: self.slot, name: share(&self.name) }
    }
}

impl Variable {
    /// Makes the handle for slot `slot` of environment `owner`.
    pub(crate) fn create(owner: u64, slot: usize, name: Rc<String>) -> (res: Self)
        ensures
            res@ == (VariableView { owner, slot: slot as nat, name: name@ }),
    {
        Variable { owner, slot, name }
    }

    /// Fetches the name of the variable.
    pub fn name(&self) -> (res: &str)
        ensures
            res@ == self@.name,
    {
        self.name.as_str()
    }

    /// The id of the environment that the variable belongs to.
    pub fn owner(&self) -> (res: u64)
        ensures
            res == self@.owner,
    {
        self.owner
    }

    /// The variable's place in its environment's table.
    pub fn slot(&self) -> (res: usize)
        ensures
            res == self@.slot,
    {
        self.slot
    }

    /// Whether the variable is named `name`.
    pub(crate) fn is_named(&self, name: &String) -> (res: bool)
        ensures
            res == (self@.name == name@),
    {
        *self.name == *name
    }

    /// Checks to see if two handles are the same variable.
    pub fn same(&self, other: &Variable) -> (res: bool)
        ensures
            res == (self@ == other@),
    {
        self.owner == other.owner && self.slot == other.slot && *self.name == *other.name
    }
}

} // verus!
