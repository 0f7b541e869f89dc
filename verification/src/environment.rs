//! Types relating to the execution of Knight code.
//!
//! See [`Environment`] for more details.

pub mod builder;
pub mod variable;

use crate::environment::builder::Builder;
use crate::environment::builder::DEFAULT_CAPACITY;
use crate::environment::variable::Variable;
use crate::environment::variable::VariableView;
use crate::support::random_number;
use crate::value::Value;
use crate::value::ValueView;
use std::rc::Rc;
use vstd::prelude::*;

verus! {

/// One entry of an environment's table.
struct Slot {
    name: Rc<String>,
    value: Option<Value>,
}

/// One entry of an environment's table: a variable's name and, once it has
/// been assigned, its value.
pub struct SlotView {
    pub name: Seq<char>,
    pub value: Option<ValueView>,
}

/// What an [`Environment`] is: its id, the room for variables that it was
/// made with, and its table of variables.
pub struct EnvironmentView {
    pub id: u64,
    /// The number of variables that the environment was asked to have room
    /// for when it was made. The table grows beyond it as it must.
    pub capacity: usize,
    pub slots: Seq<SlotView>,
}

/// The first position at or after `from` whose slot is named `name`.
pub open spec fn first_named(slots: Seq<SlotView>, name: Seq<char>, from: int) -> Option<int>
    decreases slots.len() - from,
{
    if 0 <= from < slots.len() {
        if slots[from].name == name {
            Some(from)
        } else {
            first_named(slots, name, from + 1)
        }
    } else {
        None
    }
}

impl EnvironmentView {
    /// No two variables of an environment have the same name.
    pub open spec fn wf(self) -> bool {
        forall|i: int, j: int|
            0 <= i < j < self.slots.len() ==> (#[trigger] self.slots[i]).name != (
            #[trigger] self.slots[j]).name
    }

    /// Whether every value that a variable holds is well formed; see
    /// [`ValueView::well_formed`].
    pub open spec fn holds_well_formed(self) -> bool {
        forall|i: int|
            0 <= i < self.slots.len() ==> ((#[trigger] self.slots[i]).value matches Some(value)
                ==> value.well_formed())
    }

    /// The handle of the variable in slot `slot`.
    pub open spec fn handle(self, slot: int) -> VariableView {
        VariableView { owner: self.id, slot: slot as nat, name: self.slots[slot].name }
    }

    /// Whether `variable` is a handle of this environment.
    pub open spec fn owns(self, variable: VariableView) -> bool {
        &&& variable.owner == self.id
        &&& variable.slot < self.slots.len()
        &&& self.slots[variable.slot as int].name == variable.name
    }

    /// The variable named `name` and the environment after it has been looked
    /// up: the variable that has that name already, or else a new, unassigned
    /// one at the end of the table.
    pub open spec fn intern(self, name: Seq<char>) -> (VariableView, EnvironmentView) {
        match first_named(self.slots, name, 0) {
            Some(slot) => (self.handle(slot), self),
            None => {
                let grown = EnvironmentView {
                    id: self.id,
                    capacity: self.capacity,
                    slots: self.slots.push(SlotView { name, value: None }),
                };
                (grown.handle(self.slots.len() as int), grown)
            },
        }
    }

    /// The value last assigned to `variable`; none for a variable that has
    /// not been assigned or that belongs to another environment.
    pub open spec fn fetch(self, variable: VariableView) -> Option<ValueView> {
        if self.owns(variable) {
            self.slots[variable.slot as int].value
        } else {
            None
        }
    }

    /// The environment after `value` has been assigned to `variable`. A
    /// variable of another environment cannot be assigned here.
    pub open spec fn assign(self, variable: VariableView, value: ValueView) -> EnvironmentView {
        if self.owns(variable) {
            EnvironmentView {
                id: self.id,
                capacity: self.capacity,
                slots: self.slots.update(
                    variable.slot as int,
                    SlotView { name: variable.name, value: Some(value) },
                ),
            }
        } else {
            self
        }
    }
}

/// A search finds a slot with the name it looks for, the first one, or finds
/// none because there is none.
pub proof fn lemma_first_named(slots: Seq<SlotView>, name: Seq<char>, from: int)
    requires
        0 <= from <= slots.len(),
    ensures
        match first_named(slots, name, from) {
            Some(slot) => from <= slot < slots.len() && slots[slot].name == name && forall|i: int|
                from <= i < slot ==> (#[trigger] slots[i]).name != name,
            None => forall|i: int| from <= i < slots.len() ==> (#[trigger] slots[i]).name != name,
        },
    decreases slots.len() - from,
{
    if from < slots.len() && slots[from].name != name {
        lemma_first_named(slots, name, from + 1);
    }
}

/// Looking a name up keeps the names of an environment distinct, and the
/// handle that it gives is one of the environment. Looking the same name up
/// again changes nothing and gives the same handle.
pub proof fn lemma_intern(env: EnvironmentView, name: Seq<char>)
    requires
        env.wf(),
    ensures
        env.intern(name).1.wf(),
        env.intern(name).1.owns(env.intern(name).0),
        env.intern(name).0.name == name,
        env.intern(name).1.intern(name) == env.intern(name),
        forall|other: VariableView| env.owns(other) ==> env.intern(name).1.owns(other),
        forall|other: VariableView|
            env.owns(other) ==> env.intern(name).1.fetch(other) == env.fetch(other),
{
    lemma_first_named(env.slots, name, 0);
    let after = env.intern(name).1;
    lemma_first_named(after.slots, name, 0);
}

/// Assigning keeps the names of an environment distinct and its handles
/// good; the variable then holds the value, and every other variable holds
/// what it held.
pub proof fn lemma_assign(env: EnvironmentView, variable: VariableView, value: ValueView)
    requires
        env.wf(),
    ensures
        env.assign(variable, value).wf(),
        forall|other: VariableView| env.owns(other) <==> env.assign(variable, value).owns(other),
        env.owns(variable) ==> env.assign(variable, value).fetch(variable) == Some(value),
        forall|other: VariableView|
            other != variable ==> env.assign(variable, value).fetch(other) == env.fetch(other),
        forall|name: Seq<char>|
            env.assign(variable, value).intern(name).0 == env.intern(name).0,
{
    let after = env.assign(variable, value);
    assert forall|other: VariableView| other != variable implies after.fetch(other) == env.fetch(
        other,
    ) by {
        if env.owns(variable) && env.owns(other) {
            if other.slot == variable.slot {
                assert(other.name == variable.name);
            }
        }
    }
    assert forall|name: Seq<char>| after.intern(name).0 == env.intern(name).0 by {
        lemma_same_names(env.slots, after.slots, name, 0);
        lemma_first_named(env.slots, name, 0);
        lemma_first_named(after.slots, name, 0);
    }
}

/// What is assigned to a variable is what is fetched from it, through the
/// handle that it was assigned through and through every handle that the
/// environment gives for the same name afterwards: they are the same handle.
pub proof fn lemma_assign_then_fetch(env: EnvironmentView, name: Seq<char>, value: ValueView)
    requires
        env.wf(),
    ensures
        ({
            let (first, interned) = env.intern(name);
            let assigned = interned.assign(first, value);
            let (second, after) = assigned.intern(name);
            &&& second == first
            &&& after == assigned
            &&& after.fetch(second) == Some(value)
        }),
{
    lemma_intern(env, name);
    let (first, interned) = env.intern(name);
    lemma_assign(interned, first, value);
    let assigned = interned.assign(first, value);
    lemma_intern(assigned, name);
    lemma_first_named(interned.slots, name, 0);
    lemma_first_named(assigned.slots, name, 0);
}

/// Handles of environments with different ids are never the same, whatever
/// their names: an environment owns no variable of another.
pub proof fn lemma_environments_apart(
    left: EnvironmentView,
    right: EnvironmentView,
    variable: VariableView,
)
    requires
        left.id != right.id,
        left.owns(variable),
    ensures
        !right.owns(variable),
        right.fetch(variable) is None,
        forall|value: ValueView| right.assign(variable, value) == right,
{
}

/// A search goes by the names alone.
proof fn lemma_same_names(left: Seq<SlotView>, right: Seq<SlotView>, name: Seq<char>, from: int)
    requires
        left.len() == right.len(),
        forall|i: int| 0 <= i < left.len() ==> (#[trigger] left[i]).name == (#[trigger] right[i]).name,
        0 <= from,
    ensures
        first_named(left, name, from) == first_named(right, name, from),
    decreases left.len() - from,
{
    if from < left.len() {
        assert(left[from].name == right[from].name);
        lemma_same_names(left, right, name, from + 1);
    }
}

/// The execution environment for Knight programs: the table of its
/// variables.
///
/// An environment interns names: the first [`get`](Environment::get) of a
/// name makes a variable, and every later one returns the same handle.
/// Environments are told apart by their ids, which they get from a source of
/// ids when they are made (see [`Ids`]): no two environments of one source
/// have the same id, so handles of one environment mean nothing to another.
///
/// The table is a vector in which a variable keeps its place: a handle holds
/// that place, so that reading and assigning through a handle take no
/// search. Only [`get`](Environment::get) searches, by name, from the start.
///
/// Reading input, writing output and running shell commands are not done
/// here: a running program asks its host for them (see
/// [`Request`](crate::machine::Request)).
pub struct Environment {
    id: u64,
    capacity: usize,
    slots: Vec<Slot>,
}

impl View for Slot {
    type V = SlotView;

    closed spec fn view(&self) -> SlotView {
        SlotView {
            name: self.name@,
            value: match self.value {
                Some(value) => Some(value@),
                None => None,
            },
        }
    }
}

/// The views of the entries of a table.
spec fn table(slots: Seq<Slot>) -> Seq<SlotView> {
    Seq::new(slots.len(), |i: int| slots[i]@)
}

impl View for Environment {
    type V = EnvironmentView;

    closed spec fn view(&self) -> EnvironmentView {
        EnvironmentView { id: self.id, capacity: self.capacity, slots: table(self.slots@) }
    }
}

/// The source of the ids that tell environments apart.
///
/// Every environment is made with the next id of such a source, and a source
/// gives no id twice. So two environments that were made from one source are
/// never the same, and neither owns a variable of the other, whatever the
/// variables are called. A program that holds several environments makes
/// them all from one source.
///
/// A source starts at a number that is drawn at random, so that environments
/// of two sources are not taken for one another either, but for the chance
/// that the numbers of two sources meet.
#[derive(Debug)]
pub struct Ids {
    next: u64,
}

impl View for Ids {
    type V = u64;

    /// The id that the next environment will have.
    closed spec fn view(&self) -> u64 {
        self.next
    }
}

impl Default for Ids {
    fn default() -> (res: Self)
        ensures
            res@ <= i64::MAX,
    {
        Ids::new()
    }
}

impl Ids {
    /// A source that has given no id yet. Its first id is drawn at random
    /// from the lower half of the ids, so that half of all ids, at the least,
    /// are left to give.
    #[must_use]
    pub fn new() -> (res: Self)
        ensures
            res@ <= i64::MAX,
    {
        let drawn = random_number();
        let start = if drawn < 0 {
            (-(drawn + 1)) as u64
        } else {
            drawn as u64
        };
        Ids { next: start }
    }

    /// The id that the next environment will have.
    pub fn next_id(&self) -> (res: u64)
        ensures
            res == self@,
    {
        self.next
    }

    /// Whether the source has no id left to give.
    pub fn is_spent(&self) -> (res: bool)
        ensures
            res == (self@ == u64::MAX),
    {
        self.next == u64::MAX
    }

    /// Gives the next id, and never again.
    pub(crate) fn fresh(&mut self) -> (res: u64)
        requires
            old(self)@ < u64::MAX,
        ensures
            res == old(self)@,
            final(self)@ == old(self)@ + 1,
    {
        let id = self.next;
        self.next = self.next + 1;
        id
    }
}

impl Environment {
    /// No two variables of an environment have the same name.
    #[verifier::type_invariant]
    pub open spec fn is_interned(&self) -> bool {
        self@.wf()
    }

    /// Creates an empty [`Environment`] with room for [`DEFAULT_CAPACITY`]
    /// variables. Its id is the next one of `ids`, which is then used up: no
    /// other environment of that source has it.
    #[must_use]
    pub fn new(ids: &mut Ids) -> (res: Self)
        requires
            old(ids)@ < u64::MAX,
        ensures
            res@ == (EnvironmentView {
                id: old(ids)@,
                capacity: DEFAULT_CAPACITY,
                slots: Seq::empty(),
            }),
            final(ids)@ == old(ids)@ + 1,
    {
        proof {
            Builder::lemma_new();
        }
        Environment::builder().build(ids)
    }

    /// Creates a new [`Builder`].
    ///
    /// This is simply a helper function, and is provided so that you don't
    /// have to import [`Builder`].
    #[must_use]
    pub fn builder() -> (res: Builder)
        ensures
            res == Builder::spec_new(),
    {
        Builder::new()
    }

    /// Creates an empty [`Environment`] with room for `capacity` variables.
    /// Its id is the next one of `ids`, which is then used up.
    #[must_use]
    pub fn with_capacity(capacity: usize, ids: &mut Ids) -> (res: Self)
        requires
            old(ids)@ < u64::MAX,
        ensures
            res@ == (EnvironmentView { id: old(ids)@, capacity, slots: Seq::empty() }),
            final(ids)@ == old(ids)@ + 1,
    {
        Environment::builder().capacity(capacity).build(ids)
    }

    /// Makes an environment from what its builder holds: its table is
    /// allocated with room for `capacity` variables.
    pub(crate) fn create(id: u64, capacity: usize) -> (res: Self)
        ensures
            res@ == (EnvironmentView { id, capacity, slots: Seq::empty() }),
    {
        let slots: Vec<Slot> = Vec::with_capacity(capacity);
        proof {
            assert(table(slots@) =~= Seq::empty());
        }
        Environment { id, capacity, slots }
    }

    /// The id that tells this environment from others.
    pub fn id(&self) -> (res: u64)
        ensures
            res == self@.id,
    {
        self.id
    }

    /// The number of variables that the environment was made with room for.
    pub fn capacity(&self) -> (res: usize)
        ensures
            res == self@.capacity,
    {
        self.capacity
    }

    /// The number of variables that the environment holds.
    pub fn len(&self) -> (res: usize)
        ensures
            res == self@.slots.len(),
    {
        self.slots.len()
    }

    /// Retrieves the variable with the given name.
    ///
    /// This method will always succeed; if this is the first time that `name`
    /// has been seen by `self`, a new (unassigned) variable will be created.
    pub fn get(&mut self, name: &str) -> (res: Variable)
        ensures
            (res@, final(self)@) == old(self)@.intern(name@),
            final(self)@.owns(res@),
    {
        proof {
            use_type_invariant(&*self);
            lemma_first_named(self@.slots, name@, 0);
            lemma_intern(self@, name@);
        }
        let wanted = String::from_str(name);
        let mut slot: usize = 0;
        while slot < self.slots.len()
            invariant
                slot <= self.slots@.len(),
                wanted@ == name@,
                *self == *old(self),
                forall|i: int| 0 <= i < slot ==> (#[trigger] self@.slots[i]).name != name@,
                first_named(self@.slots, name@, 0) == first_named(self@.slots, name@, slot as int),
            decreases self.slots@.len() - slot,
        {
            if *self.slots[slot].name == wanted {
                return Variable::create(self.id, slot, crate::support::share(&self.slots[slot].name));
            }
            slot = slot + 1;
        }
        let shared = Rc::new(wanted);
        let variable = Variable::create(self.id, slot, crate::support::share(&shared));
        // The table is taken out, grown, and put back, so that the
        // environment is in order whenever it can be seen.
        let mut taken = Environment::create(self.id, 0);
        core::mem::swap(self, &mut taken);
        let Environment { id, capacity, mut slots } = taken;
        slots.push(Slot { name: shared, value: None });
        proof {
            assert(table(slots@) =~= old(self)@.slots.push(SlotView { name: name@, value: None }));
        }
        *self = Environment { id, capacity, slots };
        variable
    }

    /// Whether `variable` is a handle of this environment.
    pub fn owns(&self, variable: &Variable) -> (res: bool)
        ensures
            res == self@.owns(variable@),
    {
        if variable.owner() == self.id && variable.slot() < self.slots.len() {
            variable.is_named(&self.slots[variable.slot()].name)
        } else {
            false
        }
    }

    /// Returns the last value assigned to `variable`, or `None` if nothing has
    /// been assigned to it (or if it is a variable of another environment).
    #[must_use]
    pub fn fetch(&self, variable: &Variable) -> (res: Option<Value>)
        ensures
            res is Some <==> self@.fetch(variable@) is Some,
            res matches Some(value) ==> self@.fetch(variable@) == Some(value@),
    {
        if self.owns(variable) {
            match &self.slots[variable.slot()].value {
                Some(value) => Some(value.clone()),
                None => None,
            }
        } else {
            None
        }
    }

    /// Associates `value` with `variable`, so that [`fetch`](Self::fetch)
    /// will return it; tells whether it did. Any previously associated value
    /// is discarded. A variable of another environment is not assigned.
    pub fn assign(&mut self, variable: &Variable, value: Value) -> (res: bool)
        ensures
            res == old(self)@.owns(variable@),
            final(self)@ == old(self)@.assign(variable@, value@),
    {
        proof {
            use_type_invariant(&*self);
            lemma_assign(self@, variable@, value@);
        }
        if self.owns(variable) {
            let slot = variable.slot();
            let name = crate::support::share(&self.slots[slot].name);
            let mut taken = Environment::create(self.id, 0);
            core::mem::swap(self, &mut taken);
            let Environment { id, capacity, mut slots } = taken;
            slots.set(slot, Slot { name, value: Some(value) });
            proof {
                assert(table(slots@) =~= old(self)@.slots.update(
                    slot as int,
                    SlotView { name: variable@.name, value: Some(value@) },
                ));
            }
            *self = Environment { id, capacity, slots };
            true
        } else {
            false
        }
    }
}

impl Variable {
    /// Checks to see if the variable has been assigned to yet.
    #[must_use]
    pub fn is_assigned(&self, env: &Environment) -> (res: bool)
        ensures
            res == env@.fetch(self@) is Some,
    {
        env.fetch(self).is_some()
    }

    /// Associates `value` with this variable; see [`Environment::assign`].
    pub fn assign(&self, env: &mut Environment, value: Value) -> (res: bool)
        ensures
            res == old(env)@.owns(self@),
            final(env)@ == old(env)@.assign(self@, value@),
    {
        env.assign(self, value)
    }

    /// Returns the last value associated with this variable; see
    /// [`Environment::fetch`].
    #[must_use]
    pub fn fetch(&self, env: &Environment) -> (res: Option<Value>)
        ensures
            res is Some <==> env@.fetch(self@) is Some,
            res matches Some(value) ==> env@.fetch(self@) == Some(value@),
    {
        env.fetch(self)
    }
}

} // verus!
