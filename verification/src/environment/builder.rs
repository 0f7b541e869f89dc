//! The builder of environments.

use crate::environment::Environment;
use crate::environment::EnvironmentView;
use crate::environment::Ids;
use vstd::prelude::*;

verus! {

/// The room for variables that an environment starts with when none is asked
/// for.
pub const DEFAULT_CAPACITY: usize = 2048;

/// A Builder for the [`Environment`] struct.
#[derive(Debug, Clone, Copy)]
pub struct Builder {
    capacity: Option<usize>,
}

impl Default for Builder {
    fn default() -> (res: Self)
        ensures
            res == Builder::spec_new(),
    {
        Builder::new()
    }
}

impl Builder {
    /// The builder that nothing has been asked of yet.
    pub closed spec fn spec_new() -> Builder {
        Builder { capacity: None }
    }

    /// The capacity that was asked for, if any.
    pub closed spec fn spec_capacity(self) -> Option<usize> {
        self.capacity
    }

    /// The capacity that the environment will be made with.
    pub open spec fn room(self) -> usize {
        match self.spec_capacity() {
            Some(capacity) => capacity,
            None => DEFAULT_CAPACITY,
        }
    }

    /// A new builder asks for no capacity.
    pub proof fn lemma_new()
        ensures
            Builder::spec_new().spec_capacity() is None,
    {
    }

    /// Creates a new, default [`Builder`].
    #[must_use]
    pub fn new() -> (res: Self)
        ensures
            res == Builder::spec_new(),
    {
        Builder { capacity: None }
    }

    /// Sets the initial starting capacity for the table of variables.
    ///
    /// If not set, [`DEFAULT_CAPACITY`] is used.
    #[must_use]
    pub fn capacity(self, capacity: usize) -> (res: Self)
        ensures
            res.spec_capacity() == Some(capacity),
    {
        Builder { capacity: Some(capacity) }
    }

    /// Creates a new [`Environment`] with all the supplied options, and with
    /// the next id of `ids`, which is then used up.
    ///
    /// Any options that have not been explicitly set will have their default
    /// values used.
    #[must_use]
    pub fn build(self, ids: &mut Ids) -> (res: Environment)
        requires
            old(ids)@ < u64::MAX,
        ensures
            res@ == (EnvironmentView { id: old(ids)@, capacity: self.room(), slots: Seq::empty() }),
            final(ids)@ == old(ids)@ + 1,
    {
        let capacity = match self.capacity {
            Some(capacity) => capacity,
            None => DEFAULT_CAPACITY,
        };
        Environment::create(ids.fresh(), capacity)
    }
}

} // verus!
