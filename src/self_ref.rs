use std::sync::Arc;

use vstd::prelude::*;

verus! {

/// An owner kept together with data derived from it.
///
/// The owner sits behind a shared pointer, so its storage never moves while
/// the cache lives, and `data` is declared before `owner`, so it is dropped
/// first. The derived data is an owned value: it names what it needs from the
/// owner by copying or by position, never by reference.
pub struct SelfRef<O, D> {
    data: D,
    owner: Arc<O>,
}

impl<O, D> SelfRef<O, D> {
    pub closed spec fn owner_value(&self) -> O {
        *self.owner
    }

    pub closed spec fn data_value(&self) -> D {
        self.data
    }

    /// Takes `owner` and derives the data from it with `build`. When `build`
    /// fails, its error is returned and no cache is made.
    pub fn try_new<E, F: FnOnce(&O) -> Result<D, E>>(owner: O, build: F) -> (r: Result<Self, E>)
        requires
            build.requires((&owner,)),
        ensures
            match r {
                Ok(c) => c.owner_value() == owner && build.ensures(
                    (&owner,),
                    Ok::<D, E>(c.data_value()),
                ),
                Err(e) => build.ensures((&owner,), Err::<D, E>(e)),
            },
    {
        let owner = Arc::new(owner);
        let derived = build(&*owner);
        match derived {
            Ok(data) => Ok(SelfRef { data, owner }),
            Err(e) => Err(e),
        }
    }

    /// The derived data, for as long as the cache is borrowed.
    pub fn data(&self) -> (r: &D)
        ensures
            *r == self.data_value(),
    {
        &self.data
    }

    /// The owner the data was derived from.
    pub fn owner(&self) -> (r: &O)
        ensures
            *r == self.owner_value(),
    {
        &*self.owner
    }
}

} // verus!
