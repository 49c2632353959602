use vstd::prelude::*;

verus! {

/// Counts how many assets were requested and how many finished loading. An
/// asset finishes loading only after it was requested, so no more have
/// finished than were requested.
#[derive(Debug)]
pub struct LoadProgress {
    progress: usize,
    total: usize,
}

impl LoadProgress {
    #[verifier::type_invariant]
    spec fn loaded_within_requested(&self) -> bool {
        self.progress <= self.total
    }

    /// How many requested assets finished loading.
    pub closed spec fn loaded(&self) -> nat {
        self.progress as nat
    }

    /// How many assets were requested.
    pub closed spec fn requested(&self) -> nat {
        self.total as nat
    }

    /// Nothing requested, nothing loaded.
    pub fn new() -> (r: Self)
        ensures
            r.loaded() == 0,
            r.requested() == 0,
    {
        LoadProgress { progress: 0, total: 0 }
    }

    /// How many requested assets finished loading; never more than were
    /// requested.
    pub fn progress(&self) -> (r: usize)
        ensures
            r == self.loaded(),
            r <= self.requested(),
    {
        proof {
            use_type_invariant(self);
        }
        self.progress
    }

    /// How many assets were requested.
    pub fn total(&self) -> (r: usize)
        ensures
            r == self.requested(),
            self.loaded() <= r,
    {
        proof {
            use_type_invariant(self);
        }
        self.total
    }

    /// An asset was requested.
    pub fn asset_requested(&mut self)
        requires
            old(self).requested() < usize::MAX,
        ensures
            final(self).requested() == old(self).requested() + 1,
            final(self).loaded() == old(self).loaded(),
    {
        proof {
            use_type_invariant(&*self);
        }
        self.total = self.total + 1;
    }

    /// A requested asset finished loading: one that was requested and has
    /// not finished before, so fewer have finished than were requested.
    pub fn asset_loaded(&mut self)
        requires
            old(self).loaded() < old(self).requested(),
        ensures
            final(self).loaded() == old(self).loaded() + 1,
            final(self).requested() == old(self).requested(),
    {
        self.progress = self.progress + 1;
    }
}

/// An asset that is loaded again whenever its file changes: it holds the
/// value of the last load that succeeded.
pub struct Hot<T> {
    current: T,
}

impl<T> Hot<T> {
    /// The value that `self` hands out now.
    pub closed spec fn value(&self) -> T {
        self.current
    }

    /// An asset first loaded as `initial`.
    pub fn new(initial: T) -> (r: Self)
        ensures
            r.value() == initial,
    {
        Hot { current: initial }
    }

    /// The current value.
    pub fn get(&self) -> (r: &T)
        ensures
            *r == self.value(),
    {
        &self.current
    }

    /// Takes the result of loading the asset again: a value that loaded
    /// replaces the current one, a failed load is dropped and the current
    /// value stays. Returns whether the value was replaced.
    pub fn reloaded<E>(&mut self, result: Result<T, E>) -> (r: bool)
        ensures
            r == result is Ok,
            final(self).value() == (match result {
                Ok(v) => v,
                Err(_) => old(self).value(),
            }),
    {
        match result {
            Ok(v) => {
                self.current = v;
                true
            },
            Err(_) => false,
        }
    }
}

} // verus!
