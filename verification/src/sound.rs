//! The spatial audio source recomputes its channel volumes every 101 samples.
use vstd::prelude::*;

verus! {

/// Samples between two volume updates of a spatial source.
pub const SAMPLES_BETWEEN_VOLUME_UPDATES: usize = 100;

/// Counts down the samples until the next volume update.
pub struct VolumeUpdateCounter {
    next_update_volume: usize,
}

impl VolumeUpdateCounter {
    pub closed spec fn remaining(&self) -> nat {
        self.next_update_volume as nat
    }

    /// The count never starts above the number of samples between updates.
    #[verifier::type_invariant]
    spec fn within_period(&self) -> bool {
        self.next_update_volume <= SAMPLES_BETWEEN_VOLUME_UPDATES
    }

    /// The first sample updates the volume.
    pub fn new() -> (r: Self)
        ensures
            r.remaining() == 0,
    {
        VolumeUpdateCounter { next_update_volume: 0 }
    }

    /// Called for each sample; says whether to update the volume first.
    pub fn tick(&mut self) -> (update: bool)
        ensures
            update == (old(self).remaining() == 0),
            final(self).remaining() == (if update {
                SAMPLES_BETWEEN_VOLUME_UPDATES as nat
            } else {
                (old(self).remaining() - 1) as nat
            }),
            final(self).remaining() <= SAMPLES_BETWEEN_VOLUME_UPDATES,
    {
        proof {
            use_type_invariant(&*self);
        }
        if self.next_update_volume == 0 {
            self.next_update_volume = SAMPLES_BETWEEN_VOLUME_UPDATES;
            true
        } else {
            self.next_update_volume = self.next_update_volume - 1;
            false
        }
    }
}

/// The counter after `n` ticks from `r` remaining.
pub open spec fn counter_after(r: nat, n: nat) -> nat
    decreases n,
{
    if n == 0 {
        r
    } else {
        let prev = counter_after(r, (n - 1) as nat);
        if prev == 0 {
            SAMPLES_BETWEEN_VOLUME_UPDATES as nat
        } else {
            (prev - 1) as nat
        }
    }
}

/// From a fresh counter, the volume is updated on exactly the samples whose
/// number is a multiple of 101.
pub proof fn law_update_every_101_samples(n: nat)
    ensures
        (counter_after(0, n) == 0) == (n % 101 == 0),
        counter_after(0, n) == (101 - n % 101) % 101,
    decreases n,
{
    if n > 0 {
        law_update_every_101_samples((n - 1) as nat);
    }
}

} // verus!
