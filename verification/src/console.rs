//! The log console of the debug overlay: it shows the latest log records.
use vstd::prelude::*;
use std::collections::VecDeque;

verus! {

/// How many records the console keeps.
pub const MAX_RECORDS: usize = 10;

/// The last `n` items of `s` (all of them when there are fewer).
pub open spec fn keep_last<T>(s: Seq<T>, n: nat) -> Seq<T> {
    if s.len() > n {
        s.skip(s.len() - n)
    } else {
        s
    }
}

/// The records shown by the debug overlay's console, oldest first.
pub struct Console {
    records: VecDeque<String>,
}

impl View for Console {
    type V = Seq<String>;

    closed spec fn view(&self) -> Seq<String> {
        self.records@
    }
}

impl Console {
    /// A console with no records.
    pub fn new() -> (r: Self)
        ensures
            r@ == Seq::<String>::empty(),
    {
        Console { records: VecDeque::new() }
    }

    /// Takes the records logged since the last frame and keeps only the
    /// latest `MAX_RECORDS` of all.
    pub fn before_draw(&mut self, received: Vec<String>)
        ensures
            final(self)@ == keep_last(old(self)@ + received@, MAX_RECORDS as nat),
    {
        let mut i: usize = 0;
        while i < received.len()
            invariant
                i <= received@.len(),
                self.records@ == old(self)@ + received@.take(i as int),
            decreases received@.len() - i,
        {
            self.records.push_back(received[i].clone());
            i = i + 1;
            assert(self.records@ =~= old(self)@ + received@.take(i as int));
        }
        assert(received@.take(i as int) =~= received@);
        let ghost all = self.records@;
        assert(all.skip(0) =~= all);
        while self.records.len() > MAX_RECORDS
            invariant
                all == old(self)@ + received@,
                self.records@.len() <= all.len(),
                all.len() > MAX_RECORDS ==> self.records@.len() >= MAX_RECORDS,
                all.len() <= MAX_RECORDS ==> self.records@.len() == all.len(),
                self.records@ == all.skip(all.len() - self.records@.len()),
            decreases self.records@.len(),
        {
            let _ = self.records.pop_front();
            assert(self.records@ =~= all.skip(all.len() - self.records@.len()));
        }
    }

    /// The records, oldest first.
    pub fn records(&self) -> (r: &VecDeque<String>)
        ensures
            r@ == self@,
    {
        &self.records
    }
}

/// The console never holds more than `MAX_RECORDS` records, and what it
/// holds is the latest part of what it was given.
pub proof fn law_console_keeps_latest(before: Seq<String>, received: Seq<String>)
    ensures
        keep_last(before + received, MAX_RECORDS as nat).len() <= MAX_RECORDS,
        received.len() >= MAX_RECORDS ==> keep_last(before + received, MAX_RECORDS as nat)
            == received.skip(received.len() - MAX_RECORDS),
        before.len() + received.len() <= MAX_RECORDS ==> keep_last(
            before + received,
            MAX_RECORDS as nat,
        ) == before + received,
{
    let all = before + received;
    if received.len() >= MAX_RECORDS {
        assert(all.skip(all.len() - MAX_RECORDS) =~= received.skip(
            received.len() - MAX_RECORDS,
        ));
    }
}

} // verus!
