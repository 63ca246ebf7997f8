use vstd::prelude::*;
use std::collections::HashMap;

verus! {

broadcast use vstd::std_specs::hash::group_hash_axioms;

/// Whether a press of `key` at `now` (milliseconds) is let through, given the
/// last recorded press of each key: a key never seen passes, and a key seen
/// before passes once at least `min_interval` milliseconds have gone by.
pub open spec fn accepts(last: Map<u64, i64>, key: u64, now: i64, min_interval: u64) -> bool {
    if last.contains_key(key) {
        now as int - last[key] as int >= min_interval as int
    } else {
        true
    }
}

/// The time of the last press of each key, for the control thread alone.
pub struct DebounceTracker {
    last: HashMap<u64, i64>,
}

impl View for DebounceTracker {
    type V = Map<u64, i64>;

    closed spec fn view(&self) -> Map<u64, i64> {
        self.last@
    }
}

impl DebounceTracker {
    /// A tracker that has seen no key.
    pub fn new() -> (r: DebounceTracker)
        ensures
            r@ == Map::<u64, i64>::empty(),
    {
        DebounceTracker { last: HashMap::new() }
    }

    /// Whether a press of `key` at `now` would be let through; records nothing.
    pub fn is_debounced(&self, key: u64, now: i64, min_interval: u64) -> (r: bool)
        ensures
            r == accepts(self@, key, now, min_interval),
    {
        match self.last.get(&key) {
            Some(t) => now as i128 - *t as i128 >= min_interval as i128,
            None => true,
        }
    }

    /// Records a press of `key` at `now`, whether or not it passes.
    pub fn record(&mut self, key: u64, now: i64)
        ensures
            final(self)@ == old(self)@.insert(key, now),
    {
        self.last.insert(key, now);
    }

    /// Evaluates a press of `key` at `now` against the debounce rule and records it:
    /// the press is recorded whether or not it passes.
    pub fn press(&mut self, key: u64, now: i64, min_interval: u64) -> (r: bool)
        ensures
            r == accepts(old(self)@, key, now, min_interval),
            final(self)@ == old(self)@.insert(key, now),
    {
        let r = self.is_debounced(key, now, min_interval);
        self.record(key, now);
        r
    }
}

} // verus!
