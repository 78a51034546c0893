//! Best-candidate selection.
//!
//! A `BestMap` holds at most one `(key, value)` pair, the best candidate
//! seen so far, under one of two insertion policies:
//! - `insert_le` replaces the entry when the new key is less than *or
//!   equal to* the current one, so the latest candidate wins exact ties;
//! - `insert_lt` replaces only on strictly smaller keys, so the first
//!   candidate wins exact ties.
//! Keys are exact movement ratios.

use vstd::prelude::*;

use crate::ratio::Ratio;

verus! {

/// Holder of the minimal-key candidate, with a configurable tie rule.
pub struct BestMap<V> {
    entry: Option<(Ratio, V)>,
}

impl<V> BestMap<V> {
    /// The current `(key, value)` entry, if any.
    pub closed spec fn spec_entry(self) -> Option<(Ratio, V)> {
        self.entry
    }

    /// The key of the current entry, if any, is a well-formed ratio.
    pub open spec fn wf(self) -> bool {
        match self.spec_entry() {
            Some((k, _)) => k.wf(),
            None => true,
        }
    }

    pub fn new() -> (r: Self)
        ensures
            r.spec_entry() == None::<(Ratio, V)>,
            r.wf(),
    {
        Self { entry: None }
    }

    /// Replaces the entry if there is none yet, or if `key` is less than
    /// or equal to the current key: the later candidate wins exact ties.
    pub fn insert_le(&mut self, key: Ratio, value: V)
        requires
            key.wf(),
            old(self).wf(),
        ensures
            final(self).wf(),
            final(self).spec_entry() == match old(self).spec_entry() {
                None => Some((key, value)),
                Some((k0, v0)) => if key@.le(k0@) {
                    Some((key, value))
                } else {
                    Some((k0, v0))
                },
            },
    {
        let replace = match &self.entry {
            None => true,
            Some((k0, _)) => key.le(*k0),
        };
        if replace {
            self.entry = Some((key, value));
        }
    }

    /// Replaces the entry if there is none yet, or if `key` is strictly
    /// less than the current key: the first candidate wins exact ties.
    pub fn insert_lt(&mut self, key: Ratio, value: V)
        requires
            key.wf(),
            old(self).wf(),
        ensures
            final(self).wf(),
            final(self).spec_entry() == match old(self).spec_entry() {
                None => Some((key, value)),
                Some((k0, v0)) => if key@.lt(k0@) {
                    Some((key, value))
                } else {
                    Some((k0, v0))
                },
            },
    {
        let replace = match &self.entry {
            None => true,
            Some((k0, _)) => key.lt(*k0),
        };
        if replace {
            self.entry = Some((key, value));
        }
    }

    /// Gives up the best candidate found, if any.
    pub fn into_key_and_value(self) -> (r: Option<(Ratio, V)>)
        ensures
            r == self.spec_entry(),
    {
        self.entry
    }
}

} // verus!
