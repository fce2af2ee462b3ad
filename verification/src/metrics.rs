//! Process-wide operation counters: one per operation kind, purely
//! observational. Each increment wraps around at the counter's maximum, as a
//! relaxed atomic add would.

use vstd::prelude::*;

verus! {

/// A counter bumped by one, wrapping at the maximum.
pub open spec fn bump(c: u64) -> u64 {
    if c == u64::MAX {
        0
    } else {
        (c + 1) as u64
    }
}

/// Counts of executed operations by kind.
#[derive(Debug)]
pub struct Metrics {
    pub get_operations: u64,
    pub set_operations: u64,
    pub delete_operations: u64,
    pub keys_operations: u64,
    pub clear_operations: u64,
}

impl Metrics {
    /// All counters start at zero.
    pub fn new() -> (r: Metrics)
        ensures
            r.get_operations == 0,
            r.set_operations == 0,
            r.delete_operations == 0,
            r.keys_operations == 0,
            r.clear_operations == 0,
    {
        Metrics {
            get_operations: 0,
            set_operations: 0,
            delete_operations: 0,
            keys_operations: 0,
            clear_operations: 0,
        }
    }

    /// Count one executed read.
    pub fn increment_get(&mut self)
        ensures
            final(self).get_operations == bump(old(self).get_operations),
            final(self).set_operations == old(self).set_operations,
            final(self).delete_operations == old(self).delete_operations,
            final(self).keys_operations == old(self).keys_operations,
            final(self).clear_operations == old(self).clear_operations,
    {
        self.get_operations = if self.get_operations == u64::MAX {
            0
        } else {
            self.get_operations + 1
        };
    }

    /// Count one executed write.
    pub fn increment_set(&mut self)
        ensures
            final(self).set_operations == bump(old(self).set_operations),
            final(self).get_operations == old(self).get_operations,
            final(self).delete_operations == old(self).delete_operations,
            final(self).keys_operations == old(self).keys_operations,
            final(self).clear_operations == old(self).clear_operations,
    {
        self.set_operations = if self.set_operations == u64::MAX {
            0
        } else {
            self.set_operations + 1
        };
    }

    /// Count one executed deletion.
    pub fn increment_delete(&mut self)
        ensures
            final(self).delete_operations == bump(old(self).delete_operations),
            final(self).get_operations == old(self).get_operations,
            final(self).set_operations == old(self).set_operations,
            final(self).keys_operations == old(self).keys_operations,
            final(self).clear_operations == old(self).clear_operations,
    {
        self.delete_operations = if self.delete_operations == u64::MAX {
            0
        } else {
            self.delete_operations + 1
        };
    }

    /// Count one key listing.
    pub fn increment_keys(&mut self)
        ensures
            final(self).keys_operations == bump(old(self).keys_operations),
            final(self).get_operations == old(self).get_operations,
            final(self).set_operations == old(self).set_operations,
            final(self).delete_operations == old(self).delete_operations,
            final(self).clear_operations == old(self).clear_operations,
    {
        self.keys_operations = if self.keys_operations == u64::MAX {
            0
        } else {
            self.keys_operations + 1
        };
    }

    /// Count one flush.
    pub fn increment_clear(&mut self)
        ensures
            final(self).clear_operations == bump(old(self).clear_operations),
            final(self).get_operations == old(self).get_operations,
            final(self).set_operations == old(self).set_operations,
            final(self).delete_operations == old(self).delete_operations,
            final(self).keys_operations == old(self).keys_operations,
    {
        self.clear_operations = if self.clear_operations == u64::MAX {
            0
        } else {
            self.clear_operations + 1
        };
    }

    /// A copy of all counters at this moment.
    pub fn get_stats(&self) -> (r: MetricsSnapshot)
        ensures
            r.get_operations == self.get_operations,
            r.set_operations == self.set_operations,
            r.delete_operations == self.delete_operations,
            r.keys_operations == self.keys_operations,
            r.clear_operations == self.clear_operations,
    {
        MetricsSnapshot {
            get_operations: self.get_operations,
            set_operations: self.set_operations,
            delete_operations: self.delete_operations,
            keys_operations: self.keys_operations,
            clear_operations: self.clear_operations,
        }
    }
}

/// A point-in-time copy of the counters.
#[derive(Debug, Clone)]
pub struct MetricsSnapshot {
    pub get_operations: u64,
    pub set_operations: u64,
    pub delete_operations: u64,
    pub keys_operations: u64,
    pub clear_operations: u64,
}

impl MetricsSnapshot {
    /// The sum of all counters.
    pub fn total_operations(&self) -> (r: u64)
        requires
            self.get_operations + self.set_operations + self.delete_operations
                + self.keys_operations + self.clear_operations <= u64::MAX,
        ensures
            r == self.get_operations + self.set_operations + self.delete_operations
                + self.keys_operations + self.clear_operations,
    {
        self.get_operations + self.set_operations + self.delete_operations + self.keys_operations
            + self.clear_operations
    }
}

} // verus!
