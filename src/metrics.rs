use vstd::prelude::*;

verus! {

/// A monotonic event counter. It saturates at `u64::MAX` instead of wrapping.
pub struct Counter {
    value: u64,
}

/// The count after one more event.
pub open spec fn bumped(n: u64) -> u64 {
    if n < u64::MAX {
        (n + 1) as u64
    } else {
        n
    }
}

impl Counter {
    /// The value a counter holds.
    pub closed spec fn spec_get(&self) -> u64 {
        self.value
    }

    /// A counter at zero.
    pub fn new() -> (r: Counter)
        ensures
            r.spec_get() == 0,
    {
        Counter { value: 0 }
    }

    /// Counts one event.
    pub fn inc(&mut self)
        ensures
            final(self).spec_get() == bumped(old(self).spec_get()),
    {
        self.value = self.value.saturating_add(1);
    }

    /// The number of events counted.
    pub fn get(&self) -> (r: u64)
        ensures
            r == self.spec_get(),
    {
        self.value
    }
}

/// Counters kept by one capture filter instance.
pub struct Metrics {
    /// Datagrams that the capture strategy rejected.
    pub packets_dropped_total: Counter,
}

impl Metrics {
    /// All counters at zero.
    pub fn new() -> (r: Metrics)
        ensures
            r.dropped() == 0,
    {
        Metrics { packets_dropped_total: Counter::new() }
    }

    /// The value of `packets_dropped_total`.
    pub open spec fn dropped(&self) -> u64 {
        self.packets_dropped_total.spec_get()
    }
}

} // verus!
