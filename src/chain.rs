use vstd::prelude::*;

use crate::capture::{read_step, Capture};
use crate::filter::{Filter, ReadContext, WriteContext};

verus! {

/// Whether `steps` records a pass of `ctx` through the filters `fs`, in
/// order: `steps[i]` is what reaches filter `i`, each filter hands on to the
/// next what it may hand on for that, and a dropped datagram stays dropped.
pub open spec fn valid_pass(fs: Seq<Capture>, ctx: ReadContext, steps: Seq<Option<ReadContext>>) -> bool {
    &&& steps.len() == fs.len() + 1
    &&& steps[0] == Some(ctx)
    &&& forall|i: int|
        0 <= i < fs.len() ==> match #[trigger] steps[i] {
            Some(m) => read_step(fs[i], m, steps[i + 1]),
            None => steps[i + 1] is None,
        }
}

/// Whether `r` is what the filters `fs`, applied in order to `ctx`, may hand
/// on: each filter gets what the one before it handed on, and the first
/// filter to drop the datagram ends the pass.
pub open spec fn chain_reads(fs: Seq<Capture>, ctx: ReadContext, r: Option<ReadContext>) -> bool {
    exists|steps: Seq<Option<ReadContext>>| valid_pass(fs, ctx, steps) && r == steps.last()
}

/// An ordered sequence of capture filters that every datagram passes.
pub struct FilterChain {
    filters: Vec<Capture>,
}

impl FilterChain {
    /// The filters, in order.
    pub closed spec fn filters(&self) -> Seq<Capture> {
        self.filters@
    }

    /// A chain of `filters`, applied in the order given.
    pub fn new(filters: Vec<Capture>) -> (r: FilterChain)
        ensures
            r.filters() == filters@,
    {
        FilterChain { filters }
    }

    /// The number of filters.
    pub fn len(&self) -> (r: usize)
        ensures
            r == self.filters().len(),
    {
        self.filters.len()
    }

    /// The filter at `i`.
    pub fn filter(&self, i: usize) -> (r: &Capture)
        requires
            i < self.filters().len(),
        ensures
            *r == self.filters()[i as int],
    {
        &self.filters[i]
    }

    /// Passes an inbound datagram through each filter in order; `None` as
    /// soon as one drops it.
    pub fn read(&mut self, ctx: ReadContext) -> (r: Option<ReadContext>)
        ensures
            chain_reads(old(self).filters(), ctx, r),
            final(self).filters().len() == old(self).filters().len(),
            forall|i: int|
                0 <= i < old(self).filters().len() ==> {
                    &&& #[trigger] final(self).filters()[i].strategy() == old(self).filters()[i].strategy()
                    &&& final(self).filters()[i].key() == old(self).filters()[i].key()
                    &&& final(self).filters()[i].present_key() == old(self).filters()[i].present_key()
                },
    {
        let ghost fs = self.filters@;
        let mut pending: Vec<Capture> = Vec::new();
        core::mem::swap(&mut pending, &mut self.filters);
        let mut cur: Option<ReadContext> = Some(ctx);
        let ghost steps: Seq<Option<ReadContext>> = seq![Some(ctx)];
        while pending.len() > 0
            invariant
                self.filters@.len() + pending@.len() == fs.len(),
                pending@ == fs.subrange(self.filters@.len() as int, fs.len() as int),
                forall|i: int|
                    0 <= i < self.filters@.len() ==> {
                        &&& #[trigger] self.filters@[i].strategy() == fs[i].strategy()
                        &&& self.filters@[i].key() == fs[i].key()
                        &&& self.filters@[i].present_key() == fs[i].present_key()
                    },
                valid_pass(fs.subrange(0, self.filters@.len() as int), ctx, steps),
                cur == steps.last(),
            decreases pending@.len(),
        {
            let ghost k = self.filters@.len() as int;
            let ghost prev = steps;
            let mut f = pending.remove(0);
            assert(f == fs[k]);
            cur = match cur {
                Some(c) => f.read(c),
                None => None,
            };
            proof {
                steps = steps.push(cur);
                assert forall|i: int| 0 <= i < k + 1 implies match #[trigger] steps[i] {
                    Some(m) => read_step(fs.subrange(0, k + 1)[i], m, steps[i + 1]),
                    None => steps[i + 1] is None,
                } by {
                    if i < k {
                        assert(steps[i] == prev[i] && steps[i + 1] == prev[i + 1]);
                        assert(fs.subrange(0, k)[i] == fs.subrange(0, k + 1)[i]);
                    }
                }
            }
            self.filters.push(f);
            proof {
                assert(pending@ =~= fs.subrange(self.filters@.len() as int, fs.len() as int));
            }
        }
        proof {
            assert(fs.subrange(0, fs.len() as int) =~= fs);
        }
        cur
    }

    /// Passes a datagram on its way back to a client through each filter in
    /// reverse order; `None` as soon as one drops it. Capture filters hand
    /// every such datagram on unchanged.
    pub fn write(&mut self, ctx: WriteContext) -> (r: Option<WriteContext>)
        ensures
            r == Some(ctx),
            final(self).filters() == old(self).filters(),
    {
        let ghost fs = self.filters@;
        let mut pending: Vec<Capture> = Vec::new();
        core::mem::swap(&mut pending, &mut self.filters);
        let mut done: Vec<Capture> = Vec::new();
        let mut cur: Option<WriteContext> = Some(ctx);
        while pending.len() > 0
            invariant
                pending@ == fs.subrange(0, pending@.len() as int),
                done@.len() + pending@.len() == fs.len(),
                forall|j: int| 0 <= j < done@.len() ==> done@[j] == fs[fs.len() - 1 - j],
                cur == Some(ctx),
            decreases pending@.len(),
        {
            let mut f = pending.pop().unwrap();
            cur = match cur {
                Some(c) => f.write(c),
                None => None,
            };
            done.push(f);
            proof {
                assert(pending@ =~= fs.subrange(0, pending@.len() as int));
            }
        }
        while done.len() > 0
            invariant
                self.filters@ == fs.subrange(0, self.filters@.len() as int),
                done@.len() + self.filters@.len() == fs.len(),
                forall|j: int| 0 <= j < done@.len() ==> done@[j] == fs[fs.len() - 1 - j],
            decreases done@.len(),
        {
            let f = done.pop().unwrap();
            self.filters.push(f);
            proof {
                assert(self.filters@ =~= fs.subrange(0, self.filters@.len() as int));
            }
        }
        proof {
            assert(self.filters@ =~= fs);
        }
        cur
    }
}

} // verus!
