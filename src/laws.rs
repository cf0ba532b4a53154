//! Properties that hold of every payload and every capture configuration.

use vstd::prelude::*;

use crate::capture::{final_metadata_matches, read_outcome, first_match_of, match_outcome, read_step, Capture, CaptureStrategy, Prefix, RegexCapture, Strategy, Suffix};
use crate::filter::ReadContext;
use crate::metadata::ValueView;
use crate::metrics::bumped;
use crate::session::{unique_pairs, SessionRegistry};

verus! {

/// After a capture, the presence flag holds `true` exactly when the strategy
/// captured a value; the captured value sits under the value key, and a miss
/// adds nothing but the flag.
pub proof fn presence_flag_tracks_capture(
    before: Map<Seq<char>, ValueView>,
    key: Seq<char>,
    res: Option<ValueView>,
    after: Map<Seq<char>, ValueView>,
)
    requires
        final_metadata_matches(before, key + "/is_present"@, key, res, after),
    ensures
        after.contains_key(key + "/is_present"@),
        after[key + "/is_present"@] == ValueView::Bool(res is Some),
        res matches Some(v) ==> after.contains_key(key) && after[key] == v,
        res is None ==> after.remove(key + "/is_present"@) == before.remove(key + "/is_present"@),
{
    reveal_strlit("/is_present");
    let present_key = key + "/is_present"@;
    assert(present_key.len() > key.len());
    if res is None {
        assert(after.remove(present_key) =~= before.remove(present_key));
    }
}

/// A suffix capture that keeps its bytes leaves a long enough payload as it
/// was and captures its last `size` bytes.
pub proof fn suffix_keep(s: Suffix, p: Seq<u8>, res: Option<ValueView>, after: Seq<u8>)
    requires
        !s.remove,
        p.len() >= s.size,
        s.captures(p, res, after),
    ensures
        after == p,
        res == Some(ValueView::Bytes(p.subrange(p.len() - s.size, p.len() as int))),
{
}

/// A suffix capture that removes its bytes leaves all but the last `size`
/// bytes of a long enough payload and captures those last bytes.
pub proof fn suffix_remove(s: Suffix, p: Seq<u8>, res: Option<ValueView>, after: Seq<u8>)
    requires
        s.remove,
        p.len() >= s.size,
        s.captures(p, res, after),
    ensures
        after == p.subrange(0, p.len() - s.size),
        res == Some(ValueView::Bytes(p.subrange(p.len() - s.size, p.len() as int))),
        after + p.subrange(p.len() - s.size, p.len() as int) == p,
{
    assert(p.subrange(0, p.len() - s.size) + p.subrange(p.len() - s.size, p.len() as int) =~= p);
}

/// A prefix capture that keeps its bytes leaves a long enough payload as it
/// was and captures its first `size` bytes.
pub proof fn prefix_keep(s: Prefix, p: Seq<u8>, res: Option<ValueView>, after: Seq<u8>)
    requires
        !s.remove,
        p.len() >= s.size,
        s.captures(p, res, after),
    ensures
        after == p,
        res == Some(ValueView::Bytes(p.subrange(0, s.size as int))),
{
}

/// A prefix capture that removes its bytes leaves all but the first `size`
/// bytes of a long enough payload and captures those first bytes.
pub proof fn prefix_remove(s: Prefix, p: Seq<u8>, res: Option<ValueView>, after: Seq<u8>)
    requires
        s.remove,
        p.len() >= s.size,
        s.captures(p, res, after),
    ensures
        after == p.subrange(s.size as int, p.len() as int),
        res == Some(ValueView::Bytes(p.subrange(0, s.size as int))),
        p.subrange(0, s.size as int) + after == p,
{
    assert(p.subrange(0, s.size as int) + p.subrange(s.size as int, p.len() as int) =~= p);
}

/// A fixed-size strategy captures nothing from a payload shorter than its
/// size and leaves the payload as it was; the miss raises a drop count below
/// its ceiling by exactly one.
pub proof fn short_payload_dropped(
    strategy: Strategy,
    p: Seq<u8>,
    res: Option<ValueView>,
    after: Seq<u8>,
    dropped: u64,
)
    requires
        match strategy {
            Strategy::Prefix(s) => p.len() < s.size,
            Strategy::Suffix(s) => p.len() < s.size,
            Strategy::Regex(_) => false,
        },
        strategy.captures(p, res, after),
        dropped < u64::MAX,
    ensures
        res is None,
        after == p,
        bumped(dropped) == dropped + 1,
{
}

/// A capture filter with a fixed-size strategy drops every datagram whose
/// payload is shorter than that size.
pub proof fn short_payload_dropped_by_filter(f: Capture, ctx: ReadContext, r: Option<ReadContext>)
    requires
        match f.strategy() {
            Strategy::Prefix(s) => ctx.contents@.len() < s.size,
            Strategy::Suffix(s) => ctx.contents@.len() < s.size,
            Strategy::Regex(_) => false,
        },
        read_step(f, ctx, r),
    ensures
        r is None,
{
    let (res, after) = choose|res: Option<ValueView>, after: Seq<u8>| read_outcome(f, ctx, res, after, r);
    short_payload_dropped(f.strategy(), ctx.contents@, res, after, 0);
}

/// A regular-expression capture never changes the payload, captures
/// exactly the first match, and captures nothing only when nothing matches.
pub proof fn regex_keeps_payload(r: RegexCapture, p: Seq<u8>, res: Option<ValueView>, after: Seq<u8>)
    requires
        r.captures(p, res, after),
    ensures
        after == p,
        res == match_outcome(p, first_match_of(r.source(), p)),
        res is None <==> first_match_of(r.source(), p) is None,
{
}

/// A pair that has a session has exactly one: two entries of the registry
/// with the same pair are the same entry, so a lookup of the pair always
/// finds the session stored first.
pub proof fn one_session_per_pair<S>(reg: SessionRegistry<S>, i: int, j: int)
    requires
        unique_pairs(reg.keys()),
        0 <= i < reg.entries().len(),
        0 <= j < reg.entries().len(),
        reg.entries()[i].0 == reg.entries()[j].0,
    ensures
        i == j,
{
    assert(reg.keys()[i] == reg.entries()[i].0);
    assert(reg.keys()[j] == reg.entries()[j].0);
}

} // verus!
