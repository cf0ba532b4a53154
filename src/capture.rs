use vstd::prelude::*;
use vstd::string::StringExecFns;

use crate::filter::{Filter, ReadContext, WriteContext};
use crate::metadata::{Value, ValueView, CAPTURED_BYTES};
use crate::metrics::{bumped, Metrics};

verus! {

#[verifier::external_type_specification]
#[verifier::external_body]
pub struct ExBytesRegex(regex::bytes::Regex);

#[verifier::external_type_specification]
#[verifier::external_body]
pub struct ExRegexError(regex::Error);

/// Whether `regex::bytes::Regex::new` accepts a pattern.
pub uninterp spec fn valid_pattern(pattern: Seq<char>) -> bool;

/// The byte offsets of the first match of `pattern` in `haystack`, as
/// `regex::bytes::Regex::find` reports them.
pub uninterp spec fn first_match_of(pattern: Seq<char>, haystack: Seq<u8>) -> Option<(usize, usize)>;

/// Relies on `regex::bytes::Regex::new`: whether a pattern compiles depends
/// on the pattern alone.
#[verifier::external_body]
fn compile_pattern(pattern: &str) -> (r: Result<regex::bytes::Regex, regex::Error>)
    ensures
        r is Ok == valid_pattern(pattern@),
{
    regex::bytes::Regex::new(pattern)
}

/// Relies on `regex::bytes::Regex::find` and `Match::start` / `Match::end`:
/// the offsets of the first match of the compiled pattern, with
/// `start <= end`, such that `&haystack[start..end]` is the matched text.
#[verifier::external_body]
fn first_match(re: &RegexCapture, haystack: &[u8]) -> (r: Option<(usize, usize)>)
    ensures
        r == first_match_of(re.source(), haystack@),
        r matches Some((s, e)) ==> s <= e <= haystack@.len(),
{
    re.pattern.find(haystack).map(|m| (m.start(), m.end()))
}

/// Why a capture filter could not be built.
#[derive(Clone, Copy, Debug, PartialEq, Eq, Structural)]
pub enum ConfigError {
    /// No configuration was supplied.
    MissingConfig,
    /// The regular expression did not compile.
    InvalidRegex,
}

/// The mathematical form of an optional captured value.
pub open spec fn opt_view(r: Option<Value>) -> Option<ValueView> {
    match r {
        Some(v) => Some(v@),
        None => None,
    }
}

/// A way of lifting a token out of a payload.
pub trait CaptureStrategy {
    /// Whether capturing from `before` may yield `result` and leave the
    /// payload as `after`.
    spec fn captures(&self, before: Seq<u8>, result: Option<ValueView>, after: Seq<u8>) -> bool;

    /// Captures a token from `contents`, counting a miss in `metrics`.
    fn capture(&self, contents: &mut Vec<u8>, metrics: &mut Metrics) -> (r: Option<Value>)
        ensures
            self.captures(old(contents)@, opt_view(r), final(contents)@),
            r is None ==> final(metrics).dropped() == bumped(old(metrics).dropped()),
            r is Some ==> final(metrics).dropped() == old(metrics).dropped(),
    ;
}

/// What a fixed-size capture at the front of `p` yields: the token and the
/// payload left behind, or `None` when `p` is shorter than `size`.
pub open spec fn prefix_outcome(size: u32, remove: bool, p: Seq<u8>) -> Option<(Seq<u8>, Seq<u8>)> {
    if p.len() < size {
        None
    } else {
        Some(
            (
                p.subrange(0, size as int),
                if remove {
                    p.subrange(size as int, p.len() as int)
                } else {
                    p
                },
            ),
        )
    }
}

/// What a fixed-size capture at the end of `p` yields: the token and the
/// payload left behind, or `None` when `p` is shorter than `size`.
pub open spec fn suffix_outcome(size: u32, remove: bool, p: Seq<u8>) -> Option<(Seq<u8>, Seq<u8>)> {
    if p.len() < size {
        None
    } else {
        Some(
            (
                p.subrange(p.len() - size, p.len() as int),
                if remove {
                    p.subrange(0, p.len() - size)
                } else {
                    p
                },
            ),
        )
    }
}

/// Whether `result` and `after` are what `outcome` describes for the payload `before`.
pub open spec fn follows_outcome(
    outcome: Option<(Seq<u8>, Seq<u8>)>,
    before: Seq<u8>,
    result: Option<ValueView>,
    after: Seq<u8>,
) -> bool {
    match outcome {
        None => result is None && after == before,
        Some((token, rest)) => result == Some(ValueView::Bytes(token)) && after == rest,
    }
}

/// Copies `v[start..end]`.
fn copy_range(v: &Vec<u8>, start: usize, end: usize) -> (r: Vec<u8>)
    requires
        start <= end <= v@.len(),
    ensures
        r@ == v@.subrange(start as int, end as int),
{
    let mut r: Vec<u8> = Vec::new();
    let mut i: usize = start;
    while i < end
        invariant
            start <= i <= end <= v@.len(),
            r@ == v@.subrange(start as int, i as int),
        decreases end - i,
    {
        r.push(v[i]);
        i = i + 1;
    }
    r
}

/// Captures the first `size` bytes, and removes them when `remove` is set.
#[derive(Clone, Copy, Debug, PartialEq, Eq)]
pub struct Prefix {
    pub size: u32,
    pub remove: bool,
}

impl CaptureStrategy for Prefix {
    open spec fn captures(&self, before: Seq<u8>, result: Option<ValueView>, after: Seq<u8>) -> bool {
        follows_outcome(prefix_outcome(self.size, self.remove, before), before, result, after)
    }

    fn capture(&self, contents: &mut Vec<u8>, metrics: &mut Metrics) -> (r: Option<Value>) {
        if (contents.len() as u64) < (self.size as u64) {
            metrics.packets_dropped_total.inc();
            return None;
        }
        let size = self.size as usize;
        if self.remove {
            let mut token = contents.split_off(size);
            std::mem::swap(contents, &mut token);
            Some(Value::Bytes(token))
        } else {
            Some(Value::Bytes(copy_range(contents, 0, size)))
        }
    }
}

/// Captures the last `size` bytes, and removes them when `remove` is set.
#[derive(Clone, Copy, Debug, PartialEq, Eq)]
pub struct Suffix {
    pub size: u32,
    pub remove: bool,
}

impl CaptureStrategy for Suffix {
    open spec fn captures(&self, before: Seq<u8>, result: Option<ValueView>, after: Seq<u8>) -> bool {
        follows_outcome(suffix_outcome(self.size, self.remove, before), before, result, after)
    }

    fn capture(&self, contents: &mut Vec<u8>, metrics: &mut Metrics) -> (r: Option<Value>) {
        if (contents.len() as u64) < (self.size as u64) {
            metrics.packets_dropped_total.inc();
            return None;
        }
        let at = contents.len() - self.size as usize;
        if self.remove {
            let token = contents.split_off(at);
            Some(Value::Bytes(token))
        } else {
            let len = contents.len();
            Some(Value::Bytes(copy_range(contents, at, len)))
        }
    }
}

/// Captures the first match of a byte-oriented regular expression. The
/// payload is never changed.
#[derive(Debug)]
pub struct RegexCapture {
    pattern: regex::bytes::Regex,
    source: String,
}

/// The value captured from `contents` given where the first match lies, if
/// anywhere.
pub open spec fn match_outcome(before: Seq<u8>, found: Option<(usize, usize)>) -> Option<ValueView> {
    match found {
        Some((s, e)) => Some(ValueView::Bytes(before.subrange(s as int, e as int))),
        None => None,
    }
}

impl RegexCapture {
    /// The text of the pattern.
    pub closed spec fn source(&self) -> Seq<char> {
        self.source@
    }

    /// Compiles `pattern`; an invalid pattern is a configuration error.
    pub fn new(pattern: &str) -> (r: Result<RegexCapture, ConfigError>)
        ensures
            r is Ok == valid_pattern(pattern@),
            r matches Ok(rc) ==> rc.source() == pattern@,
            r matches Err(e) ==> e == ConfigError::InvalidRegex,
    {
        match compile_pattern(pattern) {
            Ok(re) => Ok(RegexCapture { pattern: re, source: String::from_str(pattern) }),
            Err(_) => Err(ConfigError::InvalidRegex),
        }
    }

    /// The text of the pattern.
    pub fn as_str(&self) -> (r: &str)
        ensures
            r@ == self.source(),
    {
        self.source.as_str()
    }

    /// Builds the captured value from the bounds of the first match, counting
    /// a miss when there is none.
    pub fn capture_match(contents: &Vec<u8>, found: Option<(usize, usize)>, metrics: &mut Metrics) -> (r:
        Option<Value>)
        requires
            found matches Some((s, e)) ==> s <= e <= contents@.len(),
        ensures
            opt_view(r) == match_outcome(contents@, found),
            r is None ==> final(metrics).dropped() == bumped(old(metrics).dropped()),
            r is Some ==> final(metrics).dropped() == old(metrics).dropped(),
    {
        match found {
            Some((s, e)) => Some(Value::Bytes(copy_range(contents, s, e))),
            None => {
                metrics.packets_dropped_total.inc();
                None
            },
        }
    }
}

impl CaptureStrategy for RegexCapture {
    open spec fn captures(&self, before: Seq<u8>, result: Option<ValueView>, after: Seq<u8>) -> bool {
        &&& after == before
        &&& result == match_outcome(before, first_match_of(self.source(), before))
    }

    fn capture(&self, contents: &mut Vec<u8>, metrics: &mut Metrics) -> (r: Option<Value>) {
        let found = first_match(self, contents.as_slice());
        RegexCapture::capture_match(contents, found, metrics)
    }
}

/// The strategies a capture filter can be configured with.
#[derive(Debug)]
pub enum Strategy {
    Prefix(Prefix),
    Suffix(Suffix),
    Regex(RegexCapture),
}

impl CaptureStrategy for Strategy {
    open spec fn captures(&self, before: Seq<u8>, result: Option<ValueView>, after: Seq<u8>) -> bool {
        match self {
            Strategy::Prefix(p) => p.captures(before, result, after),
            Strategy::Suffix(s) => s.captures(before, result, after),
            Strategy::Regex(r) => r.captures(before, result, after),
        }
    }

    fn capture(&self, contents: &mut Vec<u8>, metrics: &mut Metrics) -> (r: Option<Value>) {
        match self {
            Strategy::Prefix(p) => p.capture(contents, metrics),
            Strategy::Suffix(s) => s.capture(contents, metrics),
            Strategy::Regex(r) => r.capture(contents, metrics),
        }
    }
}

/// Configuration of a capture filter.
#[derive(Debug)]
pub struct Config {
    /// The metadata key the captured value is stored under.
    pub metadata_key: String,
    /// How the value is captured.
    pub strategy: Strategy,
}

impl Config {
    /// A configuration with `strategy` under the default key [`CAPTURED_BYTES`].
    pub fn new(strategy: Strategy) -> (r: Config)
        ensures
            r.metadata_key@ == CAPTURED_BYTES@,
            r.strategy == strategy,
    {
        Config { metadata_key: String::from_str(CAPTURED_BYTES), strategy }
    }
}

/// Whether `after` is the metadata `before` once a capture that yielded
/// `res` has recorded it under `key` and `present_key`.
pub open spec fn final_metadata_matches(
    before: Map<Seq<char>, ValueView>,
    present_key: Seq<char>,
    key: Seq<char>,
    res: Option<ValueView>,
    after: Map<Seq<char>, ValueView>,
) -> bool {
    after == match res {
        Some(v) => before.insert(present_key, ValueView::Bool(true)).insert(key, v),
        None => before.insert(present_key, ValueView::Bool(false)),
    }
}

/// Whether, with the strategy of `f` having yielded `res` and left the
/// payload as `after`, `r` is what `f` hands on for `ctx`.
pub open spec fn read_outcome(
    f: Capture,
    ctx: ReadContext,
    res: Option<ValueView>,
    after: Seq<u8>,
    r: Option<ReadContext>,
) -> bool {
    &&& f.strategy().captures(ctx.contents@, res, after)
    &&& match r {
        Some(out) => {
            &&& res matches Some(v)
            &&& out.contents@ == after
            &&& out.metadata@ == ctx.metadata@.insert(
                f.present_key(),
                ValueView::Bool(true),
            ).insert(f.key(), v)
            &&& out.endpoints == ctx.endpoints
            &&& out.source == ctx.source
        },
        None => res is None,
    }
}

/// Whether `r` is what the capture filter `f` may hand on for the inbound
/// datagram `ctx`: the payload as the strategy leaves it, with the captured
/// value and the presence flag in its metadata, or nothing when the strategy
/// captured nothing.
pub open spec fn read_step(f: Capture, ctx: ReadContext, r: Option<ReadContext>) -> bool {
    exists|res: Option<ValueView>, after: Seq<u8>| read_outcome(f, ctx, res, after, r)
}

/// Whether running `f` on `before`, with its strategy yielding `res`, may
/// leave the context as `after` and report `r`.
pub open spec fn applied(f: Capture, before: ReadContext, res: Option<ValueView>, after: ReadContext, r: bool) -> bool {
    &&& f.strategy().captures(before.contents@, res, after.contents@)
    &&& r == (res is Some)
    &&& final_metadata_matches(before.metadata@, f.present_key(), f.key(), res, after.metadata@)
}

/// The two metadata keys of a capture filter.
struct CaptureKeys {
    metadata_key: String,
    is_present_key: String,
}

impl CaptureKeys {
    /// The presence key is the value key with `/is_present` appended.
    #[verifier::type_invariant]
    closed spec fn inv(&self) -> bool {
        self.is_present_key@ == self.metadata_key@ + "/is_present"@
    }
}

/// A filter that captures a token from each inbound payload and records it
/// in the datagram's metadata, dropping datagrams it cannot capture from.
pub struct Capture {
    capture: Strategy,
    metrics: Metrics,
    keys: CaptureKeys,
}

impl Capture {
    /// The strategy the filter captures with.
    pub closed spec fn strategy(&self) -> Strategy {
        self.capture
    }

    /// The counters of the filter.
    pub closed spec fn counters(&self) -> Metrics {
        self.metrics
    }

    /// The counters of the filter.
    pub fn metrics(&self) -> (r: &Metrics)
        ensures
            *r == self.counters(),
    {
        &self.metrics
    }

    /// The key the captured value is stored under.
    pub closed spec fn key(&self) -> Seq<char> {
        self.keys.metadata_key@
    }

    /// The key that records whether a value was captured: the value key
    /// with `/is_present` appended.
    pub open spec fn present_key(&self) -> Seq<char> {
        self.key() + "/is_present"@
    }

    /// The key the captured value is stored under.
    pub fn metadata_key(&self) -> (r: &String)
        ensures
            r@ == self.key(),
    {
        &self.keys.metadata_key
    }

    /// The key that records whether a value was captured.
    pub fn is_present_key(&self) -> (r: &String)
        ensures
            r@ == self.present_key(),
    {
        proof {
            use_type_invariant(&self.keys);
        }
        &self.keys.is_present_key
    }

    /// A filter for `config` that counts into `metrics`.
    pub fn new(config: Config, metrics: Metrics) -> (r: Capture)
        ensures
            r.strategy() == config.strategy,
            r.key() == config.metadata_key@,
            r.present_key() == config.metadata_key@ + "/is_present"@,
            r.counters() == metrics,
    {
        let is_present_key = config.metadata_key.clone().concat("/is_present");
        Capture {
            capture: config.strategy,
            metrics,
            keys: CaptureKeys { is_present_key, metadata_key: config.metadata_key },
        }
    }

    /// A filter for `config` with fresh counters; fails when there is no configuration.
    pub fn try_from_config(config: Option<Config>) -> (r: Result<Capture, ConfigError>)
        ensures
            config is None <==> r is Err,
            r matches Err(e) ==> e == ConfigError::MissingConfig,
            r matches Ok(c) ==> {
                &&& config matches Some(cfg)
                &&& c.strategy() == cfg.strategy
                &&& c.key() == cfg.metadata_key@
                &&& c.present_key() == cfg.metadata_key@ + "/is_present"@
                &&& c.counters().dropped() == 0
            },
    {
        match config {
            Some(config) => Ok(Capture::new(config, Metrics::new())),
            None => Err(ConfigError::MissingConfig),
        }
    }

    /// A filter for a configuration that is known to be present.
    pub fn from_config(config: Option<Config>) -> (r: Capture)
        requires
            config is Some,
        ensures
            r.strategy() == config->Some_0.strategy,
            r.key() == config->Some_0.metadata_key@,
            r.present_key() == config->Some_0.metadata_key@ + "/is_present"@,
            r.counters().dropped() == 0,
    {
        Capture::new(config.unwrap(), Metrics::new())
    }

    /// Runs the strategy on `ctx`'s payload, records in `ctx`'s metadata
    /// whether it captured and what, and returns whether it captured.
    pub fn apply(&mut self, ctx: &mut ReadContext) -> (r: bool)
        ensures
            final(self).strategy() == old(self).strategy(),
            final(self).key() == old(self).key(),
            final(self).present_key() == old(self).present_key(),
            final(ctx).endpoints == old(ctx).endpoints,
            final(ctx).source == old(ctx).source,
            exists|res: Option<ValueView>| applied(*old(self), *old(ctx), res, *final(ctx), r),
            !r ==> final(self).counters().dropped() == bumped(old(self).counters().dropped()),
            r ==> final(self).counters().dropped() == old(self).counters().dropped(),
    {
        let captured = self.capture.capture(&mut ctx.contents, &mut self.metrics);
        let ghost res = opt_view(captured);
        let found = captured.is_some();
        ctx.metadata.insert(self.is_present_key().clone(), Value::Bool(found));
        if let Some(v) = captured {
            ctx.metadata.insert(self.keys.metadata_key.clone(), v);
        }
        assert(applied(*old(self), *old(ctx), res, *ctx, found));
        found
    }
}

impl Filter for Capture {
    fn read(&mut self, ctx: ReadContext) -> (r: Option<ReadContext>)
        ensures
            final(self).strategy() == old(self).strategy(),
            final(self).key() == old(self).key(),
            final(self).present_key() == old(self).present_key(),
            read_step(*old(self), ctx, r),
            r is None ==> final(self).counters().dropped() == bumped(old(self).counters().dropped()),
            r is Some ==> final(self).counters().dropped() == old(self).counters().dropped(),
    {
        let ghost before = ctx;
        let ghost f = *self;
        let mut ctx = ctx;
        let found = self.apply(&mut ctx);
        proof {
            let res = choose|res: Option<ValueView>| applied(f, before, res, ctx, found);
            assert(read_outcome(f, before, res, ctx.contents@, if found { Some(ctx) } else { None }));
        }
        if found {
            Some(ctx)
        } else {
            None
        }
    }

    fn write(&mut self, ctx: WriteContext) -> (r: Option<WriteContext>)
        ensures
            r == Some(ctx),
            *final(self) == *old(self),
    {
        Some(ctx)
    }
}

} // verus!
