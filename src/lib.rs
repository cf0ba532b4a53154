//! Packet-plane core of a UDP proxy: the capture filter family that lifts
//! routing tokens out of datagram payloads into per-packet metadata, the
//! filter contexts it works on, and the session bookkeeping of the server.

mod capture;
mod chain;
mod filter;
pub mod laws;
mod metadata;
mod metrics;
mod session;

pub use capture::{
    follows_outcome, match_outcome, opt_view, prefix_outcome, suffix_outcome, CaptureStrategy,
    Capture, Config, ConfigError, applied, final_metadata_matches, first_match_of, read_outcome, read_step,
    valid_pattern, Prefix, RegexCapture, Strategy, Suffix,
};
pub use chain::{chain_reads, valid_pass, FilterChain};
pub use filter::{Address, Endpoint, Filter, ReadContext, WriteContext};
pub use metadata::{Metadata, Value, ValueView, CAPTURED_BYTES};
pub use metrics::{bumped, Counter, Metrics};
pub use session::{forward_pairs, unique_pairs, AddrPair, Packet, SessionRegistry};
