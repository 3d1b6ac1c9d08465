//! Batch extraction of embedded media metadata: the decisions of the pipeline
//! (which candidates to probe, which to decode, how each outcome is counted and
//! reported) as verified functions over plain values. The store, the decoder and
//! the concurrent fan-out are driven by the caller.

pub mod errors;
pub mod extensions;
pub mod guarantees;
pub mod kind;
pub mod lemmas;
pub mod pipeline;
