//! Samplers: the rules that decide whether a span is recorded and exported.
//!
//! A decision depends on nothing but the sampler and the parameters it is
//! given, so that every process that sees a trace identifier decides alike.

use crate::basetypes::{SpanID, TraceID};
use crate::trace::SpanContext;
use byteorder::{BigEndian, ByteOrder};
use vstd::prelude::*;

verus! {

/// The bound of the default sampler: one trace in ten thousand.
pub const DEFAULT_TRACE_ID_UPPER_BOUND: u64 = 922_337_203_685_477;

/// The bound from which on every trace is sampled: 2 to the power of 63.
pub const FULL_TRACE_ID_UPPER_BOUND: u64 = 0x8000_0000_0000_0000;

/// What a sampler is given to decide on.
pub struct SamplingParameters<'a> {
    /// The context of the parent span, if there is one.
    pub parent_context: Option<&'a SpanContext>,
    /// The trace that the span belongs to.
    pub trace_id: &'a TraceID,
    /// The span itself.
    pub span_id: &'a SpanID,
    /// The name of the span.
    pub name: &'a str,
    /// Whether the parent span lives in another process.
    pub has_remote_parent: bool,
}

/// What a sampler decides.
pub struct SamplingDecision {
    /// Whether the span is sampled.
    pub sample: bool,
}

/// The number that `b` stands for, most significant byte first.
pub open spec fn big_endian(b: Seq<u8>) -> nat
    decreases b.len(),
{
    if b.len() == 0 {
        0
    } else {
        big_endian(b.drop_last()) * 256 + b.last() as nat
    }
}

/// The number by which a trace is sampled: the first 8 bytes of its
/// identifier, most significant byte first, halved.
pub open spec fn sampling_rank(trace_id: Seq<u8>) -> nat {
    big_endian(trace_id.subrange(0, 8)) / 2
}

/// Whether there is a parent and it is sampled.
pub open spec fn parent_is_sampled(parent: Option<&SpanContext>) -> bool {
    match parent {
        Some(p) => p.sampled(),
        None => false,
    }
}

/// A rule that decides whether a span is sampled.
#[derive(Clone, Copy, Eq, PartialEq, Structural, Hash, Debug)]
pub enum Sampler {
    /// Samples every span.
    Always,
    /// Samples no span.
    Never,
    /// Samples the spans of a sampled parent, and those of the traces whose
    /// rank is below the bound.
    Probability { trace_id_upper_bound: u64 },
}

impl Sampler {
    /// Whether the sampler samples a span of the trace `trace_id` whose
    /// parent is sampled or not as `parent_sampled` says.
    pub open spec fn decides(self, parent_sampled: bool, trace_id: Seq<u8>) -> bool {
        match self {
            Sampler::Always => true,
            Sampler::Never => false,
            Sampler::Probability { trace_id_upper_bound } => parent_sampled || sampling_rank(
                trace_id,
            ) < trace_id_upper_bound,
        }
    }

    /// Decides whether the span that `params` describes is sampled.
    pub fn sample(&self, params: SamplingParameters<'_>) -> (decision: SamplingDecision)
        ensures
            decision.sample == self.decides(
                parent_is_sampled(params.parent_context),
                params.trace_id.0@,
            ),
            self is Probability && parent_is_sampled(params.parent_context) ==> decision.sample,
    {
        match self {
            Sampler::Always => SamplingDecision { sample: true },
            Sampler::Never => SamplingDecision { sample: false },
            Sampler::Probability { trace_id_upper_bound } => {
                if let Some(parent_context) = params.parent_context {
                    if parent_context.is_sampled() {
                        return SamplingDecision { sample: true };
                    }
                }
                let v = read_u64_big_endian(params.trace_id.0.as_slice());
                let x = v >> 1;
                assert(v >> 1 == v / 2) by (bit_vector);
                SamplingDecision { sample: x < *trace_id_upper_bound }
            },
        }
    }
}

/// `byteorder::BigEndian::read_u64`: the first 8 bytes of `buf` as one
/// number, most significant byte first. It panics on a shorter `buf`.
#[verifier::external_body]
fn read_u64_big_endian(buf: &[u8]) -> (v: u64)
    requires
        buf@.len() >= 8,
    ensures
        v == big_endian(buf@.subrange(0, 8)),
{
    BigEndian::read_u64(buf)
}

/// The sampler for the bound `trace_id_upper_bound`. A rank is below 2 to
/// the power of 63, so from that bound on it is the sampler that samples
/// everything.
pub open spec fn probability(trace_id_upper_bound: u64) -> Sampler {
    if trace_id_upper_bound >= FULL_TRACE_ID_UPPER_BOUND {
        Sampler::Always
    } else {
        Sampler::Probability { trace_id_upper_bound }
    }
}

/// The sampler that samples the traces whose rank is below
/// `trace_id_upper_bound`, and every span whose parent is sampled.
pub fn probability_sampler(trace_id_upper_bound: u64) -> (s: Sampler)
    ensures
        s == probability(trace_id_upper_bound),
{
    if trace_id_upper_bound >= FULL_TRACE_ID_UPPER_BOUND {
        always_sample()
    } else {
        Sampler::Probability { trace_id_upper_bound }
    }
}

/// Whatever the bound, the sampler made for it samples a span exactly when
/// its parent is sampled or the rank of its trace is below the bound.
pub proof fn lemma_probability_decides(
    trace_id_upper_bound: u64,
    parent_sampled: bool,
    trace_id: Seq<u8>,
)
    requires
        trace_id.len() >= 8,
    ensures
        probability(trace_id_upper_bound).decides(parent_sampled, trace_id) == (parent_sampled
            || sampling_rank(trace_id) < trace_id_upper_bound),
{
    lemma_rank_bound(trace_id);
}

/// The sampler that spans get where none is chosen: one trace in ten thousand.
pub fn default_sampler() -> (s: Sampler)
    ensures
        s == (Sampler::Probability { trace_id_upper_bound: DEFAULT_TRACE_ID_UPPER_BOUND }),
{
    probability_sampler(DEFAULT_TRACE_ID_UPPER_BOUND)
}

/// The sampler that samples every span.
pub fn always_sample() -> (s: Sampler)
    ensures
        s == Sampler::Always,
{
    Sampler::Always
}

/// The sampler that samples no span.
pub fn never_sample() -> (s: Sampler)
    ensures
        s == Sampler::Never,
{
    Sampler::Never
}

/// The rank of a trace is below 2 to the power of 63.
pub proof fn lemma_rank_bound(trace_id: Seq<u8>)
    requires
        trace_id.len() >= 8,
    ensures
        sampling_rank(trace_id) < FULL_TRACE_ID_UPPER_BOUND,
{
    let b = trace_id.subrange(0, 8);
    assert(big_endian(b) < 0x1_0000_0000_0000_0000) by {
        reveal_with_fuel(big_endian, 9);
    }
}

/// A sampler decides on the trace identifier and on whether the parent is
/// sampled, and on nothing else: two spans that agree in these get the same
/// decision, whatever their names and span identifiers, and as often as the
/// sampler is asked.
pub proof fn lemma_decision_is_deterministic(
    s: Sampler,
    a: SamplingParameters<'_>,
    b: SamplingParameters<'_>,
)
    requires
        a.trace_id.0@ == b.trace_id.0@,
        parent_is_sampled(a.parent_context) == parent_is_sampled(b.parent_context),
    ensures
        s.decides(parent_is_sampled(a.parent_context), a.trace_id.0@) == s.decides(
            parent_is_sampled(b.parent_context),
            b.trace_id.0@,
        ),
{
}

/// A probability sampler samples every span whose parent is sampled,
/// whatever its bound and whatever the trace.
pub proof fn lemma_sampled_parent_is_followed(trace_id_upper_bound: u64, trace_id: Seq<u8>)
    ensures
        (Sampler::Probability { trace_id_upper_bound }).decides(true, trace_id),
{
}

} // verus!
