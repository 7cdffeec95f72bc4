//! The binary form in which a span context crosses a process boundary.
//!
//! ```text
//! byte 0        the version, 0
//! byte 1        the tag of the trace identifier, 0
//! bytes 2..18   the trace identifier
//! byte 18       the tag of the span identifier, 1
//! bytes 19..27  the span identifier
//! byte 27       the tag of the trace options, 2
//! byte 28       the low byte of the trace options
//! ```
//!
//! The trace state is not part of this form.

use crate::basetypes::{SpanID, TraceID};
use crate::trace::{SpanContext, SpanContextView, TraceOptions};
use vstd::prelude::*;

verus! {

/// The number of bytes of an encoded span context.
pub const BINARY_LEN: usize = 29;

/// The 29 bytes that stand for `sc`.
pub open spec fn encoding(sc: SpanContextView) -> Seq<u8> {
    seq![0u8, 0u8] + sc.trace_id + seq![1u8] + sc.span_id + seq![
        2u8,
        (sc.trace_options.0 & 0xff) as u8,
    ]
}

/// `b` starts with the version, and holds the three tags, each where the
/// field before it ends, and a byte of options.
pub open spec fn is_encoding(b: Seq<u8>) -> bool {
    &&& b.len() >= BINARY_LEN
    &&& b[0] == 0
    &&& b[1] == 0
    &&& b[18] == 1
    &&& b[27] == 2
}

/// What `b` decodes to: nothing unless `b` is well formed; else the context
/// with the two identifiers and the byte of options that `b` holds, and no
/// trace state.
pub open spec fn decoding(b: Seq<u8>) -> Option<SpanContextView> {
    if is_encoding(b) {
        Some(
            SpanContextView {
                trace_id: b.subrange(2, 18),
                span_id: b.subrange(19, 27),
                trace_options: TraceOptions(b[28] as u32),
                trace_state: None,
            },
        )
    } else {
        None
    }
}

/// Decoding an encoded context gives the context back, without its trace
/// state and with the low byte of its options: the two identifiers always,
/// and the options too where they fit in one byte.
pub proof fn lemma_round_trip(sc: SpanContextView)
    requires
        sc.trace_id.len() == 16,
        sc.span_id.len() == 8,
    ensures
        encoding(sc).len() == BINARY_LEN,
        decoding(encoding(sc)) == Some(
            SpanContextView {
                trace_id: sc.trace_id,
                span_id: sc.span_id,
                trace_options: TraceOptions(sc.trace_options.0 & 0xff),
                trace_state: None,
            },
        ),
        sc.trace_options.0 <= 0xff ==> decoding(encoding(sc))->0.trace_options
            == sc.trace_options,
{
    let b = encoding(sc);
    let x = sc.trace_options.0;
    assert(x & 0xff <= 0xff) by (bit_vector);
    assert(x <= 0xff ==> x & 0xff == x) by (bit_vector);
    assert(b.subrange(2, 18) =~= sc.trace_id);
    assert(b.subrange(19, 27) =~= sc.span_id);
    assert(b[28] == (x & 0xff) as u8);
}

/// Nothing is decoded from an input that is empty or too short, that has
/// another version than 0, or in which a tag is not the expected one.
pub proof fn lemma_malformed_is_rejected(b: Seq<u8>)
    ensures
        b.len() == 0 ==> decoding(b) is None,
        b.len() < BINARY_LEN ==> decoding(b) is None,
        b.len() > 0 && b[0] != 0 ==> decoding(b) is None,
        b.len() > 1 && b[1] != 0 ==> decoding(b) is None,
        b.len() > 18 && b[18] != 1 ==> decoding(b) is None,
        b.len() > 27 && b[27] != 2 ==> decoding(b) is None,
        decoding(b) is None ==> b.len() < BINARY_LEN || b[0] != 0 || b[1] != 0 || b[18] != 1
            || b[27] != 2,
{
}

/// The binary form of `sc`.
pub fn to_binary(sc: &SpanContext) -> (buf: Vec<u8>)
    ensures
        buf@ == encoding(sc@),
{
    let mut buf: Vec<u8> = Vec::new();
    buf.push(0);
    buf.push(0);
    let mut i: usize = 0;
    while i < 16
        invariant
            i <= 16,
            buf@ == seq![0u8, 0u8] + sc.trace_id.0@.subrange(0, i as int),
        decreases 16 - i,
    {
        buf.push(sc.trace_id.0[i]);
        i += 1;
    }
    assert(sc.trace_id.0@.subrange(0, 16) =~= sc.trace_id.0@);
    buf.push(1);
    let ghost head = buf@;
    let mut j: usize = 0;
    while j < 8
        invariant
            j <= 8,
            head == seq![0u8, 0u8] + sc.trace_id.0@ + seq![1u8],
            buf@ == head + sc.span_id.0@.subrange(0, j as int),
        decreases 8 - j,
    {
        buf.push(sc.span_id.0[j]);
        j += 1;
    }
    assert(sc.span_id.0@.subrange(0, 8) =~= sc.span_id.0@);
    buf.push(2);
    let x = sc.trace_options.0;
    assert(x & 0xff <= 0xff) by (bit_vector);
    buf.push((x & 0xff) as u8);
    assert(buf@ =~= encoding(sc@));
    buf
}

/// Copies the 16 bytes of `buf` that start at `from`.
fn read_trace_id(buf: &[u8], from: usize) -> (id: TraceID)
    requires
        from + 16 <= buf@.len(),
    ensures
        id.0@ == buf@.subrange(from as int, from + 16),
{
    let n = buf.len();
    let mut a: [u8; 16] = [0u8; 16];
    let mut i: usize = 0;
    while i < 16
        invariant
            i <= 16,
            from + 16 <= n == buf@.len(),
            forall|k: int| 0 <= k < i ==> a@[k] == buf@[from + k],
        decreases 16 - i,
    {
        a[i] = buf[from + i];
        i += 1;
    }
    assert(a@ =~= buf@.subrange(from as int, from + 16));
    TraceID(a)
}

/// Copies the 8 bytes of `buf` that start at `from`.
fn read_span_id(buf: &[u8], from: usize) -> (id: SpanID)
    requires
        from + 8 <= buf@.len(),
    ensures
        id.0@ == buf@.subrange(from as int, from + 8),
{
    let n = buf.len();
    let mut a: [u8; 8] = [0u8; 8];
    let mut i: usize = 0;
    while i < 8
        invariant
            i <= 8,
            from + 8 <= n == buf@.len(),
            forall|k: int| 0 <= k < i ==> a@[k] == buf@[from + k],
        decreases 8 - i,
    {
        a[i] = buf[from + i];
        i += 1;
    }
    assert(a@ =~= buf@.subrange(from as int, from + 8));
    SpanID(a)
}

/// The span context that `buf` stands for. The fields are read in order:
/// the version, then the trace identifier, the span identifier and the
/// options, each behind its tag. Where one of them is missing, cut short or
/// wrongly tagged, nothing is returned. Bytes after the options are ignored.
pub fn from_binary(buf: &[u8]) -> (r: Option<SpanContext>)
    ensures
        match r {
            Some(sc) => decoding(buf@) == Some(sc@),
            None => decoding(buf@) is None,
        },
{
    if buf.len() == 0 || buf[0] != 0 {
        return None;
    }
    let trace_id;
    if buf.len() >= 18 && buf[1] == 0 {
        trace_id = read_trace_id(buf, 2);
    } else {
        return None;
    }
    let span_id;
    if buf.len() >= 27 && buf[18] == 1 {
        span_id = read_span_id(buf, 19);
    } else {
        return None;
    }
    let trace_options;
    if buf.len() >= 29 && buf[27] == 2 {
        trace_options = TraceOptions(buf[28] as u32);
    } else {
        return None;
    }
    Some(SpanContext { trace_id, span_id, trace_options, trace_state: None })
}

} // verus!
