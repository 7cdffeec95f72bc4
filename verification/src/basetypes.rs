//! The value types of a trace: identifiers, points in time, and what a span
//! collects while it is active.

use crate::status_codes::StatusCode;
use std::collections::HashMap;
use vstd::prelude::*;
use vstd::string::StringExecFns;

verus! {

/// The identifier of a trace: 16 bytes.
#[derive(Clone, Copy, Eq, PartialEq, Ord, PartialOrd, Hash, Debug, Default)]
pub struct TraceID(pub [u8; 16]);

/// The identifier of a span: 8 bytes.
#[derive(Clone, Copy, Eq, PartialEq, Ord, PartialOrd, Hash, Debug, Default)]
pub struct SpanID(pub [u8; 8]);

/// A point in time, in nanoseconds since an origin that the caller fixes.
#[derive(Clone, Copy, Eq, PartialEq, Ord, PartialOrd, Hash, Debug, Default)]
pub struct Instant(pub u64);

/// A length of time, in nanoseconds.
#[derive(Clone, Copy, Eq, PartialEq, Ord, PartialOrd, Hash, Debug, Default)]
pub struct Duration(pub u64);

/// The lower-case hexadecimal digit of `n`, for `n` below 16.
pub open spec fn hex_digit(n: u8) -> char {
    if n < 10 {
        (0x30 + n) as char
    } else {
        (0x57 + n) as char
    }
}

/// The two lower-case hexadecimal digits of `b`.
pub open spec fn hex_of_byte(b: u8) -> Seq<char> {
    seq![hex_digit(b / 16), hex_digit(b % 16)]
}

/// The hexadecimal digits of `bytes`, two for each byte, in order.
pub open spec fn hex_of_bytes(bytes: Seq<u8>) -> Seq<char>
    decreases bytes.len(),
{
    if bytes.len() == 0 {
        Seq::empty()
    } else {
        hex_of_bytes(bytes.drop_last()) + hex_of_byte(bytes.last())
    }
}

/// `format!` with `{:02x}`: a byte as two lower-case hexadecimal digits, the
/// first of them `0` for a byte below 16.
#[verifier::external_body]
fn format_hex_byte(b: u8) -> (s: String)
    ensures
        s@ == hex_of_byte(b),
{
    format!("{:02x}", b)
}

/// Writes `bytes` in hexadecimal.
fn hex_string(bytes: &[u8]) -> (s: String)
    ensures
        s@ == hex_of_bytes(bytes@),
{
    let mut s = String::new();
    let mut i: usize = 0;
    while i < bytes.len()
        invariant
            i <= bytes@.len(),
            s@ == hex_of_bytes(bytes@.subrange(0, i as int)),
        decreases bytes@.len() - i,
    {
        let digits = format_hex_byte(bytes[i]);
        proof {
            let next = bytes@.subrange(0, i + 1);
            assert(next.drop_last() =~= bytes@.subrange(0, i as int));
            assert(next.last() == bytes@[i as int]);
        }
        s.append(digits.as_str());
        i += 1;
    }
    assert(bytes@.subrange(0, i as int) =~= bytes@);
    s
}

impl TraceID {
    /// The identifier as 32 hexadecimal digits.
    pub fn to_string(&self) -> (s: String)
        ensures
            s@ == hex_of_bytes(self.0@),
    {
        hex_string(self.0.as_slice())
    }
}

impl SpanID {
    /// The identifier as 16 hexadecimal digits.
    pub fn to_string(&self) -> (s: String)
        ensures
            s@ == hex_of_bytes(self.0@),
    {
        hex_string(self.0.as_slice())
    }
}

/// The value of an attribute.
#[derive(Clone, Eq, PartialEq, Ord, PartialOrd, Hash, Debug)]
pub enum AttributeValue {
    BoolAttribute(bool),
    Int64Attribute(i64),
    StringAttribute(String),
}

/// The attributes of a span, a link or an annotation, by name.
pub type Attributes = HashMap<String, AttributeValue>;

/// A text with attributes and the time at which it was noted.
#[derive(Clone, Eq, PartialEq, Debug)]
pub struct Annotation {
    pub time: Instant,
    pub message: String,
    pub attributes: Attributes,
}

/// How a span relates to the span that it links to.
#[derive(Clone, Copy, Eq, PartialEq, Ord, PartialOrd, Hash, Debug)]
pub enum LinkType {
    /// The relation is not known.
    Unspecified,
    /// This span is a child of the linked span.
    Child,
    /// This span is a parent of the linked span.
    Parent,
}

/// A reference from one span to another.
#[derive(Clone, Eq, PartialEq, Debug)]
pub struct Link {
    pub trace_id: TraceID,
    pub span_id: SpanID,
    pub _type: LinkType,
    pub attributes: Attributes,
}

/// Whether a message was sent or received.
#[derive(Clone, Copy, Eq, PartialEq, Ord, PartialOrd, Hash, Debug)]
pub enum MessageEventType {
    /// Neither is known.
    Unspecified,
    /// The message was sent.
    Sent,
    /// The message was received.
    Recv,
}

/// A message that was sent or received over the network.
#[derive(Clone, Eq, PartialEq, Ord, PartialOrd, Hash, Debug)]
pub struct MessageEvent {
    pub time: Instant,
    pub event_type: MessageEventType,
    pub message_id: i64,
    pub uncompressed_byte_size: i64,
    pub compressed_byte_size: i64,
}

/// The outcome of a span: a code and a text.
#[derive(Clone, Eq, PartialEq, Ord, PartialOrd, Hash, Debug, Default)]
pub struct Status {
    pub code: StatusCode,
    pub message: String,
}

} // verus!
