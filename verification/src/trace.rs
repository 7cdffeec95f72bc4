//! Span contexts and spans: what identifies a span across processes, and the
//! record that a sampled span collects until it ends.

use crate::basetypes::{
    hex_of_bytes, AttributeValue, Attributes, Instant, Link, SpanID, Status, TraceID,
};
use crate::config::Config;
use crate::context::{carried_span, child_context, context_spans, from_context, SPAN_ID_KEY};
use crate::export::{Exporter, Exporters, SpanData};
use crate::id_generator::IDGenerator;
use crate::sampling::{Sampler, SamplingParameters};
use crate::spanstore::{with_finished, SpanStores};
use crate::tracestate::{EntryView, Tracestate};
use io_context::Context;
use std::collections::HashMap;
use std::sync::Arc;
use vstd::prelude::*;
use vstd::string::StringExecFns;

verus! {

/// The options of a trace. Bit 0 says whether the trace is sampled; no other
/// bit has a meaning.
#[derive(Clone, Copy, Eq, PartialEq, Ord, PartialOrd, Hash, Debug, Default)]
pub struct TraceOptions(pub u32);

impl TraceOptions {
    /// Whether the sampled bit is set.
    pub open spec fn sampled(self) -> bool {
        self.0 & 1 == 1
    }

    /// The options with the sampled bit set to `sampled` and every other bit
    /// as it is.
    pub open spec fn with_sampled(self, sampled: bool) -> TraceOptions {
        if sampled {
            TraceOptions(self.0 | 1)
        } else {
            TraceOptions(self.0 & !1u32)
        }
    }

    /// Whether the trace should be sampled.
    #[verifier::when_used_as_spec(sampled)]
    pub fn is_sampled(self) -> (r: bool)
        ensures
            r == self.sampled(),
    {
        self.0 & 1 == 1
    }

    /// Setting the sampled bit makes `is_sampled` give what was set, and
    /// leaves the other bits alone.
    pub proof fn lemma_with_sampled(self, sampled: bool)
        ensures
            self.with_sampled(sampled).sampled() == sampled,
            self.with_sampled(sampled).0 & !1u32 == self.0 & !1u32,
            self.sampled() == sampled ==> self.with_sampled(sampled) == self,
    {
        let x = self.0;
        assert((x | 1) & 1 == 1) by (bit_vector);
        assert((x & !1u32) & 1 == 0) by (bit_vector);
        assert((x | 1) & !1u32 == x & !1u32) by (bit_vector);
        assert((x & !1u32) & !1u32 == x & !1u32) by (bit_vector);
        assert(x & 1 == 1 ==> x | 1 == x) by (bit_vector);
        assert(x & 1 != 1 ==> x & !1u32 == x) by (bit_vector);
    }
}

/// The view of a `SpanContext`: its identifiers as byte sequences, its
/// options, and the entries of its trace state.
pub struct SpanContextView {
    pub trace_id: Seq<u8>,
    pub span_id: Seq<u8>,
    pub trace_options: TraceOptions,
    pub trace_state: Option<Seq<EntryView>>,
}

/// The state of a span that crosses process boundaries.
#[derive(Eq, PartialEq, Ord, PartialOrd, Hash, Debug, Default)]
pub struct SpanContext {
    /// The trace that the span belongs to.
    pub trace_id: TraceID,
    /// The span itself.
    pub span_id: SpanID,
    /// The options of the trace.
    pub trace_options: TraceOptions,
    /// What vendors have attached to the trace.
    pub trace_state: Option<Tracestate>,
}

impl View for SpanContext {
    type V = SpanContextView;

    open spec fn view(&self) -> SpanContextView {
        SpanContextView {
            trace_id: self.trace_id.0@,
            span_id: self.span_id.0@,
            trace_options: self.trace_options,
            trace_state: match self.trace_state {
                Some(ts) => Some(ts@),
                None => None,
            },
        }
    }
}

impl Clone for SpanContext {
    fn clone(&self) -> (r: Self)
        ensures
            r@ == self@,
            r.trace_id == self.trace_id,
            r.span_id == self.span_id,
    {
        SpanContext {
            trace_id: self.trace_id,
            span_id: self.span_id,
            trace_options: self.trace_options,
            trace_state: match &self.trace_state {
                Some(ts) => Some(ts.clone()),
                None => None,
            },
        }
    }
}

impl SpanContext {
    /// Whether the span will be exported.
    pub open spec fn sampled(&self) -> bool {
        self.trace_options.sampled()
    }

    /// Whether the span will be exported.
    #[verifier::when_used_as_spec(sampled)]
    pub fn is_sampled(&self) -> (r: bool)
        ensures
            r == self.sampled(),
    {
        self.trace_options.is_sampled()
    }

    /// Sets the bit of the options that says whether the span will be
    /// exported, and nothing else.
    pub fn set_is_sampled(&mut self, sampled: bool)
        ensures
            final(self).trace_options == old(self).trace_options.with_sampled(sampled),
            final(self).sampled() == sampled,
            final(self).trace_id == old(self).trace_id,
            final(self).span_id == old(self).span_id,
            final(self).trace_state == old(self).trace_state,
    {
        proof {
            self.trace_options.lemma_with_sampled(sampled);
        }
        if sampled {
            self.trace_options.0 |= 1
        } else {
            self.trace_options.0 &= !1
        }
    }
}

/// The kind of a span.
#[derive(Clone, Copy, Eq, PartialEq, Structural, Ord, PartialOrd, Hash, Debug)]
pub enum SpanKind {
    Unspecified,
    Server,
    Client,
}

impl Default for SpanKind {
    fn default() -> (r: SpanKind)
        ensures
            r == SpanKind::Unspecified,
    {
        SpanKind::Unspecified
    }
}

/// How a span is started.
#[derive(Clone, Copy, Debug)]
pub struct StartOptions {
    /// The sampler to ask for this span. Where one is given, it is always
    /// asked. Where none is given, the default sampler is asked for a span
    /// without a parent or with a remote one, and a span with a local parent
    /// is sampled as its parent is.
    pub sampler: Option<Sampler>,
    /// The kind of the span.
    pub span_kind: SpanKind,
}

impl Default for StartOptions {
    fn default() -> (o: StartOptions)
        ensures
            o == StartOptions::initial(),
    {
        StartOptions { sampler: None, span_kind: SpanKind::Unspecified }
    }
}

impl StartOptions {
    /// The options of a span that is started without any: no sampler of its
    /// own, and no kind.
    pub open spec fn initial() -> StartOptions {
        StartOptions { sampler: None, span_kind: SpanKind::Unspecified }
    }
}

/// One change to the options of a span.
#[derive(Clone, Copy, Debug)]
pub enum StartOption {
    /// The span is of this kind.
    SpanKind(SpanKind),
    /// This sampler is asked for the span.
    Sampler(Sampler),
}

impl StartOption {
    /// The options `o` with this change made.
    pub open spec fn applied(self, o: StartOptions) -> StartOptions {
        match self {
            StartOption::SpanKind(span_kind) => StartOptions { span_kind, ..o },
            StartOption::Sampler(sampler) => StartOptions { sampler: Some(sampler), ..o },
        }
    }

    /// Makes the change to `o`.
    pub fn apply(&self, o: &mut StartOptions)
        ensures
            *final(o) == self.applied(*old(o)),
    {
        match self {
            StartOption::SpanKind(span_kind) => {
                o.span_kind = *span_kind;
            },
            StartOption::Sampler(sampler) => {
                o.sampler = Some(*sampler);
            },
        }
    }
}

/// The option that makes a span one of the kind `span_kind`.
pub fn with_span_kind(span_kind: SpanKind) -> (o: StartOption)
    ensures
        o == StartOption::SpanKind(span_kind),
{
    StartOption::SpanKind(span_kind)
}

/// The option that has `sampler` asked for a span.
pub fn with_sampler(sampler: Sampler) -> (o: StartOption)
    ensures
        o == StartOption::Sampler(sampler),
{
    StartOption::Sampler(sampler)
}

/// The options that the changes `o` give, made in their order to the
/// initial options.
pub open spec fn options_of(o: Seq<StartOption>) -> StartOptions
    decreases o.len(),
{
    if o.len() == 0 {
        StartOptions::initial()
    } else {
        o.last().applied(options_of(o.drop_last()))
    }
}

/// Makes the changes `o`, in their order, to the initial options.
pub fn collect_options(o: &[StartOption]) -> (opts: StartOptions)
    ensures
        opts == options_of(o@),
{
    let mut opts = StartOptions::default();
    let mut i: usize = 0;
    while i < o.len()
        invariant
            i <= o@.len(),
            opts == options_of(o@.subrange(0, i as int)),
        decreases o@.len() - i,
    {
        proof {
            let next = o@.subrange(0, i + 1);
            assert(next.drop_last() =~= o@.subrange(0, i as int));
            assert(next.last() == o@[i as int]);
        }
        o[i].apply(&mut opts);
        i += 1;
    }
    assert(o@.subrange(0, i as int) =~= o@);
    opts
}

/// Whether a sampler is asked about a span: where the span has no parent,
/// where its parent is remote, and where a sampler was named for it.
pub open spec fn sampler_asked(has_parent: bool, remote_parent: bool, own_sampler: bool) -> bool {
    !has_parent || remote_parent || own_sampler
}

/// What the sampler says of a span that is started under `parent` with the
/// options `o`, if one is asked. The sampler is the one that `o` names, else
/// `default_sampler`; it decides on the trace of the parent, or on `trace_id`
/// where there is no parent.
pub open spec fn sampling_decision(
    parent: Option<SpanContextView>,
    remote_parent: bool,
    o: StartOptions,
    default_sampler: Sampler,
    trace_id: Seq<u8>,
) -> Option<bool> {
    let trace = match parent {
        Some(p) => p.trace_id,
        None => trace_id,
    };
    let parent_sampled = match parent {
        Some(p) => p.trace_options.sampled(),
        None => false,
    };
    let sampler = match o.sampler {
        Some(s) => s,
        None => default_sampler,
    };
    if sampler_asked(parent is Some, remote_parent, o.sampler is Some) {
        Some(sampler.decides(parent_sampled, trace))
    } else {
        None
    }
}

/// The context of a span that is started under `parent`: the trace of the
/// parent, or `trace_id` where there is no parent; the identifier `span_id`;
/// the trace state of the parent; and the options of the parent, with the
/// sampled bit set to the decision where there is one. Without a parent
/// there are no options to start from, and no trace state.
pub open spec fn decided_context(
    parent: Option<SpanContextView>,
    decision: Option<bool>,
    trace_id: Seq<u8>,
    span_id: Seq<u8>,
) -> SpanContextView {
    let inherited = match parent {
        Some(p) => p.trace_options,
        None => TraceOptions(0),
    };
    SpanContextView {
        trace_id: match parent {
            Some(p) => p.trace_id,
            None => trace_id,
        },
        span_id,
        trace_options: match decision {
            Some(sample) => inherited.with_sampled(sample),
            None => inherited,
        },
        trace_state: match parent {
            Some(p) => p.trace_state,
            None => None,
        },
    }
}

/// The context of a span that is started under `parent` with the options
/// `o`: the one that the decision of the sampler gives, where a sampler is
/// asked, and else the one that takes the options of the parent as they are.
pub open spec fn started_context(
    parent: Option<SpanContextView>,
    remote_parent: bool,
    o: StartOptions,
    default_sampler: Sampler,
    trace_id: Seq<u8>,
    span_id: Seq<u8>,
) -> SpanContextView {
    decided_context(
        parent,
        sampling_decision(parent, remote_parent, o, default_sampler, trace_id),
        trace_id,
        span_id,
    )
}

/// A span with a local parent and without a sampler of its own has the
/// options of its parent, and so is sampled exactly when the parent is,
/// whatever the default sampler would decide.
pub proof fn lemma_local_child_inherits(
    parent: SpanContextView,
    o: StartOptions,
    default_sampler: Sampler,
    trace_id: Seq<u8>,
    span_id: Seq<u8>,
)
    requires
        o.sampler is None,
    ensures
        started_context(
            Some(parent),
            false,
            o,
            default_sampler,
            trace_id,
            span_id,
        ).trace_options == parent.trace_options,
        started_context(Some(parent), false, o, default_sampler, trace_id, span_id).trace_id
            == parent.trace_id,
        started_context(Some(parent), false, o, default_sampler, trace_id, span_id).trace_state
            == parent.trace_state,
{
}

/// Where a sampler is asked, the span is sampled exactly when the sampler
/// says so, and no other bit of the options changes.
pub proof fn lemma_asked_sampler_decides(
    parent: Option<SpanContextView>,
    remote_parent: bool,
    o: StartOptions,
    default_sampler: Sampler,
    trace_id: Seq<u8>,
    span_id: Seq<u8>,
)
    requires
        parent is None || remote_parent || o.sampler is Some,
    ensures
        ({
            let started = started_context(
                parent,
                remote_parent,
                o,
                default_sampler,
                trace_id,
                span_id,
            );
            let sampler = match o.sampler {
                Some(s) => s,
                None => default_sampler,
            };
            let parent_sampled = match parent {
                Some(p) => p.trace_options.sampled(),
                None => false,
            };
            started.trace_options.sampled() == sampler.decides(parent_sampled, started.trace_id)
        }),
{
    let inherited = match parent {
        Some(p) => p.trace_options,
        None => TraceOptions(0),
    };
    inherited.lemma_with_sampled(true);
    inherited.lemma_with_sampled(false);
}

/// The record `d` is the one that a span starts with: it has the context
/// `ctx`, the identifier of the parent, the kind and the name that were
/// asked for and the start time `now`, and nothing else in it yet.
pub open spec fn is_new_record(
    d: SpanData,
    ctx: SpanContextView,
    name: Seq<char>,
    parent: Option<SpanContext>,
    remote_parent: bool,
    span_kind: SpanKind,
    now: Instant,
) -> bool {
    &&& d.span_context@ == ctx
    &&& d.parent_span_id == match parent {
        Some(p) => Some(p.span_id),
        None => None,
    }
    &&& d.span_kind == span_kind
    &&& d.name@ == name
    &&& d.start_time == now
    &&& d.end_time is None
    &&& d.attributes@ == Map::<String, AttributeValue>::empty()
    &&& d.annotations@.len() == 0
    &&& d.message_events@.len() == 0
    &&& d.status is None
    &&& d.links@.len() == 0
    &&& d.has_remote_parent == remote_parent
}

/// The view of the parent context, if there is one.
pub open spec fn parent_view(parent: Option<SpanContext>) -> Option<SpanContextView> {
    match parent {
        Some(p) => Some(p@),
        None => None,
    }
}

/// The parent context itself, if there is one.
pub open spec fn parent_of(parent: Option<&SpanContext>) -> Option<SpanContext> {
    match parent {
        Some(p) => Some(*p),
        None => None,
    }
}

/// The context of the span that `ctx` carries, if it carries one.
pub open spec fn carried_context(ctx: Context) -> Option<SpanContext> {
    match carried_span(ctx) {
        Some(span) => Some(span.context()),
        None => None,
    }
}

/// The span `span` is the one that starting a span with the context `ctx`
/// gives: it has not ended and has no span store, and it records exactly
/// when `ctx` is sampled, starting from a new record.
pub open spec fn is_started_as(
    span: SpanView,
    ctx: SpanContextView,
    name: Seq<char>,
    parent: Option<SpanContext>,
    remote_parent: bool,
    span_kind: SpanKind,
    now: Instant,
) -> bool {
    &&& span.span_context == ctx
    &&& !span.ended
    &&& span.span_store is None
    &&& if ctx.trace_options.sampled() {
        span.data matches Some(d) && is_new_record(
            d,
            ctx,
            name,
            parent,
            remote_parent,
            span_kind,
            now,
        )
    } else {
        span.data is None
    }
}

/// The span `span` is the one that starting a span under `parent` with the
/// options `o` gives: see `started_context` and `is_started_as`.
pub open spec fn is_started(
    span: SpanView,
    name: Seq<char>,
    parent: Option<SpanContext>,
    remote_parent: bool,
    o: StartOptions,
    default_sampler: Sampler,
    trace_id: Seq<u8>,
    span_id: Seq<u8>,
    now: Instant,
) -> bool {
    is_started_as(
        span,
        started_context(
            parent_view(parent),
            remote_parent,
            o,
            default_sampler,
            trace_id,
            span_id,
        ),
        name,
        parent,
        remote_parent,
        o.span_kind,
        now,
    )
}

/// The view of a span.
pub struct SpanView {
    /// What the span has recorded, while it records.
    pub data: Option<SpanData>,
    /// The context of the span.
    pub span_context: SpanContextView,
    /// The name of the span store that gets the span when it ends.
    pub span_store: Option<Seq<char>>,
    /// Whether a recording span was ended.
    pub ended: bool,
}

impl SpanView {
    /// The record that the span hands out if it is ended at `now`: what it
    /// has recorded, with `now` as the end time, or the start time where
    /// `now` is before it. A span that does not record hands out nothing.
    pub open spec fn snapshot(self, now: Instant) -> Option<SpanData> {
        match self.data {
            Some(d) => Some(
                SpanData {
                    end_time: Some(
                        if now.0 >= d.start_time.0 {
                            now
                        } else {
                            d.start_time
                        },
                    ),
                    ..d
                },
            ),
            None => None,
        }
    }

    /// The span after `end`: it records no longer, and has ended if it was
    /// recording or had ended before.
    pub open spec fn after_end(self) -> SpanView {
        SpanView { data: None, ended: self.ended || self.data is Some, ..self }
    }
}

/// The record that a span hands out ends at the time at which the span was
/// ended, and never before it started.
pub proof fn lemma_snapshot_times(span: SpanView, now: Instant)
    requires
        span.data is Some,
    ensures
        span.snapshot(now) matches Some(record) && record.end_time matches Some(end) && end.0
            >= record.start_time.0 && (now.0 >= record.start_time.0 ==> end == now),
{
}

/// Ending a span again does nothing: a span that was ended hands out no
/// record, whatever the time, and stays as it is. So the record of a span is
/// exported and stored at most once.
pub proof fn lemma_end_is_idempotent(span: SpanView, first: Instant, second: Instant)
    ensures
        span.after_end().snapshot(second) is None,
        span.after_end().after_end() == span.after_end(),
{
}

/// A span of a trace: its context and, while it is recording, the data that
/// it collects. A span that is not sampled carries its context and nothing
/// else, and never starts to record. A recording span records until it is
/// ended, and is ended once.
#[derive(Debug, Clone)]
pub struct Span {
    // what the span has recorded; `None` where it does not record
    data: Option<SpanData>,
    span_context: SpanContext,
    // the name of the span store that gets the span when it ends
    span_store: Option<String>,
    // whether the span was recording and has been ended
    ended: bool,
}

impl View for Span {
    type V = SpanView;

    closed spec fn view(&self) -> SpanView {
        SpanView {
            data: self.data,
            span_context: self.span_context@,
            span_store: match self.span_store {
                Some(name) => Some(name@),
                None => None,
            },
            ended: self.ended,
        }
    }
}

/// Says whether a sampler is asked about a span: see `sampler_asked`.
pub fn sampler_is_asked(has_parent: bool, remote_parent: bool, own_sampler: bool) -> (r: bool)
    ensures
        r == sampler_asked(has_parent, remote_parent, own_sampler),
{
    !has_parent || remote_parent || own_sampler
}

/// The start of a span of which the sampling is decided: `decision` is what
/// the sampler said, where one was asked. The span has the context
/// `decided_context` and is started as `is_started_as` says. `trace_id` is
/// used where there is no parent.
pub fn start_span_with_decision(
    name: &str,
    parent: Option<&SpanContext>,
    remote_parent: bool,
    span_kind: SpanKind,
    decision: Option<bool>,
    trace_id: TraceID,
    span_id: SpanID,
    now: Instant,
) -> (span: Span)
    ensures
        span.wf(),
        is_started_as(
            span@,
            decided_context(parent_view(parent_of(parent)), decision, trace_id.0@, span_id.0@),
            name@,
            parent_of(parent),
            remote_parent,
            span_kind,
            now,
        ),
{
    let mut span_context = match parent {
        Some(p) => p.clone(),
        None => SpanContext::default_context(),
    };
    if parent.is_none() {
        span_context.trace_id = trace_id;
    }
    span_context.span_id = span_id;
    if let Some(sample) = decision {
        span_context.set_is_sampled(sample);
    }
    if !span_context.is_sampled() {
        return Span { data: None, span_context, span_store: None, ended: false };
    }
    let data = SpanData {
        span_context: span_context.clone(),
        parent_span_id: match parent {
            Some(p) => Some(p.span_id),
            None => None,
        },
        span_kind,
        name: name.to_owned(),
        start_time: now,
        end_time: None,
        attributes: HashMap::new(),
        annotations: Vec::new(),
        message_events: Vec::new(),
        status: None,
        links: Vec::new(),
        has_remote_parent: remote_parent,
    };
    Span { data: Some(data), span_context, span_store: None, ended: false }
}

/// The start of a span with the identifiers `trace_id` and `span_id` at the
/// time `now`: see `is_started`. `trace_id` is used where there is no parent.
pub fn start_span_with_ids(
    name: &str,
    parent: Option<&SpanContext>,
    remote_parent: bool,
    o: &StartOptions,
    default_sampler: &Sampler,
    trace_id: TraceID,
    span_id: SpanID,
    now: Instant,
) -> (span: Span)
    ensures
        span.wf(),
        is_started(
            span@,
            name@,
            parent_of(parent),
            remote_parent,
            *o,
            *default_sampler,
            trace_id.0@,
            span_id.0@,
            now,
        ),
        parent is Some && !remote_parent && o.sampler is None ==> span@.span_context.trace_options
            == parent.unwrap().trace_options,
{
    let mut decision = None;
    if sampler_is_asked(parent.is_some(), remote_parent, o.sampler.is_some()) {
        let sampler = match &o.sampler {
            Some(s) => *s,
            None => *default_sampler,
        };
        let trace = match parent {
            Some(p) => p.trace_id,
            None => trace_id,
        };
        decision = Some(
            sampler.sample(
                SamplingParameters {
                    parent_context: parent,
                    trace_id: &trace,
                    span_id: &span_id,
                    name,
                    has_remote_parent: remote_parent,
                },
            ).sample,
        );
    }
    start_span_with_decision(
        name,
        parent,
        remote_parent,
        o.span_kind,
        decision,
        trace_id,
        span_id,
        now,
    )
}

/// Starts a span at the time `now`, with identifiers from the generator of
/// `cfg`: a span identifier always, a trace identifier where there is no
/// parent. Whatever the generator gives, the span is the one that
/// `start_span_with_ids` gives for the identifiers that the span carries.
pub fn start_span_internal<G: IDGenerator>(
    name: &str,
    parent: Option<&SpanContext>,
    remote_parent: bool,
    o: &StartOptions,
    cfg: &Config<G>,
    now: Instant,
) -> (span: Span)
    ensures
        span.wf(),
        is_started(
            span@,
            name@,
            parent_of(parent),
            remote_parent,
            *o,
            cfg.default_sampler,
            span@.span_context.trace_id,
            span@.span_context.span_id,
            now,
        ),
        parent is Some && !remote_parent && o.sampler is None ==> span@.span_context.trace_options
            == parent.unwrap().trace_options,
{
    let trace_id = match parent {
        Some(p) => p.trace_id,
        None => cfg.id_generator.new_trace_id(),
    };
    let span_id = cfg.id_generator.new_span_id();
    start_span_with_ids(
        name,
        parent,
        remote_parent,
        o,
        &cfg.default_sampler,
        trace_id,
        span_id,
        now,
    )
}

/// Starts a span below the span that `ctx` carries, or a span without a
/// parent where `ctx` carries none, with the options that the changes `o`
/// give. The result is the span and a context below `ctx` that carries a
/// copy of it.
pub fn start_span<G: IDGenerator>(
    ctx: &Arc<Context>,
    name: &str,
    o: &[StartOption],
    cfg: &Config<G>,
    now: Instant,
) -> (r: (Context, Span))
    ensures
        r.1.wf(),
        context_spans(r.0) == context_spans(**ctx).insert(SPAN_ID_KEY@, r.1),
        carried_span(r.0) == Some(r.1),
        is_started(
            r.1@,
            name@,
            carried_context(**ctx),
            false,
            options_of(o@),
            cfg.default_sampler,
            r.1@.span_context.trace_id,
            r.1@.span_context.span_id,
            now,
        ),
        carried_context(**ctx) is Some && options_of(o@).sampler is None
            ==> r.1@.span_context.trace_options == carried_context(**ctx).unwrap().trace_options,
{
    let opts = collect_options(o);
    let parent = match from_context(ctx) {
        Some(p) => Some(p.span_context()),
        None => None,
    };
    let span = start_span_internal(name, parent, false, &opts, cfg, now);
    (child_context(ctx, &span), span)
}

/// Starts a span below the span of another process, whose context is
/// `parent`, with the options that the changes `o` give. The result is the
/// span and a context below `ctx` that carries a copy of it.
pub fn start_span_with_remote_parent<G: IDGenerator>(
    ctx: &Arc<Context>,
    name: &str,
    parent: &SpanContext,
    o: &[StartOption],
    cfg: &Config<G>,
    now: Instant,
) -> (r: (Context, Span))
    ensures
        r.1.wf(),
        context_spans(r.0) == context_spans(**ctx).insert(SPAN_ID_KEY@, r.1),
        carried_span(r.0) == Some(r.1),
        is_started(
            r.1@,
            name@,
            Some(*parent),
            true,
            options_of(o@),
            cfg.default_sampler,
            r.1@.span_context.trace_id,
            r.1@.span_context.span_id,
            now,
        ),
{
    let opts = collect_options(o);
    let span = start_span_internal(name, Some(parent), true, &opts, cfg, now);
    (child_context(ctx, &span), span)
}

impl SpanContext {
    /// The context that a span without a parent starts from: identifiers of
    /// zeros, no option and no trace state.
    fn default_context() -> (r: SpanContext)
        ensures
            r@ == (SpanContextView {
                trace_id: Seq::new(16, |i: int| 0u8),
                span_id: Seq::new(8, |i: int| 0u8),
                trace_options: TraceOptions(0),
                trace_state: None,
            }),
    {
        let r = SpanContext {
            trace_id: TraceID([0u8; 16]),
            span_id: SpanID([0u8; 8]),
            trace_options: TraceOptions(0),
            trace_state: None,
        };
        assert(r.trace_id.0@ =~= Seq::new(16, |i: int| 0u8));
        assert(r.span_id.0@ =~= Seq::new(8, |i: int| 0u8));
        r
    }
}

impl Span {
    /// The invariant of a span: while it records it has not ended, it is
    /// sampled, and its record carries its context and no end time.
    pub closed spec fn wf(&self) -> bool {
        self.data matches Some(d) ==> !self.ended && self.span_context.sampled()
            && d.span_context@ == self.span_context@ && d.end_time is None
    }

    /// The context of the span.
    pub closed spec fn context(&self) -> SpanContext {
        self.span_context
    }

    /// A span that does not record: a carrier of `span_context`.
    pub fn from_span_context(span_context: SpanContext) -> (span: Span)
        ensures
            span.wf(),
            span@ == (SpanView {
                data: None,
                span_context: span_context@,
                span_store: None,
                ended: false,
            }),
    {
        Span { data: None, span_context, span_store: None, ended: false }
    }

    /// Whether the span is recording.
    pub fn is_recording_events(&self) -> (r: bool)
        ensures
            r == self@.data is Some,
    {
        self.data.is_some()
    }

    /// The context of the span.
    pub fn span_context(&self) -> (r: &SpanContext)
        ensures
            *r == self.context(),
            r@ == self@.span_context,
    {
        &self.span_context
    }

    /// What the span has recorded so far, while it records.
    pub fn data(&self) -> (r: Option<&SpanData>)
        ensures
            match r {
                Some(d) => self@.data == Some(*d),
                None => self@.data is None,
            },
    {
        self.data.as_ref()
    }

    /// Names the span store in which the span is filed when it ends. A span
    /// that does not record is left as it is.
    pub fn set_span_store(&mut self, name: &str)
        requires
            old(self).wf(),
        ensures
            final(self).wf(),
            old(self)@.data is None ==> final(self)@ == old(self)@,
            old(self)@.data is Some ==> final(self)@ == (SpanView {
                span_store: Some(name@),
                ..old(self)@
            }),
    {
        if self.data.is_some() {
            self.span_store = Some(name.to_owned());
        }
    }

    /// Sets the name of the span. A span that does not record is left as it
    /// is.
    pub fn set_name(&mut self, name: &str)
        requires
            old(self).wf(),
        ensures
            final(self).wf(),
            final(self)@.span_context == old(self)@.span_context,
            final(self)@.span_store == old(self)@.span_store,
            final(self)@.ended == old(self)@.ended,
            match old(self)@.data {
                Some(was) => final(self)@.data matches Some(d) && d.name@ == name@ && d
                    == (SpanData { name: d.name, ..was }),
                None => final(self)@.data is None,
            },
    {
        if let Some(data) = &mut self.data {
            data.name = name.to_owned();
        }
    }

    /// Sets the status of the span. A span that does not record is left as
    /// it is.
    pub fn set_status(&mut self, status: &Status)
        requires
            old(self).wf(),
        ensures
            final(self).wf(),
            final(self)@.span_context == old(self)@.span_context,
            final(self)@.span_store == old(self)@.span_store,
            final(self)@.ended == old(self)@.ended,
            match old(self)@.data {
                Some(was) => final(self)@.data == Some(SpanData { status: Some(*status), ..was }),
                None => final(self)@.data is None,
            },
    {
        if let Some(data) = &mut self.data {
            data.status = Some(Status { code: status.code, message: status.message.clone() });
        }
    }

    /// Gives the span the attributes `attrs`, in the place of those that it
    /// had. A span that does not record is left as it is.
    pub fn add_attributes(&mut self, attrs: Attributes)
        requires
            old(self).wf(),
        ensures
            final(self).wf(),
            final(self)@.span_context == old(self)@.span_context,
            final(self)@.span_store == old(self)@.span_store,
            final(self)@.ended == old(self)@.ended,
            match old(self)@.data {
                Some(was) => final(self)@.data == Some(SpanData { attributes: attrs, ..was }),
                None => final(self)@.data is None,
            },
    {
        if let Some(data) = &mut self.data {
            data.attributes = attrs;
        }
    }

    /// Adds a link to the links of the span, as the last. A span that does
    /// not record is left as it is.
    pub fn add_link(&mut self, l: Link)
        requires
            old(self).wf(),
        ensures
            final(self).wf(),
            final(self)@.span_context == old(self)@.span_context,
            final(self)@.span_store == old(self)@.span_store,
            final(self)@.ended == old(self)@.ended,
            match old(self)@.data {
                Some(was) => final(self)@.data matches Some(d) && d.links@ == was.links@.push(l)
                    && d == (SpanData { links: d.links, ..was }),
                None => final(self)@.data is None,
            },
    {
        if let Some(data) = &mut self.data {
            data.links.push(l);
        }
    }

    /// Ends the span at the time `now`. A span that does not record, or has
    /// been ended, is left as it is: nothing is exported and nothing stored.
    /// A recording span stops recording. Its record, with the end time set,
    /// goes to every exporter, one call each, and then to the span store that
    /// was named for the span, if one was. The result is the number of
    /// exporters that were called.
    pub fn end<E: Exporter>(
        &mut self,
        now: Instant,
        exporters: &Exporters<E>,
        stores: &mut SpanStores,
    ) -> (calls: usize)
        requires
            old(self).wf(),
            exporters.wf(),
            old(stores).wf(),
        ensures
            final(self).wf(),
            final(stores).wf(),
            final(self)@ == old(self)@.after_end(),
            match old(self)@.snapshot(now) {
                Some(record) => calls == exporters@.len() && final(stores)@
                    == match old(self)@.span_store {
                    Some(name) => with_finished(old(stores)@, name, record),
                    None => old(stores)@,
                },
                None => calls == 0 && final(stores)@ == old(stores)@,
            },
    {
        if !self.is_recording_events() {
            return 0;
        }
        self.ended = true;
        let must_export = self.span_context.is_sampled() && !exporters.is_empty();
        let taken = self.data.take();
        let span_store = self.span_store.take();
        let mut calls: usize = 0;
        if span_store.is_some() || must_export {
            if let Some(mut span_data) = taken {
                let end_time = if now.0 >= span_data.start_time.0 {
                    now
                } else {
                    span_data.start_time
                };
                span_data.end_time = Some(end_time);
                // the exporters borrow the record; the store then takes it
                if must_export {
                    calls = exporters.export_span(&span_data);
                }
                if let Some(name) = &span_store {
                    stores.finished(name.as_str(), span_data);
                }
            }
        }
        self.span_store = span_store;
        calls
    }

    /// The span as text: `span`, its identifier in hexadecimal and, while it
    /// records, its name.
    pub fn to_string(&self) -> (s: String)
        ensures
            s@ == "span "@ + hex_of_bytes(self@.span_context.span_id) + match self@.data {
                Some(d) => " "@ + d.name@,
                None => Seq::<char>::empty(),
            },
    {
        let mut s = String::from_str("span ");
        let id = self.span_context.span_id.to_string();
        s.append(id.as_str());
        if let Some(data) = &self.data {
            s.append(" ");
            s.append(data.name.as_str());
            assert(s@ =~= "span "@ + hex_of_bytes(self@.span_context.span_id) + (" "@
                + data.name@));
        } else {
            assert(s@ =~= "span "@ + hex_of_bytes(self@.span_context.span_id) + Seq::<
                char,
            >::empty());
        }
        s
    }
}

} // verus!
