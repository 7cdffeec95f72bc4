//! The span that a context carries: how a span is put into an
//! `io_context::Context` and found again further down the call chain.

use crate::trace::Span;
use io_context::Context;
use std::sync::Arc;
use vstd::prelude::*;

verus! {

/// `io_context::Context`. Of what a context holds, only the spans are
/// spoken of here: see `context_spans`.
#[verifier::external_type_specification]
#[verifier::external_body]
pub struct ExContext(Context);

/// The key under which a context carries its span.
pub const SPAN_ID_KEY: &'static str = "OPENCENSUS_TRACE_SPAN_ID_KEY";

/// The spans that can be read from a context, by the key under which each
/// stands: those that were added to the context itself and, under the other
/// keys, those of the context that it is a child of.
pub uninterp spec fn context_spans(ctx: Context) -> Map<Seq<char>, Span>;

/// `io_context::Context::get_value` for a value of the type `Span`: the span
/// that stands under `key` in `ctx` or, where `ctx` has nothing under `key`,
/// in the nearest context above it that has.
#[verifier::external_body]
fn get_span<'a>(ctx: &'a Context, key: &'static str) -> (r: Option<&'a Span>)
    ensures
        match r {
            Some(span) => context_spans(*ctx).contains_key(key@) && context_spans(*ctx)[key@]
                == *span,
            None => !context_spans(*ctx).contains_key(key@),
        },
{
    ctx.get_value(key)
}

/// `io_context::Context::create_child`: a new context below `parent`, with
/// no value of its own, so that every span of `parent` is read from it.
#[verifier::external_body]
fn create_child(parent: &Arc<Context>) -> (ctx: Context)
    ensures
        context_spans(ctx) == context_spans(**parent),
{
    Context::create_child(parent)
}

/// `io_context::Context::add_value` with a clone of `span`: the clone stands
/// under `key` from now on, in the place of what stood there or was read
/// there from above. Nothing else changes.
#[verifier::external_body]
fn add_span(ctx: &mut Context, key: &'static str, span: &Span)
    ensures
        context_spans(*final(ctx)) == context_spans(*old(ctx)).insert(key@, *span),
{
    ctx.add_value(key, span.clone())
}

/// The span that `ctx` carries, if it carries one.
pub fn from_context(ctx: &Context) -> (r: Option<&Span>)
    ensures
        match r {
            Some(span) => carried_span(*ctx) == Some(*span),
            None => carried_span(*ctx) is None,
        },
{
    get_span(ctx, SPAN_ID_KEY)
}

/// The span that `ctx` carries, if it carries one.
pub open spec fn carried_span(ctx: Context) -> Option<Span> {
    if context_spans(ctx).contains_key(SPAN_ID_KEY@) {
        Some(context_spans(ctx)[SPAN_ID_KEY@])
    } else {
        None
    }
}

/// A context below `parent` that carries `span`.
pub fn new_context(parent: &Arc<Context>, span: Span) -> (ctx: Context)
    ensures
        context_spans(ctx) == context_spans(**parent).insert(SPAN_ID_KEY@, span),
        carried_span(ctx) == Some(span),
{
    child_context(parent, &span)
}

/// A context below `parent` that carries a copy of `span`.
pub fn child_context(parent: &Arc<Context>, span: &Span) -> (ctx: Context)
    ensures
        context_spans(ctx) == context_spans(**parent).insert(SPAN_ID_KEY@, *span),
        carried_span(ctx) == Some(*span),
{
    let mut ctx = create_child(parent);
    add_span(&mut ctx, SPAN_ID_KEY, span);
    ctx
}

} // verus!
