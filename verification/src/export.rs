//! What a finished span hands to the outside: the record of its data, and
//! the exporters that receive such records.

use crate::basetypes::{Annotation, Attributes, Instant, Link, MessageEvent, SpanID, Status};
use crate::trace::{SpanContext, SpanKind};
use std::sync::Arc;
use vstd::prelude::*;

verus! {

/// Everything that a span has collected.
#[derive(Debug, Clone, PartialEq)]
pub struct SpanData {
    pub span_context: SpanContext,
    pub parent_span_id: Option<SpanID>,
    pub span_kind: SpanKind,
    pub name: String,
    pub start_time: Instant,
    /// Set when the span ends, and never before `start_time`.
    pub end_time: Option<Instant>,
    pub attributes: Attributes,
    pub annotations: Vec<Annotation>,
    pub message_events: Vec<MessageEvent>,
    pub status: Option<Status>,
    pub links: Vec<Link>,
    pub has_remote_parent: bool,
}

/// A receiver of the records of sampled spans. `export_span` is called for
/// every such span that ends while the exporter is registered; it should
/// return quickly.
pub trait Exporter {
    fn export_span(&self, s: &SpanData);
}

impl<E: Exporter> Exporter for Arc<E> {
    fn export_span(&self, s: &SpanData) {
        (**self).export_span(s)
    }
}

/// The position of the exporter that is registered as `id`, if there is one.
pub open spec fn registered_at<E>(list: Seq<(usize, E)>, id: usize, i: int) -> bool {
    0 <= i < list.len() && list[i].0 == id
}

/// Whether an exporter is registered as `id`.
pub open spec fn is_registered<E>(list: Seq<(usize, E)>, id: usize) -> bool {
    exists|i: int| registered_at(list, id, i)
}

/// The exporters of a process, in the order in which they were registered.
/// An exporter is known by an identity that its owner chooses, and is
/// registered at most once.
pub struct Exporters<E> {
    // the identities, each once
    ids: Vec<usize>,
    // the exporter of each identity, at the index of the identity
    list: Vec<E>,
}

impl<E> View for Exporters<E> {
    type V = Seq<(usize, E)>;

    closed spec fn view(&self) -> Seq<(usize, E)> {
        Seq::new(self.ids@.len(), |i: int| (self.ids@[i], self.list@[i]))
    }
}

impl<E: Exporter> Exporters<E> {
    /// The invariant of the list: no identity occurs twice.
    pub closed spec fn wf(&self) -> bool {
        &&& self.ids@.len() == self.list@.len()
        &&& forall|i: int, j: int|
            0 <= i < j < self.ids@.len() ==> #[trigger] self.ids@[i] != #[trigger] self.ids@[j]
    }

    /// No identity is registered twice.
    pub proof fn lemma_registered_once(&self, id: usize, i: int, j: int)
        requires
            self.wf(),
            registered_at(self@, id, i),
            registered_at(self@, id, j),
        ensures
            i == j,
    {
        if i != j {
            assert(self.ids@[i] == self.ids@[j]);
        }
    }

    /// An empty list.
    pub fn new() -> (exporters: Self)
        ensures
            exporters.wf(),
            exporters@ == Seq::<(usize, E)>::empty(),
    {
        let exporters = Exporters { ids: Vec::new(), list: Vec::new() };
        assert(exporters@ =~= Seq::<(usize, E)>::empty());
        exporters
    }

    /// The number of exporters.
    pub fn len(&self) -> (n: usize)
        requires
            self.wf(),
        ensures
            n == self@.len(),
    {
        self.ids.len()
    }

    /// Whether there is no exporter.
    pub fn is_empty(&self) -> (r: bool)
        requires
            self.wf(),
        ensures
            r == (self@.len() == 0),
    {
        self.ids.len() == 0
    }

    /// The index of the exporter that is registered as `id`.
    fn find(&self, id: usize) -> (r: Option<usize>)
        requires
            self.wf(),
        ensures
            match r {
                Some(i) => registered_at(self@, id, i as int),
                None => !is_registered(self@, id),
            },
    {
        let mut i: usize = 0;
        while i < self.ids.len()
            invariant
                i <= self.ids@.len(),
                forall|j: int| 0 <= j < i ==> !registered_at(self@, id, j),
            decreases self.ids@.len() - i,
        {
            if self.ids[i] == id {
                return Some(i);
            }
            i += 1;
        }
        None
    }

    /// Hands `s` to every exporter, in the order of registration, and says
    /// to how many it went: one call of `export_span` for each.
    pub fn export_span(&self, s: &SpanData) -> (calls: usize)
        requires
            self.wf(),
        ensures
            calls == self@.len(),
    {
        let mut i: usize = 0;
        while i < self.list.len()
            invariant
                i <= self.list@.len(),
            decreases self.list@.len() - i,
        {
            self.list[i].export_span(s);
            i += 1;
        }
        i
    }
}

/// Adds `e` to the exporters that receive the sampled spans, under the
/// identity `id`. Where an exporter is registered as `id` already, nothing
/// changes.
pub fn register_exporter<E: Exporter>(exporters: &mut Exporters<E>, id: usize, e: E)
    requires
        old(exporters).wf(),
    ensures
        final(exporters).wf(),
        final(exporters)@ == if is_registered(old(exporters)@, id) {
            old(exporters)@
        } else {
            old(exporters)@.push((id, e))
        },
{
    if exporters.find(id).is_some() {
        return;
    }
    exporters.ids.push(id);
    exporters.list.push(e);
    proof {
        assert(exporters@ =~= old(exporters)@.push((id, e)));
        assert forall|i: int, j: int| 0 <= i < j < exporters.ids@.len() implies #[trigger]
            exporters.ids@[i] != #[trigger] exporters.ids@[j] by {
            if j == old(exporters).ids@.len() {
                assert(!registered_at(old(exporters)@, id, i));
            }
        }
    }
}

/// Removes the exporter that is registered as `id`; the others keep their
/// order. Where none is registered as `id`, nothing changes.
pub fn unregister_exporter<E: Exporter>(exporters: &mut Exporters<E>, id: usize)
    requires
        old(exporters).wf(),
    ensures
        final(exporters).wf(),
        !is_registered(final(exporters)@, id),
        !is_registered(old(exporters)@, id) ==> final(exporters)@ == old(exporters)@,
        is_registered(old(exporters)@, id) ==> final(exporters)@.len() == old(exporters)@.len() - 1,
        forall|i: int|
            registered_at(old(exporters)@, id, i) ==> final(exporters)@ == old(exporters)@.remove(
                i,
            ),
{
    match exporters.find(id) {
        Some(at) => {
            exporters.ids.remove(at);
            exporters.list.remove(at);
            proof {
                assert(exporters@ =~= old(exporters)@.remove(at as int));
                assert forall|i: int| registered_at(old(exporters)@, id, i) implies i == at by {
                    old(exporters).lemma_registered_once(id, i, at as int);
                }
                assert forall|j: int| !registered_at(exporters@, id, j) by {
                    if registered_at(exporters@, id, j) {
                        let k = if j < at { j } else { j + 1 };
                        assert(old(exporters).ids@[k] == id);
                        old(exporters).lemma_registered_once(id, k, at as int);
                    }
                }
            }
        },
        None => {},
    }
}

} // verus!
