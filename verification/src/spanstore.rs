//! Span stores: for each span name, a sample of the spans that finished under
//! it, the successful ones by latency range and the others by status code.

use crate::basetypes::Duration;
use crate::export::SpanData;
use crate::spanbucket::{latency_bucket, latency_range, Bucket, BucketView, LATENCY_BOUNDARIES};
use crate::status_codes::StatusCode;
use vstd::prelude::*;

verus! {

/// The capacity of the buckets of a store that is made on first use.
pub const DEFAULT_BUCKET_SIZE: usize = 10;

/// The number of latency ranges, and of latency buckets in a store.
pub const LATENCY_BUCKETS: usize = 9;

/// The number of status codes.
pub const STATUS_CODES: usize = 17;

/// The place of `code` among the status codes.
pub open spec fn code_index(code: StatusCode) -> int {
    match code {
        StatusCode::OK => 0,
        StatusCode::Cancelled => 1,
        StatusCode::Unknown => 2,
        StatusCode::InvalidArgument => 3,
        StatusCode::DeadlineExceeded => 4,
        StatusCode::NotFound => 5,
        StatusCode::AlreadyExists => 6,
        StatusCode::PermissionDenied => 7,
        StatusCode::ResourceExhausted => 8,
        StatusCode::FailedPrecondition => 9,
        StatusCode::Aborted => 10,
        StatusCode::OutOfRange => 11,
        StatusCode::Unimplemented => 12,
        StatusCode::Internal => 13,
        StatusCode::Unavailable => 14,
        StatusCode::DataLoss => 15,
        StatusCode::Unauthenticated => 16,
    }
}

/// The place of `code` among the status codes.
fn index_of_code(code: StatusCode) -> (i: usize)
    ensures
        i == code_index(code),
        i < STATUS_CODES,
{
    match code {
        StatusCode::OK => 0,
        StatusCode::Cancelled => 1,
        StatusCode::Unknown => 2,
        StatusCode::InvalidArgument => 3,
        StatusCode::DeadlineExceeded => 4,
        StatusCode::NotFound => 5,
        StatusCode::AlreadyExists => 6,
        StatusCode::PermissionDenied => 7,
        StatusCode::ResourceExhausted => 8,
        StatusCode::FailedPrecondition => 9,
        StatusCode::Aborted => 10,
        StatusCode::OutOfRange => 11,
        StatusCode::Unimplemented => 12,
        StatusCode::Internal => 13,
        StatusCode::Unavailable => 14,
        StatusCode::DataLoss => 15,
        StatusCode::Unauthenticated => 16,
    }
}

/// The status code under which a finished span is filed: its own, and
/// `Unknown` where it has none.
pub open spec fn final_code(sd: SpanData) -> StatusCode {
    match sd.status {
        Some(status) => status.code,
        None => StatusCode::Unknown,
    }
}

/// The time, in nanoseconds, that a span took: from its start to its end,
/// and none where the end is missing or not after the start.
pub open spec fn latency_of(sd: SpanData) -> u64 {
    match sd.end_time {
        Some(end) if end.0 >= sd.start_time.0 => (end.0 - sd.start_time.0) as u64,
        _ => 0,
    }
}

/// The view of a span store.
pub struct SpanStoreView {
    /// The buckets of the successful spans, one for each latency range.
    pub latency: Seq<BucketView>,
    /// The buckets of the other spans, by status code. A code has a bucket
    /// from the first span that finished with it.
    pub errors: Map<StatusCode, BucketView>,
    /// The capacity that a new bucket of `errors` gets.
    pub max_spans_per_error_bucket: nat,
}

impl SpanStoreView {
    /// The store with `LATENCY_BUCKETS` empty latency buckets of the capacity
    /// `latency_bucket_size`, and no other bucket yet.
    pub open spec fn empty(latency_bucket_size: nat, error_bucket_size: nat) -> SpanStoreView {
        SpanStoreView {
            latency: Seq::new(
                LATENCY_BUCKETS as nat,
                |i: int| BucketView::empty(latency_bucket_size),
            ),
            errors: Map::empty(),
            max_spans_per_error_bucket: error_bucket_size,
        }
    }

    /// The store after the span `sd` has finished. A span with the code `OK`
    /// goes to the bucket of its latency range. Any other goes to the bucket
    /// of its code, which is made first where the code has none.
    pub open spec fn finished(self, sd: SpanData) -> SpanStoreView {
        let code = final_code(sd);
        if code == StatusCode::OK {
            let i = latency_range(latency_of(sd));
            SpanStoreView { latency: self.latency.update(i, self.latency[i].added(sd)), ..self }
        } else {
            let bucket = if self.errors.contains_key(code) {
                self.errors[code]
            } else {
                BucketView::empty(self.max_spans_per_error_bucket)
            };
            SpanStoreView { errors: self.errors.insert(code, bucket.added(sd)), ..self }
        }
    }

    /// The store with every latency bucket resized to `latency_bucket_size`
    /// and every other bucket, those still to be made too, to
    /// `error_bucket_size`.
    pub open spec fn resized(self, latency_bucket_size: nat, error_bucket_size: nat)
        -> SpanStoreView {
        SpanStoreView {
            latency: Seq::new(
                self.latency.len(),
                |i: int| self.latency[i].resized(latency_bucket_size),
            ),
            errors: Map::new(
                |code: StatusCode| self.errors.contains_key(code),
                |code: StatusCode| self.errors[code].resized(error_bucket_size),
            ),
            max_spans_per_error_bucket: error_bucket_size,
        }
    }
}

/// The spans that have finished under one span name.
#[derive(Debug)]
pub struct SpanStore {
    // the bucket of each status code, by the place of the code
    errors: Vec<Option<Bucket>>,
    // the bucket of each latency range
    latency: Vec<Bucket>,
    max_spans_per_error_bucket: usize,
}

impl View for SpanStore {
    type V = SpanStoreView;

    closed spec fn view(&self) -> SpanStoreView {
        SpanStoreView {
            latency: Seq::new(self.latency@.len(), |i: int| self.latency@[i]@),
            errors: Map::new(
                |code: StatusCode| self.errors@[code_index(code)] is Some,
                |code: StatusCode| self.errors@[code_index(code)]->0@,
            ),
            max_spans_per_error_bucket: self.max_spans_per_error_bucket as nat,
        }
    }
}

impl SpanStore {
    /// The invariant of the store: it has a bucket for each latency range
    /// and a place for each status code, and every bucket is well formed.
    pub closed spec fn wf(&self) -> bool {
        &&& self.latency@.len() == LATENCY_BUCKETS
        &&& self.errors@.len() == STATUS_CODES
        &&& forall|i: int| 0 <= i < self.latency@.len() ==> (#[trigger] self.latency@[i]).wf()
        &&& forall|i: int|
            0 <= i < self.errors@.len() ==> ((#[trigger] self.errors@[i]) matches Some(b)
                ==> b.wf())
    }

    /// A store has `LATENCY_BUCKETS` latency buckets.
    pub proof fn lemma_latency_buckets(&self)
        requires
            self.wf(),
        ensures
            self@.latency.len() == LATENCY_BUCKETS,
    {
    }

    /// An empty store for the spans of the name `name`.
    pub fn new(name: &str, latency_bucket_size: usize, error_bucket_size: usize) -> (store: Self)
        ensures
            store.wf(),
            store@ == SpanStoreView::empty(latency_bucket_size as nat, error_bucket_size as nat),
    {
        let mut latency: Vec<Bucket> = Vec::new();
        let mut i: usize = 0;
        while i <= LATENCY_BOUNDARIES
            invariant
                i <= LATENCY_BOUNDARIES + 1,
                latency@.len() == i,
                forall|j: int|
                    0 <= j < i ==> (#[trigger] latency@[j]).wf() && latency@[j]@
                        == BucketView::empty(latency_bucket_size as nat),
            decreases LATENCY_BOUNDARIES + 1 - i,
        {
            latency.push(Bucket::new(latency_bucket_size));
            i += 1;
        }
        let mut errors: Vec<Option<Bucket>> = Vec::new();
        let mut k: usize = 0;
        while k < STATUS_CODES
            invariant
                k <= STATUS_CODES,
                errors@.len() == k,
                forall|j: int| 0 <= j < k ==> (#[trigger] errors@[j]) is None,
            decreases STATUS_CODES - k,
        {
            errors.push(None);
            k += 1;
        }
        let store = SpanStore { errors, latency, max_spans_per_error_bucket: error_bucket_size };
        proof {
            let want = SpanStoreView::empty(latency_bucket_size as nat, error_bucket_size as nat);
            assert(store@.latency =~= want.latency);
            assert(store@.errors =~= want.errors);
        }
        store
    }

    /// The bucket of the latency range `i`.
    pub fn latency(&self, i: usize) -> (bucket: &Bucket)
        requires
            self.wf(),
            i < LATENCY_BUCKETS,
        ensures
            bucket.wf(),
            bucket@ == self@.latency[i as int],
    {
        &self.latency[i]
    }

    /// The bucket of the status code `code`, if a span has finished with it.
    pub fn errors(&self, code: StatusCode) -> (r: Option<&Bucket>)
        requires
            self.wf(),
        ensures
            match r {
                Some(bucket) => bucket.wf() && self@.errors.contains_key(code) && bucket@
                    == self@.errors[code],
                None => !self@.errors.contains_key(code),
            },
    {
        self.errors[index_of_code(code)].as_ref()
    }

    /// The capacity that the bucket of a status code gets when it is made.
    pub fn max_spans_per_error_bucket(&self) -> (n: usize)
        ensures
            n == self@.max_spans_per_error_bucket,
    {
        self.max_spans_per_error_bucket
    }

    /// Resizes every bucket: see `SpanStoreView::resized`.
    pub fn resize(&mut self, latency_bucket_size: usize, error_bucket_size: usize)
        requires
            old(self).wf(),
        ensures
            final(self).wf(),
            final(self)@ == old(self)@.resized(
                latency_bucket_size as nat,
                error_bucket_size as nat,
            ),
    {
        let mut i: usize = 0;
        while i < self.latency.len()
            invariant
                i <= self.latency@.len(),
                self.latency@.len() == old(self).latency@.len(),
                self.errors == old(self).errors,
                old(self).wf(),
                forall|j: int|
                    0 <= j < i ==> (#[trigger] self.latency@[j]).wf() && self.latency@[j]@
                        == old(self).latency@[j]@.resized(latency_bucket_size as nat),
                forall|j: int|
                    i <= j < self.latency@.len() ==> #[trigger] self.latency@[j]
                        == old(self).latency@[j],
            decreases self.latency@.len() - i,
        {
            self.latency[i].resize(latency_bucket_size);
            i += 1;
        }
        let mut k: usize = 0;
        while k < self.errors.len()
            invariant
                k <= self.errors@.len(),
                self.errors@.len() == old(self).errors@.len(),
                old(self).wf(),
                forall|j: int|
                    0 <= j < self.latency@.len() ==> (#[trigger] self.latency@[j]).wf()
                        && self.latency@[j]@ == old(self).latency@[j]@.resized(
                        latency_bucket_size as nat,
                    ),
                self.latency@.len() == old(self).latency@.len(),
                forall|j: int|
                    0 <= j < k ==> match (#[trigger] self.errors@[j]) {
                        Some(b) => old(self).errors@[j] matches Some(was) && b.wf() && b@
                            == was@.resized(error_bucket_size as nat),
                        None => old(self).errors@[j] is None,
                    },
                forall|j: int|
                    k <= j < self.errors@.len() ==> #[trigger] self.errors@[j]
                        == old(self).errors@[j],
            decreases self.errors@.len() - k,
        {
            match &mut self.errors[k] {
                Some(bucket) => {
                    bucket.resize(error_bucket_size);
                },
                None => {},
            }
            k += 1;
        }
        self.max_spans_per_error_bucket = error_bucket_size;
        proof {
            let want = old(self)@.resized(latency_bucket_size as nat, error_bucket_size as nat);
            assert(self@.latency =~= want.latency);
            assert(self@.errors =~= want.errors);
        }
    }

    /// Files the finished span `sd`: see `SpanStoreView::finished`.
    pub fn finished(&mut self, sd: SpanData)
        requires
            old(self).wf(),
        ensures
            final(self).wf(),
            final(self)@ == old(self)@.finished(sd),
    {
        let latency = match sd.end_time {
            Some(end_time) => if end_time.0 >= sd.start_time.0 {
                Duration(end_time.0 - sd.start_time.0)
            } else {
                Duration(0)
            },
            None => Duration(0),
        };
        let code = match &sd.status {
            Some(status) => status.code,
            None => StatusCode::Unknown,
        };
        if code == StatusCode::OK {
            let i = latency_bucket(latency);
            self.latency[i].add(sd);
            proof {
                let want = old(self)@.finished(sd);
                assert(self@.latency =~= want.latency);
                assert(self@.errors =~= want.errors);
            }
        } else {
            let at = index_of_code(code);
            match &mut self.errors[at] {
                Some(bucket) => {
                    bucket.add(sd);
                },
                None => {
                    let mut bucket = Bucket::new(self.max_spans_per_error_bucket);
                    bucket.add(sd);
                    self.errors[at] = Some(bucket);
                },
            }
            proof {
                let want = old(self)@.finished(sd);
                assert(self@.latency =~= want.latency);
                assert forall|c: StatusCode| c != code implies code_index(c) != at by {}
                assert(self@.errors =~= want.errors);
            }
        }
    }
}

/// The span stores of a process, by span name. A store is made when its
/// name is first asked for, and stays.
#[derive(Debug)]
pub struct SpanStores {
    // the names, each once
    names: Vec<String>,
    // the store of each name, at the index of the name
    stores: Vec<SpanStore>,
}

impl View for SpanStores {
    type V = Map<Seq<char>, SpanStoreView>;

    closed spec fn view(&self) -> Map<Seq<char>, SpanStoreView> {
        Map::new(
            |name: Seq<char>| self.holds(name),
            |name: Seq<char>| self.stores@[self.position(name)]@,
        )
    }
}

impl SpanStores {
    /// The invariant of the registry: each name has one store, and every
    /// store is well formed.
    pub closed spec fn wf(&self) -> bool {
        &&& self.names@.len() == self.stores@.len()
        &&& forall|i: int, j: int|
            0 <= i < j < self.names@.len() ==> (#[trigger] self.names@[i])@
                != (#[trigger] self.names@[j])@
        &&& forall|i: int| 0 <= i < self.stores@.len() ==> (#[trigger] self.stores@[i]).wf()
    }

    spec fn holds(&self, name: Seq<char>) -> bool {
        exists|i: int| 0 <= i < self.names@.len() && (#[trigger] self.names@[i])@ == name
    }

    spec fn position(&self, name: Seq<char>) -> int {
        choose|i: int| 0 <= i < self.names@.len() && (#[trigger] self.names@[i])@ == name
    }

    proof fn lemma_position(&self, i: int)
        requires
            self.wf(),
            0 <= i < self.names@.len(),
        ensures
            self.holds(self.names@[i]@),
            self.position(self.names@[i]@) == i,
            self@.contains_key(self.names@[i]@),
            self@[self.names@[i]@] == self.stores@[i]@,
    {
    }

    /// A registry without stores.
    pub fn new() -> (stores: SpanStores)
        ensures
            stores.wf(),
            stores@ == Map::<Seq<char>, SpanStoreView>::empty(),
    {
        let stores = SpanStores { names: Vec::new(), stores: Vec::new() };
        assert(stores@ =~= Map::<Seq<char>, SpanStoreView>::empty());
        stores
    }

    /// The index of the store of `name`, if there is one.
    fn find(&self, name: &str) -> (r: Option<usize>)
        requires
            self.wf(),
        ensures
            match r {
                Some(i) => i < self.names@.len() && self.names@[i as int]@ == name@,
                None => !self.holds(name@),
            },
    {
        let wanted = name.to_owned();
        let mut i: usize = 0;
        while i < self.names.len()
            invariant
                i <= self.names@.len(),
                wanted@ == name@,
                forall|j: int| 0 <= j < i ==> (#[trigger] self.names@[j])@ != name@,
            decreases self.names@.len() - i,
        {
            if self.names[i] == wanted {
                return Some(i);
            }
            i += 1;
        }
        None
    }

    /// Makes the store of `name` where there is none yet, with buckets of
    /// the capacity `DEFAULT_BUCKET_SIZE`, and gives its index.
    fn find_or_create(&mut self, name: &str) -> (i: usize)
        requires
            old(self).wf(),
        ensures
            final(self).wf(),
            final(self)@ == with_store(old(self)@, name@),
            i < final(self).stores@.len(),
            final(self).names@[i as int]@ == name@,
    {
        match self.find(name) {
            Some(i) => {
                proof {
                    self.lemma_position(i as int);
                }
                i
            },
            None => {
                let store = SpanStore::new(name, DEFAULT_BUCKET_SIZE, DEFAULT_BUCKET_SIZE);
                let at = self.stores.len();
                self.names.push(name.to_owned());
                self.stores.push(store);
                proof {
                    assert(self.names@.drop_last() =~= old(self).names@);
                    assert(self.stores@.drop_last() =~= old(self).stores@);
                    assert(self.wf());
                    self.lemma_store_was_added(*old(self), name@);
                }
                at
            },
        }
    }

    /// Files the finished span `sd` in the store of `name`, which is made
    /// first where there is none yet.
    pub fn finished(&mut self, name: &str, sd: SpanData)
        requires
            old(self).wf(),
        ensures
            final(self).wf(),
            final(self)@ == with_finished(old(self)@, name@, sd),
    {
        let i = self.find_or_create(name);
        let ghost before = *self;
        proof {
            self.lemma_position(i as int);
        }
        self.stores[i].finished(sd);
        proof {
            assert(self.wf());
            self.lemma_other_stores_stay(before, i as int);
        }
    }

    /// Gives the buckets of the store of `name` new capacities. Where there
    /// is no store of that name yet, one is made, empty and with buckets of
    /// these capacities.
    pub fn resize(&mut self, name: &str, latency_bucket_size: usize, error_bucket_size: usize)
        requires
            old(self).wf(),
        ensures
            final(self).wf(),
            final(self)@ == with_resized(
                old(self)@,
                name@,
                latency_bucket_size as nat,
                error_bucket_size as nat,
            ),
    {
        match self.find(name) {
            Some(i) => {
                proof {
                    self.lemma_position(i as int);
                }
                self.stores[i].resize(latency_bucket_size, error_bucket_size);
                proof {
                    assert(self.wf());
                    self.lemma_other_stores_stay(*old(self), i as int);
                }
            },
            None => {
                let store = SpanStore::new(name, latency_bucket_size, error_bucket_size);
                self.names.push(name.to_owned());
                self.stores.push(store);
                proof {
                    assert(self.names@.drop_last() =~= old(self).names@);
                    assert(self.stores@.drop_last() =~= old(self).stores@);
                    assert(self.wf());
                    self.lemma_store_was_added(*old(self), name@);
                }
            },
        }
    }

    /// Where one store has changed and no name, the registry maps the name
    /// of that store to the new store and every other name as before.
    proof fn lemma_other_stores_stay(&self, was: SpanStores, i: int)
        requires
            self.wf(),
            was.wf(),
            0 <= i < self.names@.len(),
            self.names@ == was.names@,
            self.stores@.len() == was.stores@.len(),
            forall|k: int|
                0 <= k < self.stores@.len() && k != i ==> #[trigger] self.stores@[k]
                    == was.stores@[k],
        ensures
            self@ == was@.insert(self.names@[i]@, self.stores@[i]@),
    {
        let want = was@.insert(self.names@[i]@, self.stores@[i]@);
        self.lemma_position(i);
        assert forall|n: Seq<char>| self@.contains_key(n) <==> #[trigger] want.contains_key(
            n,
        ) by {
            if was.holds(n) {
                let k = was.position(n);
                assert(self.names@[k]@ == n);
            }
            if self.holds(n) {
                let k = self.position(n);
                assert(was.names@[k]@ == n);
            }
        }
        assert forall|n: Seq<char>| self@.contains_key(n) implies #[trigger] self@[n]
            == want[n] by {
            let k = self.position(n);
            assert(was.names@[k]@ == n);
            was.lemma_position(k);
            self.lemma_position(k);
        }
        assert(self@ =~= want);
    }

    /// Where a store was added under a name that had none, the registry maps
    /// that name to the new store and every other name as before.
    proof fn lemma_store_was_added(&self, was: SpanStores, name: Seq<char>)
        requires
            self.wf(),
            was.wf(),
            !was.holds(name),
            self.names@.len() == was.names@.len() + 1,
            self.names@.last()@ == name,
            self.names@.drop_last() == was.names@,
            self.stores@.drop_last() == was.stores@,
        ensures
            self@ == was@.insert(name, self.stores@.last()@),
    {
        let want = was@.insert(name, self.stores@.last()@);
        let at = was.names@.len() as int;
        self.lemma_position(at);
        assert forall|k: int| 0 <= k < at implies self.names@[k] == was.names@[k]
            && self.stores@[k] == was.stores@[k] by {
            assert(self.names@.drop_last()[k] == self.names@[k]);
            assert(self.stores@.drop_last()[k] == self.stores@[k]);
        }
        assert forall|n: Seq<char>| self@.contains_key(n) <==> #[trigger] want.contains_key(
            n,
        ) by {
            if was.holds(n) {
                let k = was.position(n);
                assert(self.names@[k]@ == n);
            }
            if self.holds(n) && n != name {
                let k = self.position(n);
                assert(was.names@[k]@ == n);
            }
        }
        assert forall|n: Seq<char>| self@.contains_key(n) implies #[trigger] self@[n]
            == want[n] by {
            if n != name {
                let k = self.position(n);
                assert(was.names@[k]@ == n);
                was.lemma_position(k);
                self.lemma_position(k);
            }
        }
        assert(self@ =~= want);
    }
}

/// The registry `stores` with a store for `name`: as it is where it has
/// one, and else with an empty store with buckets of the capacity
/// `DEFAULT_BUCKET_SIZE`.
pub open spec fn with_store(stores: Map<Seq<char>, SpanStoreView>, name: Seq<char>) -> Map<
    Seq<char>,
    SpanStoreView,
> {
    if stores.contains_key(name) {
        stores
    } else {
        stores.insert(
            name,
            SpanStoreView::empty(DEFAULT_BUCKET_SIZE as nat, DEFAULT_BUCKET_SIZE as nat),
        )
    }
}

/// The registry `stores` after the buckets of the store of `name` were given
/// the capacities `latency_bucket_size` and `error_bucket_size`; where `name`
/// has no store, it gets an empty one with buckets of these capacities.
pub open spec fn with_resized(
    stores: Map<Seq<char>, SpanStoreView>,
    name: Seq<char>,
    latency_bucket_size: nat,
    error_bucket_size: nat,
) -> Map<Seq<char>, SpanStoreView> {
    stores.insert(
        name,
        if stores.contains_key(name) {
            stores[name].resized(latency_bucket_size, error_bucket_size)
        } else {
            SpanStoreView::empty(latency_bucket_size, error_bucket_size)
        },
    )
}

/// The registry `stores` after the span `sd` has finished under `name`.
pub open spec fn with_finished(
    stores: Map<Seq<char>, SpanStoreView>,
    name: Seq<char>,
    sd: SpanData,
) -> Map<Seq<char>, SpanStoreView> {
    with_store(stores, name).insert(name, with_store(stores, name)[name].finished(sd))
}

/// The store of `name`, if there is one.
pub fn span_store_for_name<'a>(stores: &'a SpanStores, name: &str) -> (r: Option<&'a SpanStore>)
    requires
        stores.wf(),
    ensures
        match r {
            Some(store) => stores@.contains_key(name@) && store@ == stores@[name@] && store.wf(),
            None => !stores@.contains_key(name@),
        },
{
    match stores.find(name) {
        Some(i) => {
            proof {
                stores.lemma_position(i as int);
            }
            Some(&stores.stores[i])
        },
        None => None,
    }
}

/// The store of `name`. Where there is none yet, one is made, empty and with
/// buckets of the capacity `DEFAULT_BUCKET_SIZE`; no other store changes.
pub fn span_store_for_name_create_if_new<'a>(stores: &'a mut SpanStores, name: &str) -> (r:
    &'a SpanStore)
    requires
        old(stores).wf(),
    ensures
        final(stores).wf(),
        final(stores)@ == with_store(old(stores)@, name@),
        r@ == final(stores)@[name@],
        r.wf(),
{
    let i = stores.find_or_create(name);
    proof {
        stores.lemma_position(i as int);
    }
    &stores.stores[i]
}

} // verus!
