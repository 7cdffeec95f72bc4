//! The vendor trace-state list: a bounded, ordered list of validated
//! key-value pairs that travels with a span context.
//!
//! Keys and values are checked byte by byte when they are built, so every
//! `Key` and every `Value` that exists is well formed. A `Tracestate` lists its
//! entries most recent first and never holds a key twice.

use vstd::prelude::*;
use vstd::string::StringSliceAdditionalSpecFns;
use vstd::utf8::encode_utf8;

verus! {

/// The longest key, in bytes.
pub const KEY_MAX_SIZE: usize = 256;

/// The longest value, in bytes.
pub const VALUE_MAX_SIZE: usize = 256;

/// The largest number of entries in one `Tracestate`.
pub const MAX_KEY_VALUE_PAIRS: usize = 32;

/// The view of one entry: the characters of its key and of its value.
pub type EntryView = (Seq<char>, Seq<char>);

/// `a` to `z`.
pub open spec fn is_lowercase_letter(b: u8) -> bool {
    0x61 <= b <= 0x7a
}

/// A byte that may follow the first one of a key: `a` to `z`, `0` to `9`,
/// `_`, `-`, `*` or `/`.
pub open spec fn is_key_byte(b: u8) -> bool {
    ||| is_lowercase_letter(b)
    ||| 0x30 <= b <= 0x39
    ||| b == 0x5f
    ||| b == 0x2d
    ||| b == 0x2a
    ||| b == 0x2f
}

/// A lower-case letter followed by at most `max_rest` key bytes.
pub open spec fn is_key_part(s: Seq<u8>, max_rest: int) -> bool {
    &&& 1 <= s.len() <= max_rest + 1
    &&& is_lowercase_letter(s[0])
    &&& forall|i: int| 1 <= i < s.len() ==> is_key_byte(#[trigger] s[i])
}

/// A key without a vendor: 1 to 256 bytes.
pub open spec fn is_simple_key(s: Seq<u8>) -> bool {
    is_key_part(s, 255)
}

/// `s` is a tenant of at most 241 bytes, an `@` at index `at`, and a vendor
/// of at most 14 bytes.
pub open spec fn is_vendor_key_at(s: Seq<u8>, at: int) -> bool {
    &&& 0 <= at < s.len()
    &&& s[at] == 0x40
    &&& is_key_part(s.subrange(0, at), 240)
    &&& is_key_part(s.subrange(at + 1, s.len() as int), 13)
}

/// A key of the form `tenant@vendor`.
pub open spec fn is_vendor_key(s: Seq<u8>) -> bool {
    exists|at: int| is_vendor_key_at(s, at)
}

/// The bytes of a well-formed key.
pub open spec fn is_valid_key(s: Seq<u8>) -> bool {
    is_simple_key(s) || is_vendor_key(s)
}

/// A printable ASCII byte other than `,` and `=`.
pub open spec fn is_value_byte(b: u8) -> bool {
    0x20 <= b <= 0x7e && b != 0x2c && b != 0x3d
}

/// The bytes of a well-formed value: 1 to 256 value bytes, the last of which
/// is not a space.
pub open spec fn is_valid_value(s: Seq<u8>) -> bool {
    &&& 1 <= s.len() <= 256
    &&& forall|i: int| 0 <= i < s.len() ==> is_value_byte(#[trigger] s[i])
    &&& s[s.len() - 1] != 0x20
}

/// No well-formed key is longer than `KEY_MAX_SIZE` bytes.
pub proof fn lemma_valid_key_len(s: Seq<u8>)
    requires
        is_valid_key(s),
    ensures
        1 <= s.len() <= KEY_MAX_SIZE,
{
    if is_vendor_key(s) {
        let at = choose|at: int| is_vendor_key_at(s, at);
        assert(s.subrange(0, at).len() == at);
        assert(s.subrange(at + 1, s.len() as int).len() == s.len() - at - 1);
    }
}

/// A key with a byte that is neither a key byte nor `@` is not well formed.
pub proof fn lemma_foreign_byte_spoils_key(s: Seq<u8>, i: int)
    requires
        0 <= i < s.len(),
        !is_key_byte(s[i]),
        s[i] != 0x40,
    ensures
        !is_valid_key(s),
{
    if is_vendor_key(s) {
        let at = choose|at: int| is_vendor_key_at(s, at);
        let head = s.subrange(0, at);
        let tail = s.subrange(at + 1, s.len() as int);
        if i < at {
            assert(head[i] == s[i]);
        } else {
            assert(tail[i - at - 1] == s[i]);
        }
    }
}

/// A well-formed key is not empty and starts with a lower-case letter.
pub proof fn lemma_key_starts_with_letter(s: Seq<u8>)
    requires
        is_valid_key(s),
    ensures
        s.len() > 0,
        is_lowercase_letter(s[0]),
{
    if is_vendor_key(s) {
        let at = choose|at: int| is_vendor_key_at(s, at);
        assert(s.subrange(0, at)[0] == s[0]);
    }
}

/// Why a key was refused.
#[derive(Clone, Eq, PartialEq, Ord, PartialOrd, Hash, Debug)]
pub enum KeyValidationError {
    ExceedsMaxSize,
    DoesNotMatchRegex,
}

/// Why a value was refused.
#[derive(Clone, Eq, PartialEq, Ord, PartialOrd, Hash, Debug)]
pub enum ValueValidationError {
    ExceedsMaxSize,
    DoesNotMatchRegex,
}

/// Says whether `b[from..to]` is a lower-case letter followed by at most
/// `max_rest` key bytes.
fn key_part_ok(b: &[u8], from: usize, to: usize, max_rest: usize) -> (ok: bool)
    requires
        from <= to <= b@.len(),
        max_rest < usize::MAX,
    ensures
        ok == is_key_part(b@.subrange(from as int, to as int), max_rest as int),
{
    let ghost s = b@.subrange(from as int, to as int);
    if to == from || to - from > max_rest + 1 {
        return false;
    }
    let first = b[from];
    assert(first == s[0]);
    if !(first >= 0x61 && first <= 0x7a) {
        return false;
    }
    let mut i: usize = from + 1;
    while i < to
        invariant
            from < i <= to <= b@.len(),
            s == b@.subrange(from as int, to as int),
            forall|j: int| 1 <= j < i - from ==> is_key_byte(#[trigger] s[j]),
        decreases to - i,
    {
        let c = b[i];
        assert(c == s[i - from]);
        let ok = (c >= 0x61 && c <= 0x7a) || (c >= 0x30 && c <= 0x39) || c == 0x5f || c == 0x2d
            || c == 0x2a || c == 0x2f;
        if !ok {
            return false;
        }
        i += 1;
    }
    true
}

/// The index of the first `@` in `b`, if there is one.
fn first_at_sign(b: &[u8]) -> (r: Option<usize>)
    ensures
        match r {
            Some(at) => at < b@.len() && b@[at as int] == 0x40 && forall|j: int|
                0 <= j < at ==> b@[j] != 0x40,
            None => forall|j: int| 0 <= j < b@.len() ==> b@[j] != 0x40,
        },
{
    let mut i: usize = 0;
    while i < b.len()
        invariant
            i <= b@.len(),
            forall|j: int| 0 <= j < i ==> b@[j] != 0x40,
        decreases b@.len() - i,
    {
        if b[i] == 0x40 {
            return Some(i);
        }
        i += 1;
    }
    None
}

/// Says whether `b` holds a well-formed key.
pub fn is_key(b: &[u8]) -> (ok: bool)
    ensures
        ok == is_valid_key(b@),
{
    let n = b.len();
    match first_at_sign(b) {
        None => {
            let ok = key_part_ok(b, 0, n, 255);
            proof {
                assert(b@.subrange(0, n as int) =~= b@);
                assert(!is_vendor_key(b@));
            }
            ok
        },
        Some(at) => {
            let ok = key_part_ok(b, 0, at, 240) && key_part_ok(b, at + 1, n, 13);
            proof {
                assert(!is_simple_key(b@)) by {
                    assert(!is_key_byte(b@[at as int]));
                }
                assert(ok == is_vendor_key_at(b@, at as int));
                assert forall|other: int| is_vendor_key_at(b@, other) implies other == at by {
                    if other > at {
                        assert(b@.subrange(0, other)[at as int] == b@[at as int]);
                    }
                }
            }
            ok
        },
    }
}

/// Says whether `b` holds a well-formed value.
pub fn is_value(b: &[u8]) -> (ok: bool)
    ensures
        ok == is_valid_value(b@),
{
    let n = b.len();
    if n == 0 || n > 256 {
        return false;
    }
    let mut i: usize = 0;
    while i < n
        invariant
            i <= n == b@.len(),
            forall|j: int| 0 <= j < i ==> is_value_byte(#[trigger] b@[j]),
        decreases n - i,
    {
        let c = b[i];
        if !(c >= 0x20 && c <= 0x7e && c != 0x2c && c != 0x3d) {
            return false;
        }
        i += 1;
    }
    b[n - 1] != 0x20
}

/// The key of a trace-state entry: a lower-case letter followed by up to 255
/// lower-case letters, digits, `_`, `-`, `*` and `/`, or a tenant of that
/// form (at most 241 bytes), an `@`, and a vendor of that form (at most 14
/// bytes).
#[derive(Eq, PartialEq, Ord, PartialOrd, Hash, Debug)]
pub struct Key(String);

impl Clone for Key {
    fn clone(&self) -> (r: Self)
        ensures
            r == *self,
    {
        proof {
            use_type_invariant(self);
        }
        Key(self.0.clone())
    }
}

impl View for Key {
    type V = Seq<char>;

    closed spec fn view(&self) -> Seq<char> {
        self.0@
    }
}

impl Key {
    #[verifier::type_invariant]
    spec fn well_formed(self) -> bool {
        is_valid_key(encode_utf8(self.0@))
    }

    /// Checks `key` and wraps it. A key of more than `KEY_MAX_SIZE` bytes is
    /// refused as too long, whatever it holds; a shorter one is refused when it
    /// is not well formed.
    pub fn try_new(key: &str) -> (r: Result<Key, KeyValidationError>)
        ensures
            match r {
                Ok(k) => k@ == key@ && key.spec_bytes().len() <= KEY_MAX_SIZE && is_valid_key(
                    key.spec_bytes(),
                ),
                Err(KeyValidationError::ExceedsMaxSize) => key.spec_bytes().len() > KEY_MAX_SIZE,
                Err(KeyValidationError::DoesNotMatchRegex) => key.spec_bytes().len() <= KEY_MAX_SIZE
                    && !is_valid_key(key.spec_bytes()),
            },
    {
        let bytes = key.as_bytes();
        if bytes.len() > KEY_MAX_SIZE {
            Err(KeyValidationError::ExceedsMaxSize)
        } else if !is_key(bytes) {
            Err(KeyValidationError::DoesNotMatchRegex)
        } else {
            Ok(Key(key.to_owned()))
        }
    }

    /// The text of the key.
    pub fn as_str(&self) -> (s: &str)
        ensures
            s@ == self@,
            is_valid_key(s.spec_bytes()),
    {
        proof {
            use_type_invariant(self);
        }
        self.0.as_str()
    }

    /// Says whether the two keys hold the same text.
    pub fn same_as(&self, other: &Key) -> (r: bool)
        ensures
            r == (self@ == other@),
    {
        self.0 == other.0
    }
}

/// The value of a trace-state entry: 1 to 256 printable ASCII characters
/// other than `,` and `=`, the last of them not a space.
#[derive(Eq, PartialEq, Ord, PartialOrd, Hash, Debug)]
pub struct Value(String);

impl Clone for Value {
    fn clone(&self) -> (r: Self)
        ensures
            r == *self,
    {
        proof {
            use_type_invariant(self);
        }
        Value(self.0.clone())
    }
}

impl View for Value {
    type V = Seq<char>;

    closed spec fn view(&self) -> Seq<char> {
        self.0@
    }
}

impl Value {
    #[verifier::type_invariant]
    spec fn well_formed(self) -> bool {
        is_valid_value(encode_utf8(self.0@))
    }

    /// Checks `value` and wraps it. A value of more than `VALUE_MAX_SIZE` bytes
    /// is refused as too long, whatever it holds; a shorter one is refused when
    /// it is not well formed.
    pub fn try_new(value: &str) -> (r: Result<Value, ValueValidationError>)
        ensures
            match r {
                Ok(v) => v@ == value@ && value.spec_bytes().len() <= VALUE_MAX_SIZE
                    && is_valid_value(value.spec_bytes()),
                Err(ValueValidationError::ExceedsMaxSize) => value.spec_bytes().len()
                    > VALUE_MAX_SIZE,
                Err(ValueValidationError::DoesNotMatchRegex) => value.spec_bytes().len()
                    <= VALUE_MAX_SIZE && !is_valid_value(value.spec_bytes()),
            },
    {
        let bytes = value.as_bytes();
        if bytes.len() > VALUE_MAX_SIZE {
            Err(ValueValidationError::ExceedsMaxSize)
        } else if !is_value(bytes) {
            Err(ValueValidationError::DoesNotMatchRegex)
        } else {
            Ok(Value(value.to_owned()))
        }
    }

    /// The text of the value.
    pub fn as_str(&self) -> (s: &str)
        ensures
            s@ == self@,
            is_valid_value(s.spec_bytes()),
    {
        proof {
            use_type_invariant(self);
        }
        self.0.as_str()
    }
}

/// One key-value pair of a `Tracestate`.
pub type Entry = (Key, Value);

/// Why a `Tracestate` could not be built.
#[derive(Eq, PartialEq, Ord, PartialOrd, Hash, Debug)]
pub enum Error {
    MaxKeyValuePairsExceeded,
    InvalidEntry { entry: Entry },
    DuplicateKey { duplicate: Key },
}

impl Clone for Error {
    fn clone(&self) -> (r: Self)
        ensures
            r == *self,
    {
        match self {
            Error::MaxKeyValuePairsExceeded => Error::MaxKeyValuePairsExceeded,
            Error::InvalidEntry { entry } => Error::InvalidEntry {
                entry: (entry.0.clone(), entry.1.clone()),
            },
            Error::DuplicateKey { duplicate } => Error::DuplicateKey {
                duplicate: duplicate.clone(),
            },
        }
    }
}

/// The views of the entries of `s`, in the same order.
pub open spec fn entries_view(s: Seq<Entry>) -> Seq<EntryView> {
    Seq::new(s.len(), |i: int| (s[i].0@, s[i].1@))
}

/// Some entry of `s` has the key `k`.
pub open spec fn has_key(s: Seq<EntryView>, k: Seq<char>) -> bool {
    exists|i: int| 0 <= i < s.len() && (#[trigger] s[i]).0 == k
}

/// The key of entry `j` already occurs before it.
pub open spec fn repeats_at(s: Seq<EntryView>, j: int) -> bool {
    0 <= j < s.len() && has_key(s.subrange(0, j), s[j].0)
}

/// Entry `j` is the first one whose key already occurs before it.
pub open spec fn first_repeat(s: Seq<EntryView>, j: int) -> bool {
    repeats_at(s, j) && forall|k: int| 0 <= k < j ==> !repeats_at(s, k)
}

/// No key occurs twice in `s`.
pub open spec fn keys_distinct(s: Seq<EntryView>) -> bool {
    forall|i: int, j: int| 0 <= i < j < s.len() ==> (#[trigger] s[i]).0 != (#[trigger] s[j]).0
}

/// The entries whose key `new` does not hold.
pub open spec fn kept(new: Seq<EntryView>) -> spec_fn(EntryView) -> bool {
    |e: EntryView| !has_key(new, e.0)
}

/// The list that adding `new` to `base` gives: the new entries in their
/// order, then the entries of `base` whose key was not given again, in their
/// order.
pub open spec fn merged(base: Seq<EntryView>, new: Seq<EntryView>) -> Seq<EntryView> {
    new + base.filter(kept(new))
}

/// Where no key of `new` occurs in `base`, merging keeps every entry: the
/// result is `new` followed by `base`. So a list of `MAX_KEY_VALUE_PAIRS`
/// entries takes no entry with a further key.
pub proof fn lemma_merged_disjoint(base: Seq<EntryView>, new: Seq<EntryView>)
    requires
        forall|i: int| 0 <= i < base.len() ==> !has_key(new, (#[trigger] base[i]).0),
    ensures
        merged(base, new) == new + base,
        merged(base, new).len() == new.len() + base.len(),
    decreases base.len(),
{
    reveal(Seq::filter);
    if base.len() > 0 {
        let front = base.drop_last();
        assert forall|i: int| 0 <= i < front.len() implies !has_key(
            new,
            (#[trigger] front[i]).0,
        ) by {
            assert(front[i] == base[i]);
        }
        lemma_merged_disjoint(front, new);
        assert(kept(new)(base.last()));
        assert(base.filter(kept(new)) == front.filter(kept(new)).push(base.last()));
        assert(new + front.filter(kept(new)) == new + front);
        assert(front.filter(kept(new)) =~= (new + front).subrange(
            new.len() as int,
            (new.len() + front.len()) as int,
        ));
        assert(front.filter(kept(new)) =~= front);
        assert(front.push(base.last()) =~= base);
    } else {
        assert(base.filter(kept(new)) =~= base);
    }
}

/// The merged list holds the keys of both lists and no other; the entries of
/// `new` stand in it as they are, so a key that is given again has its new
/// value, in its new place.
pub proof fn lemma_merged_keys(base: Seq<EntryView>, new: Seq<EntryView>, k: Seq<char>)
    ensures
        has_key(merged(base, new), k) <==> has_key(new, k) || has_key(base, k),
        forall|i: int| 0 <= i < new.len() ==> merged(base, new)[i] == new[i],
        forall|i: int|
            new.len() <= i < merged(base, new).len() ==> !has_key(
                new,
                (#[trigger] merged(base, new)[i]).0,
            ),
{
    broadcast use vstd::seq_lib::group_filter_ensures;

    let rest = base.filter(kept(new));
    let all = merged(base, new);
    lemma_filter_keeps_order(base, kept(new));
    assert forall|i: int| new.len() <= i < all.len() implies !has_key(
        new,
        (#[trigger] all[i]).0,
    ) by {
        assert(all[i] == rest[i - new.len()]);
        assert(kept(new)(rest[i - new.len()]));
    }
    if has_key(all, k) {
        let i = choose|i: int| 0 <= i < all.len() && (#[trigger] all[i]).0 == k;
        if i < new.len() {
            assert(new[i].0 == k);
        } else {
            let at = origin_index(base, kept(new), i - new.len());
            assert(all[i] == rest[i - new.len()]);
            assert(base[at].0 == k);
        }
    }
    if has_key(new, k) {
        let i = choose|i: int| 0 <= i < new.len() && (#[trigger] new[i]).0 == k;
        assert(all[i].0 == k);
    } else if has_key(base, k) {
        let i = choose|i: int| 0 <= i < base.len() && (#[trigger] base[i]).0 == k;
        assert(kept(new)(base[i]));
        assert(rest.contains(base[i]));
        let j = choose|j: int| 0 <= j < rest.len() && rest[j] == base[i];
        assert(all[new.len() + j].0 == k);
    }
}

/// Merging into a list without repeated keys a list without repeated keys
/// gives one: every key of the result occurs once.
pub proof fn lemma_merged_distinct(base: Seq<EntryView>, new: Seq<EntryView>)
    requires
        keys_distinct(base),
        keys_distinct(new),
    ensures
        keys_distinct(merged(base, new)),
{
    let rest = base.filter(kept(new));
    let all = merged(base, new);
    broadcast use vstd::seq_lib::group_filter_ensures;

    lemma_filter_keeps_order(base, kept(new));
    assert forall|i: int, j: int| 0 <= i < j < all.len() implies (#[trigger] all[i]).0
        != (#[trigger] all[j]).0 by {
        if j < new.len() {
        } else if i < new.len() {
            let e = rest[j - new.len()];
            assert(all[j] == e);
            assert(kept(new)(e));
            assert(new[i] == all[i]);
        } else {
            let a = i - new.len();
            let b = j - new.len();
            assert(all[i] == rest[a] && all[j] == rest[b]);
            let x = origin_index(base, kept(new), a);
            let y = origin_index(base, kept(new), b);
            assert(base[x] == rest[a] && base[y] == rest[b] && x < y);
        }
    }
}

/// The index in `s` of the entry that stands at index `i` of `s.filter(p)`.
pub closed spec fn origin_index(s: Seq<EntryView>, p: spec_fn(EntryView) -> bool, i: int) -> int
    decreases s.len(),
{
    if s.len() == 0 {
        0
    } else if p(s.last()) && i == s.drop_last().filter(p).len() {
        s.len() - 1
    } else {
        origin_index(s.drop_last(), p, i)
    }
}

/// Filtering keeps the entries in their order: entry `i` of the filtered list
/// comes from index `origin_index(s, p, i)` of `s`, and a later entry from a
/// later index.
pub proof fn lemma_filter_keeps_order(s: Seq<EntryView>, p: spec_fn(EntryView) -> bool)
    ensures
        forall|i: int|
            0 <= i < s.filter(p).len() ==> 0 <= #[trigger] origin_index(s, p, i) < s.len()
                && s[origin_index(s, p, i)] == s.filter(p)[i],
        forall|i: int, j: int|
            0 <= i < j < s.filter(p).len() ==> #[trigger] origin_index(s, p, i)
                < #[trigger] origin_index(s, p, j),
    decreases s.len(),
{
    reveal(Seq::filter);
    if s.len() > 0 {
        let front = s.drop_last();
        lemma_filter_keeps_order(front, p);
        let f = s.filter(p);
        let ff = front.filter(p);
        assert forall|i: int| 0 <= i < f.len() implies 0 <= #[trigger] origin_index(s, p, i)
            < s.len() && s[origin_index(s, p, i)] == f[i] by {
            if p(s.last()) && i == ff.len() {
            } else {
                assert(origin_index(s, p, i) == origin_index(front, p, i));
                assert(f[i] == ff[i]);
            }
        }
        assert forall|i: int, j: int| 0 <= i < j < f.len() implies #[trigger] origin_index(
            s,
            p,
            i,
        ) < #[trigger] origin_index(s, p, j) by {
            assert(origin_index(s, p, i) == origin_index(front, p, i));
            if p(s.last()) && j == ff.len() {
            } else {
                assert(origin_index(s, p, j) == origin_index(front, p, j));
            }
        }
    }
}

/// Says whether one of the first `upto` entries has the key `key`.
fn holds_key(entries: &[Entry], upto: usize, key: &Key) -> (r: bool)
    requires
        upto <= entries@.len(),
    ensures
        r == has_key(entries_view(entries@).subrange(0, upto as int), key@),
{
    let ghost head = entries_view(entries@).subrange(0, upto as int);
    let mut i: usize = 0;
    while i < upto
        invariant
            i <= upto <= entries@.len(),
            head == entries_view(entries@).subrange(0, upto as int),
            forall|j: int| 0 <= j < i ==> (#[trigger] head[j]).0 != key@,
        decreases upto - i,
    {
        if entries[i].0.same_as(key) {
            assert(head[i as int].0 == key@);
            return true;
        }
        i += 1;
    }
    false
}

/// The key of the first entry whose key an earlier entry already has, if
/// there is one.
pub fn contains_duplicate_key(entries: &[Entry]) -> (r: Option<Key>)
    ensures
        match r {
            Some(d) => exists|j: int|
                first_repeat(entries_view(entries@), j) && d@ == entries_view(entries@)[j].0,
            None => keys_distinct(entries_view(entries@)),
        },
{
    let ghost new = entries_view(entries@);
    let mut j: usize = 0;
    while j < entries.len()
        invariant
            j <= entries@.len(),
            new == entries_view(entries@),
            forall|k: int| 0 <= k < j ==> !repeats_at(new, k),
        decreases entries@.len() - j,
    {
        if holds_key(entries, j, &entries[j].0) {
            let d = entries[j].0.clone();
            assert(first_repeat(new, j as int) && d@ == new[j as int].0);
            return Some(d);
        }
        j += 1;
    }
    proof {
        assert forall|a: int, b: int| 0 <= a < b < new.len() implies (#[trigger] new[a]).0
            != (#[trigger] new[b]).0 by {
            if new[a].0 == new[b].0 {
                assert(new.subrange(0, b)[a] == new[a]);
                assert(repeats_at(new, b));
            }
        }
    }
    None
}

/// An ordered list of at most `MAX_KEY_VALUE_PAIRS` entries, most recent
/// first, in which no key occurs twice. It never changes: a new list is made
/// from an earlier one and the entries to add.
#[derive(Eq, PartialEq, Ord, PartialOrd, Hash, Debug)]
pub struct Tracestate(Vec<Entry>);

impl View for Tracestate {
    type V = Seq<EntryView>;

    closed spec fn view(&self) -> Seq<EntryView> {
        entries_view(self.0@)
    }
}

impl Clone for Tracestate {
    fn clone(&self) -> (r: Self)
        ensures
            r@ == self@,
    {
        proof {
            use_type_invariant(self);
        }
        let mut list: Vec<Entry> = Vec::new();
        let mut i: usize = 0;
        while i < self.0.len()
            invariant
                i <= self.0@.len(),
                list@.len() == i,
                forall|j: int| 0 <= j < i ==> list@[j] == self.0@[j],
            decreases self.0@.len() - i,
        {
            list.push((self.0[i].0.clone(), self.0[i].1.clone()));
            i += 1;
        }
        assert(entries_view(list@) =~= entries_view(self.0@));
        Tracestate(list)
    }
}

impl Default for Tracestate {
    fn default() -> (r: Self)
        ensures
            r@ == Seq::<EntryView>::empty(),
    {
        let list: Vec<Entry> = Vec::new();
        assert(entries_view(list@) =~= Seq::<EntryView>::empty());
        Tracestate(list)
    }
}

impl Tracestate {
    #[verifier::type_invariant]
    spec fn well_formed(self) -> bool {
        keys_distinct(entries_view(self.0@)) && self.0@.len() <= MAX_KEY_VALUE_PAIRS
    }

    /// Builds the list that holds `entries` and, after them, the entries of
    /// `parent` whose keys `entries` does not give again. It fails where
    /// `entries` holds a key twice, naming the first key that repeats, and
    /// where the list would hold more than `MAX_KEY_VALUE_PAIRS` entries.
    /// `parent` is never changed.
    pub fn try_new(parent: Option<&Tracestate>, entries: &[Entry]) -> (r: Result<Tracestate, Error>)
        ensures
            ({
                let base = match parent {
                    Some(p) => p@,
                    None => Seq::<EntryView>::empty(),
                };
                let new = entries_view(entries@);
                match r {
                    Ok(ts) => keys_distinct(new) && merged(base, new).len() <= MAX_KEY_VALUE_PAIRS
                        && ts@ == merged(base, new),
                    Err(Error::DuplicateKey { duplicate }) => exists|j: int|
                        first_repeat(new, j) && duplicate@ == new[j].0,
                    Err(Error::MaxKeyValuePairsExceeded) => keys_distinct(new) && merged(
                        base,
                        new,
                    ).len() > MAX_KEY_VALUE_PAIRS,
                    Err(Error::InvalidEntry { .. }) => false,
                }
            }),
    {
        if let Some(duplicate) = contains_duplicate_key(entries) {
            return Err(Error::DuplicateKey { duplicate });
        }
        let mut tracestate = match parent {
            Some(p) => p.clone(),
            None => Tracestate::default(),
        };
        match tracestate.add(entries) {
            Ok(()) => Ok(tracestate),
            Err(e) => Err(e),
        }
    }

    /// Puts `entries` in front of the list, and takes out the entries whose
    /// keys they give again. Where the list would hold more than
    /// `MAX_KEY_VALUE_PAIRS` entries, it fails and the list stays as it is.
    fn add(&mut self, entries: &[Entry]) -> (r: Result<(), Error>)
        requires
            keys_distinct(entries_view(entries@)),
        ensures
            match r {
                Ok(()) => final(self)@ == merged(old(self)@, entries_view(entries@))
                    && final(self)@.len() <= MAX_KEY_VALUE_PAIRS,
                Err(Error::MaxKeyValuePairsExceeded) => final(self)@ == old(self)@ && merged(
                    old(self)@,
                    entries_view(entries@),
                ).len() > MAX_KEY_VALUE_PAIRS,
                Err(_) => false,
            },
    {
        proof {
            use_type_invariant(&*self);
        }
        let ghost new = entries_view(entries@);
        let ghost base = self@;
        let mut combined: Vec<Entry> = Vec::new();
        let mut i: usize = 0;
        while i < entries.len()
            invariant
                i <= entries@.len(),
                new == entries_view(entries@),
                entries_view(combined@) == new.subrange(0, i as int),
            decreases entries@.len() - i,
        {
            let ghost before = entries_view(combined@);
            combined.push((entries[i].0.clone(), entries[i].1.clone()));
            assert(entries_view(combined@) =~= before.push(new[i as int]));
            assert(new.subrange(0, i + 1) =~= new.subrange(0, i as int).push(new[i as int]));
            i += 1;
        }
        proof {
            reveal(Seq::filter);
            assert(new.subrange(0, i as int) =~= new);
            assert(base.subrange(0, 0).filter(kept(new)) =~= Seq::<EntryView>::empty());
            assert(new + Seq::<EntryView>::empty() =~= new);
        }
        let mut k: usize = 0;
        while k < self.0.len()
            invariant
                k <= self.0@.len(),
                *self == *old(self),
                base == entries_view(self.0@),
                new == entries_view(entries@),
                entries_view(combined@) == new + base.subrange(0, k as int).filter(kept(new)),
            decreases self.0@.len() - k,
        {
            let ghost head = base.subrange(0, k as int);
            let ghost before = entries_view(combined@);
            proof {
                assert(base.subrange(0, k + 1) =~= head.push(base[k as int]));
                Seq::lemma_filter_push(head, base[k as int], kept(new));
            }
            let given_again = holds_key(entries, entries.len(), &self.0[k].0);
            assert(new.subrange(0, entries@.len() as int) =~= new);
            if !given_again {
                combined.push((self.0[k].0.clone(), self.0[k].1.clone()));
                assert(entries_view(combined@) =~= before.push(base[k as int]));
                assert(kept(new)(base[k as int]));
                assert(before.push(base[k as int]) =~= new + head.filter(kept(new)).push(
                    base[k as int],
                ));
            } else {
                assert(!kept(new)(base[k as int]));
            }
            k += 1;
        }
        assert(base.subrange(0, k as int) =~= base);
        if combined.len() > MAX_KEY_VALUE_PAIRS {
            Err(Error::MaxKeyValuePairsExceeded)
        } else {
            proof {
                lemma_merged_distinct(base, new);
            }
            self.0 = combined;
            Ok(())
        }
    }

    /// The entries, most recent first.
    pub fn entries(&self) -> (r: &Vec<Entry>)
        ensures
            entries_view(r@) == self@,
            keys_distinct(self@),
            self@.len() <= MAX_KEY_VALUE_PAIRS,
    {
        proof {
            use_type_invariant(self);
        }
        &self.0
    }

    /// The value that stands under `key`, if the list holds the key.
    pub fn get(&self, key: &Key) -> (r: Option<&Value>)
        ensures
            match r {
                Some(v) => exists|i: int|
                    0 <= i < self@.len() && (#[trigger] self@[i]).0 == key@ && self@[i].1 == v@,
                None => !has_key(self@, key@),
            },
    {
        let mut i: usize = 0;
        while i < self.0.len()
            invariant
                i <= self.0@.len(),
                forall|j: int| 0 <= j < i ==> (#[trigger] self@[j]).0 != key@,
            decreases self.0@.len() - i,
        {
            if self.0[i].0.same_as(key) {
                assert(self@[i as int].0 == key@ && self@[i as int].1 == self.0@[i as int].1@);
                return Some(&self.0[i].1);
            }
            i += 1;
        }
        None
    }
}

} // verus!
