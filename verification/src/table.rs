//! A keyed table of configuration entries, kept in the order of its keys.
//!
//! The configuration keys its allowlist and its profiles by name, and walks
//! them in key order; `Table` holds the entries in a vector that stays sorted
//! by key (byte-wise, as `String`'s order goes), so that no key occurs twice.
//! (vstd specifies `BTreeMap` only for key types shown to obey its order laws,
//! and `String` is not among them, so a `BTreeMap<String, _>` would be opaque.)

use vstd::prelude::*;

verus! {

/// Strict lexicographic order on byte strings, as `[u8]`'s `<` decides.
pub open spec fn bytes_lt(a: Seq<u8>, b: Seq<u8>) -> bool
    decreases a.len(),
{
    if a.len() == 0 {
        b.len() > 0
    } else if b.len() == 0 {
        false
    } else if a[0] != b[0] {
        a[0] < b[0]
    } else {
        bytes_lt(a.drop_first(), b.drop_first())
    }
}

/// The order of `String` keys: byte-wise on their UTF-8 encodings.
pub open spec fn key_lt(a: Seq<char>, b: Seq<char>) -> bool {
    bytes_lt(vstd::utf8::encode_utf8(a), vstd::utf8::encode_utf8(b))
}

/// Keys strictly increase along the sequence.
pub open spec fn strictly_sorted<V>(s: Seq<(Seq<char>, V)>) -> bool {
    forall|i: int, j: int| 0 <= i < j < s.len() ==> key_lt(#[trigger] s[i].0, #[trigger] s[j].0)
}

/// Some entry has key `k`.
pub open spec fn contains_key<V>(s: Seq<(Seq<char>, V)>, k: Seq<char>) -> bool {
    exists|i: int| 0 <= i < s.len() && #[trigger] s[i].0 == k
}

/// The value of the first entry with key `k` from index `i` on, if any.
pub open spec fn lookup_from<V>(s: Seq<(Seq<char>, V)>, k: Seq<char>, i: int) -> Option<V>
    decreases s.len() - i,
{
    if i < 0 || i >= s.len() {
        None
    } else if s[i].0 == k {
        Some(s[i].1)
    } else {
        lookup_from(s, k, i + 1)
    }
}

/// The value stored under `k`, if any.
pub open spec fn lookup<V>(s: Seq<(Seq<char>, V)>, k: Seq<char>) -> Option<V> {
    lookup_from(s, k, 0)
}

/// The entry `(k, v)` is present.
pub open spec fn has_entry<V>(s: Seq<(Seq<char>, V)>, k: Seq<char>, v: V) -> bool {
    exists|i: int| 0 <= i < s.len() && #[trigger] s[i] == (k, v)
}

/// No byte string is below itself.
pub proof fn lemma_bytes_lt_irreflexive(a: Seq<u8>)
    ensures
        !bytes_lt(a, a),
    decreases a.len(),
{
    if a.len() > 0 {
        lemma_bytes_lt_irreflexive(a.drop_first());
    }
}

/// The byte order is transitive.
pub proof fn lemma_bytes_lt_transitive(a: Seq<u8>, b: Seq<u8>, c: Seq<u8>)
    requires
        bytes_lt(a, b),
        bytes_lt(b, c),
    ensures
        bytes_lt(a, c),
    decreases a.len(),
{
    if a.len() > 0 && b.len() > 0 && c.len() > 0 && a[0] == b[0] && b[0] == c[0] {
        lemma_bytes_lt_transitive(a.drop_first(), b.drop_first(), c.drop_first());
    }
}

/// Distinct byte strings are ordered one way or the other.
pub proof fn lemma_bytes_lt_total(a: Seq<u8>, b: Seq<u8>)
    requires
        a != b,
    ensures
        bytes_lt(a, b) || bytes_lt(b, a),
    decreases a.len(),
{
    if a.len() == 0 && b.len() == 0 {
        assert(a =~= b);
    } else if a.len() > 0 && b.len() > 0 && a[0] == b[0] {
        if a.drop_first() == b.drop_first() {
            assert(a =~= seq![a[0]] + a.drop_first());
            assert(b =~= seq![b[0]] + b.drop_first());
        } else {
            lemma_bytes_lt_total(a.drop_first(), b.drop_first());
        }
    }
}

/// No key is below itself.
pub proof fn lemma_key_lt_irreflexive(a: Seq<char>)
    ensures
        !key_lt(a, a),
{
    lemma_bytes_lt_irreflexive(vstd::utf8::encode_utf8(a));
}

/// The key order is transitive.
pub proof fn lemma_key_lt_transitive(a: Seq<char>, b: Seq<char>, c: Seq<char>)
    requires
        key_lt(a, b),
        key_lt(b, c),
    ensures
        key_lt(a, c),
{
    lemma_bytes_lt_transitive(
        vstd::utf8::encode_utf8(a),
        vstd::utf8::encode_utf8(b),
        vstd::utf8::encode_utf8(c),
    );
}

/// Distinct keys are ordered one way or the other (UTF-8 encoding is injective).
pub proof fn lemma_key_lt_total(a: Seq<char>, b: Seq<char>)
    requires
        a != b,
    ensures
        key_lt(a, b) || key_lt(b, a),
{
    vstd::utf8::encode_utf8_decode_utf8(a);
    vstd::utf8::encode_utf8_decode_utf8(b);
    lemma_bytes_lt_total(vstd::utf8::encode_utf8(a), vstd::utf8::encode_utf8(b));
}

/// In a sorted sequence a key names one entry only.
pub proof fn lemma_sorted_unique<V>(s: Seq<(Seq<char>, V)>, i: int, j: int)
    requires
        strictly_sorted(s),
        0 <= i < s.len(),
        0 <= j < s.len(),
        s[i].0 == s[j].0,
    ensures
        i == j,
{
    lemma_key_lt_irreflexive(s[i].0);
}

/// A sorted table holds at most one value for a key.
pub proof fn lemma_entry_unique<V>(s: Seq<(Seq<char>, V)>, k: Seq<char>, v: V, w: V)
    requires
        strictly_sorted(s),
        has_entry(s, k, v),
        has_entry(s, k, w),
    ensures
        v == w,
{
    let i = choose|i: int| 0 <= i < s.len() && #[trigger] s[i] == (k, v);
    let j = choose|j: int| 0 <= j < s.len() && #[trigger] s[j] == (k, w);
    lemma_sorted_unique(s, i, j);
}

/// What a lookup reads after `Table::insert(key, value)` (whose `ensures`
/// relates `before` and `after`): the key is present, holds `value`, and every
/// other key holds what it held before.
pub proof fn lemma_read_after_write<V>(
    before: Seq<(Seq<char>, V)>,
    after: Seq<(Seq<char>, V)>,
    key: Seq<char>,
    value: V,
    k: Seq<char>,
    got: V,
)
    requires
        strictly_sorted(after),
        forall|k2: Seq<char>, v2: V|
            has_entry(after, k2, v2) <==> (if k2 == key {
                v2 == value
            } else {
                has_entry(before, k2, v2)
            }),
        has_entry(after, k, got),
    ensures
        contains_key(after, key),
        k == key ==> got == value,
        k != key ==> has_entry(before, k, got),
{
    assert(has_entry(after, key, value));
    let i = choose|i: int| 0 <= i < after.len() && #[trigger] after[i] == (key, value);
    assert(after[i].0 == key);
}

proof fn lemma_insert_at<V>(s: Seq<(Seq<char>, V)>, i: int, k: Seq<char>, v: V)
    requires
        strictly_sorted(s),
        0 <= i <= s.len(),
        forall|j: int| 0 <= j < i ==> key_lt(#[trigger] s[j].0, k),
        i < s.len() ==> key_lt(k, s[i].0),
    ensures
        strictly_sorted(s.insert(i, (k, v))),
        s.insert(i, (k, v)).len() == s.len() + 1,
        !contains_key(s, k),
        forall|k2: Seq<char>, v2: V|
            has_entry(s.insert(i, (k, v)), k2, v2) <==> (if k2 == k {
                v2 == v
            } else {
                has_entry(s, k2, v2)
            }),
{
    let t = s.insert(i, (k, v));
    assert forall|j: int| i <= j < s.len() implies key_lt(k, #[trigger] s[j].0) by {
        if j > i {
            lemma_key_lt_transitive(k, s[i].0, s[j].0);
        }
    }
    assert forall|p: int, q: int| 0 <= p < q < t.len() implies key_lt(
        #[trigger] t[p].0,
        #[trigger] t[q].0,
    ) by {
        if q < i {
        } else if q == i {
        } else if p < i {
            assert(t[q] == s[q - 1]);
            lemma_key_lt_transitive(s[p].0, k, s[q - 1].0);
        } else if p == i {
            assert(t[q] == s[q - 1]);
        } else {
            assert(t[p] == s[p - 1]);
            assert(t[q] == s[q - 1]);
        }
    }
    assert forall|j: int| 0 <= j < s.len() implies #[trigger] s[j].0 != k by {
        lemma_key_lt_irreflexive(k);
    }
    assert forall|k2: Seq<char>, v2: V|
        has_entry(t, k2, v2) <==> (if k2 == k {
            v2 == v
        } else {
            has_entry(s, k2, v2)
        }) by {
        if has_entry(t, k2, v2) {
            let p = choose|p: int| 0 <= p < t.len() && #[trigger] t[p] == (k2, v2);
            if p < i {
                assert(t[p] == s[p]);
                assert(s[p].0 != k);
                assert(has_entry(s, k2, v2));
            } else if p > i {
                assert(t[p] == s[p - 1]);
                assert(s[p - 1].0 != k);
                assert(has_entry(s, k2, v2));
            } else {
                assert(t[p] == (k, v));
            }
        }
        if k2 == k && v2 == v {
            assert(t[i] == (k2, v2));
        }
        if k2 != k && has_entry(s, k2, v2) {
            let p = choose|p: int| 0 <= p < s.len() && #[trigger] s[p] == (k2, v2);
            if p < i {
                assert(t[p] == (k2, v2));
            } else {
                assert(t[p + 1] == (k2, v2));
            }
        }
    }
}

proof fn lemma_replace_at<V>(s: Seq<(Seq<char>, V)>, i: int, k: Seq<char>, v: V)
    requires
        strictly_sorted(s),
        0 <= i < s.len(),
        s[i].0 == k,
    ensures
        strictly_sorted(s.update(i, (k, v))),
        s.update(i, (k, v)).len() == s.len(),
        contains_key(s, k),
        forall|k2: Seq<char>, v2: V|
            has_entry(s.update(i, (k, v)), k2, v2) <==> (if k2 == k {
                v2 == v
            } else {
                has_entry(s, k2, v2)
            }),
{
    let t = s.update(i, (k, v));
    assert forall|p: int, q: int| 0 <= p < q < t.len() implies key_lt(
        #[trigger] t[p].0,
        #[trigger] t[q].0,
    ) by {
        assert(t[p].0 == s[p].0);
        assert(t[q].0 == s[q].0);
    }
    assert forall|k2: Seq<char>, v2: V|
        has_entry(t, k2, v2) <==> (if k2 == k {
            v2 == v
        } else {
            has_entry(s, k2, v2)
        }) by {
        if has_entry(t, k2, v2) {
            let p = choose|p: int| 0 <= p < t.len() && #[trigger] t[p] == (k2, v2);
            if p != i {
                assert(s[p] == (k2, v2));
                if k2 == k {
                    lemma_sorted_unique(s, p, i);
                }
            }
        }
        if k2 == k && v2 == v {
            assert(t[i] == (k2, v2));
        }
        if k2 != k && has_entry(s, k2, v2) {
            let p = choose|p: int| 0 <= p < s.len() && #[trigger] s[p] == (k2, v2);
            assert(p != i);
            assert(t[p] == (k2, v2));
        }
    }
}

/// Whether `a < b` in the order of `String` keys.
pub fn key_less(a: &str, b: &str) -> (r: bool)
    ensures
        r == key_lt(a@, b@),
{
    let x = a.as_bytes();
    let y = b.as_bytes();
    let mut i: usize = 0;
    assert(x@.skip(0) =~= x@);
    assert(y@.skip(0) =~= y@);
    while i < x.len() && i < y.len()
        invariant
            x@ == vstd::utf8::encode_utf8(a@),
            y@ == vstd::utf8::encode_utf8(b@),
            i <= x@.len(),
            i <= y@.len(),
            key_lt(a@, b@) == bytes_lt(x@.skip(i as int), y@.skip(i as int)),
        decreases x@.len() - i,
    {
        if x[i] != y[i] {
            assert(x@.skip(i as int)[0] == x@[i as int]);
            assert(y@.skip(i as int)[0] == y@[i as int]);
            return x[i] < y[i];
        }
        assert(x@.skip(i as int).drop_first() =~= x@.skip(i + 1));
        assert(y@.skip(i as int).drop_first() =~= y@.skip(i + 1));
        i = i + 1;
    }
    i < y.len()
}

/// Whether `a` and `b` are the same text.
pub fn same_text(a: &str, b: &str) -> (r: bool)
    ensures
        r == (a@ == b@),
{
    proof {
        lemma_key_lt_irreflexive(a@);
        if a@ != b@ {
            lemma_key_lt_total(a@, b@);
        }
    }
    !key_less(a, b) && !key_less(b, a)
}

/// Entries keyed by name, in increasing key order, each key at most once.
#[derive(Debug)]
pub struct Table<V> {
    entries: Vec<(String, V)>,
}

impl<V> View for Table<V> {
    type V = Seq<(Seq<char>, V)>;

    /// The entries as (key text, value) pairs, in key order.
    closed spec fn view(&self) -> Seq<(Seq<char>, V)> {
        self.entries@.map_values(|e: (String, V)| (e.0@, e.1))
    }
}

impl<V> Table<V> {
    #[verifier::type_invariant]
    spec fn keys_increase(self) -> bool {
        strictly_sorted(self@)
    }

    /// An empty table.
    pub fn new() -> (t: Self)
        ensures
            t@ == Seq::<(Seq<char>, V)>::empty(),
    {
        let t = Table { entries: Vec::new() };
        assert(t@ =~= Seq::<(Seq<char>, V)>::empty());
        t
    }

    /// The number of entries.
    pub fn len(&self) -> (n: usize)
        ensures
            n == self@.len(),
    {
        self.entries.len()
    }

    /// Whether the table has no entry.
    pub fn is_empty(&self) -> (b: bool)
        ensures
            b == (self@.len() == 0),
    {
        self.entries.len() == 0
    }

    /// The `i`-th entry in key order.
    pub fn entry(&self, i: usize) -> (e: (&String, &V))
        requires
            i < self@.len(),
        ensures
            (e.0@, *e.1) == self@[i as int],
            strictly_sorted(self@),
    {
        proof {
            use_type_invariant(self);
        }
        let e = &self.entries[i];
        (&e.0, &e.1)
    }

    /// The index of the entry with key `key`, if there is one.
    fn position(&self, key: &str) -> (r: Option<usize>)
        ensures
            match r {
                Some(i) => i < self@.len() && self@[i as int].0 == key@ && lookup(self@, key@)
                    == Some(self@[i as int].1),
                None => !contains_key(self@, key@) && lookup(self@, key@) is None,
            },
    {
        let n = self.entries.len();
        let mut i: usize = 0;
        while i < n
            invariant
                n == self.entries@.len(),
                i <= n,
                forall|j: int| 0 <= j < i ==> #[trigger] self@[j].0 != key@,
                lookup(self@, key@) == lookup_from(self@, key@, i as int),
            decreases n - i,
        {
            assert(self@[i as int] == (self.entries@[i as int].0@, self.entries@[i as int].1));
            if same_text(self.entries[i].0.as_str(), key) {
                return Some(i);
            }
            i = i + 1;
        }
        None
    }

    /// Whether some entry has key `key`.
    pub fn contains_key(&self, key: &str) -> (b: bool)
        ensures
            b == contains_key(self@, key@),
    {
        self.position(key).is_some()
    }

    /// The value stored under `key`, if any.
    pub fn get(&self, key: &str) -> (r: Option<&V>)
        ensures
            match r {
                Some(v) => has_entry(self@, key@, *v) && lookup(self@, key@) == Some(*v),
                None => !contains_key(self@, key@) && lookup(self@, key@) is None,
            },
            strictly_sorted(self@),
    {
        proof {
            use_type_invariant(self);
        }
        match self.position(key) {
            Some(i) => {
                let v = &self.entries[i].1;
                assert(self@[i as int] == (key@, *v));
                Some(v)
            },
            None => None,
        }
    }

    /// Stores `value` under `key`, replacing the value that was there, as
    /// `BTreeMap::insert` does.
    pub fn insert(&mut self, key: String, value: V)
        ensures
            strictly_sorted(final(self)@),
            final(self)@.len() == old(self)@.len() + if contains_key(old(self)@, key@) {
                0int
            } else {
                1int
            },
            forall|k: Seq<char>, v: V|
                has_entry(final(self)@, k, v) <==> (if k == key@ {
                    v == value
                } else {
                    has_entry(old(self)@, k, v)
                }),
    {
        proof {
            use_type_invariant(&*self);
        }
        let ghost s = self@;
        let mut entries: Vec<(String, V)> = Vec::new();
        std::mem::swap(&mut entries, &mut self.entries);
        assert(entries@.map_values(|e: (String, V)| (e.0@, e.1)) == s);
        let n = entries.len();
        let mut i: usize = 0;
        while i < n
            invariant_except_break
                forall|j: int| 0 <= j < i ==> key_lt(#[trigger] s[j].0, key@),
            invariant
                n == entries@.len(),
                n == s.len(),
                entries@.map_values(|e: (String, V)| (e.0@, e.1)) == s,
                i <= n,
            ensures
                i <= n,
                forall|j: int| 0 <= j < i ==> key_lt(#[trigger] s[j].0, key@),
                i < n ==> !key_lt(s[i as int].0, key@),
            decreases n - i,
        {
            if !key_less(entries[i].0.as_str(), key.as_str()) {
                break;
            }
            i = i + 1;
        }
        let found: bool = i < n && entries[i].0 == key;
        let ghost k = key@;
        if found {
            proof {
                lemma_replace_at(s, i as int, k, value);
            }
            entries.set(i, (key, value));
            assert(entries@.map_values(|e: (String, V)| (e.0@, e.1)) =~= s.update(
                i as int,
                (k, value),
            ));
        } else {
            proof {
                if i < n {
                    lemma_key_lt_total(s[i as int].0, k);
                }
                lemma_insert_at(s, i as int, k, value);
            }
            entries.insert(i, (key, value));
            assert(entries@.map_values(|e: (String, V)| (e.0@, e.1)) =~= s.insert(
                i as int,
                (k, value),
            ));
        }
        self.entries = entries;
    }
}

} // verus!
