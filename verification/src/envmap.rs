//! An ordered map from strings to strings: environment variables kept
//! sorted by name, each name once, as a `BTreeMap<String, String>` keeps
//! them.
use vstd::prelude::*;

use crate::text::chars_of;

verus! {

/// `a` comes before `b` in lexicographic order of characters. (For UTF-8
/// strings this is the byte order that `String`'s `Ord` uses.)
pub open spec fn chars_lt(a: Seq<char>, b: Seq<char>) -> bool
    decreases a.len(),
{
    if a.len() == 0 {
        b.len() > 0
    } else if b.len() == 0 {
        false
    } else if a[0] != b[0] {
        a[0] < b[0]
    } else {
        chars_lt(a.drop_first(), b.drop_first())
    }
}

/// No string comes before itself.
pub proof fn lemma_lt_irreflexive(a: Seq<char>)
    ensures
        !chars_lt(a, a),
    decreases a.len(),
{
    if a.len() > 0 {
        lemma_lt_irreflexive(a.drop_first());
    }
}

/// The order is transitive.
pub proof fn lemma_lt_transitive(a: Seq<char>, b: Seq<char>, c: Seq<char>)
    requires
        chars_lt(a, b),
        chars_lt(b, c),
    ensures
        chars_lt(a, c),
    decreases a.len(),
{
    if a.len() > 0 && b.len() > 0 && c.len() > 0 && a[0] == b[0] && b[0] == c[0] {
        lemma_lt_transitive(a.drop_first(), b.drop_first(), c.drop_first());
    }
}

/// Two different strings are ordered one way or the other.
pub proof fn lemma_lt_total(a: Seq<char>, b: Seq<char>)
    requires
        a != b,
    ensures
        chars_lt(a, b) || chars_lt(b, a),
    decreases a.len(),
{
    if a.len() > 0 && b.len() > 0 && a[0] == b[0] {
        if a.drop_first() == b.drop_first() {
            assert(a =~= seq![a[0]] + a.drop_first());
            assert(b =~= seq![b[0]] + b.drop_first());
        }
        lemma_lt_total(a.drop_first(), b.drop_first());
    } else if a.len() == 0 && b.len() == 0 {
        assert(a =~= b);
    }
}

/// The order is asymmetric.
pub proof fn lemma_lt_asymmetric(a: Seq<char>, b: Seq<char>)
    requires
        chars_lt(a, b),
    ensures
        !chars_lt(b, a),
{
    if chars_lt(b, a) {
        lemma_lt_transitive(a, b, a);
        lemma_lt_irreflexive(a);
    }
}

/// Entries whose names strictly increase.
pub open spec fn sorted(e: Seq<(Seq<char>, Seq<char>)>) -> bool {
    forall|i: int, j: int| 0 <= i < j < e.len() ==> chars_lt(#[trigger] e[i].0, #[trigger] e[j].0)
}

/// The entries after setting `k` to `v`: an entry named `k` gets the new
/// value in place; otherwise a new entry goes before the first entry
/// whose name comes after `k`.
pub open spec fn spec_insert(e: Seq<(Seq<char>, Seq<char>)>, k: Seq<char>, v: Seq<char>) -> Seq<
    (Seq<char>, Seq<char>),
>
    decreases e.len(),
{
    if e.len() == 0 {
        seq![(k, v)]
    } else if e[0].0 == k {
        seq![(k, v)] + e.drop_first()
    } else if chars_lt(k, e[0].0) {
        seq![(k, v)] + e
    } else {
        seq![e[0]] + spec_insert(e.drop_first(), k, v)
    }
}

/// The mapping from names to values that the entries describe.
pub open spec fn map_of(e: Seq<(Seq<char>, Seq<char>)>) -> Map<Seq<char>, Seq<char>>
    decreases e.len(),
{
    if e.len() == 0 {
        Map::empty()
    } else {
        map_of(e.drop_first()).insert(e[0].0, e[0].1)
    }
}

/// The views of entries held as strings.
pub open spec fn entries_view(v: Seq<(String, String)>) -> Seq<(Seq<char>, Seq<char>)> {
    v.map_values(|p: (String, String)| (p.0@, p.1@))
}

/// Environment variables by name, in name order.
pub struct EnvMap {
    entries: Vec<(String, String)>,
}

impl Clone for EnvMap {
    fn clone(&self) -> (r: Self)
        ensures
            r.view() == self.view(),
    {
        proof {
            use_type_invariant(self);
        }
        let mut entries: Vec<(String, String)> = Vec::new();
        let mut i: usize = 0;
        while i < self.entries.len()
            invariant
                i <= self.entries@.len(),
                entries_view(entries@) == entries_view(self.entries@.take(i as int)),
            decreases self.entries@.len() - i,
        {
            let (k, v) = &self.entries[i];
            let kc = k.clone();
            let vc = v.clone();
            assert(kc@ == k@ && vc@ == v@);
            entries.push((kc, vc));
            proof {
                assert(entries_view(self.entries@.take(i + 1)) =~= entries_view(
                    self.entries@.take(i as int),
                ).push((k@, v@)));
                assert(entries_view(entries@) =~= entries_view(self.entries@.take(i + 1)));
            }
            i = i + 1;
        }
        proof {
            assert(self.entries@.take(self.entries@.len() as int) =~= self.entries@);
        }
        EnvMap { entries }
    }
}

impl EnvMap {
    /// The entries, in order.
    pub closed spec fn view(&self) -> Seq<(Seq<char>, Seq<char>)> {
        entries_view(self.entries@)
    }

    /// Names strictly increase.
    #[verifier::type_invariant]
    closed spec fn inv(&self) -> bool {
        sorted(entries_view(self.entries@))
    }

    /// No entries.
    pub fn new() -> (r: Self)
        ensures
            r.view() == Seq::<(Seq<char>, Seq<char>)>::empty(),
    {
        let r = EnvMap { entries: Vec::new() };
        proof {
            assert(entries_view(r.entries@) =~= Seq::<(Seq<char>, Seq<char>)>::empty());
        }
        r
    }

    /// The entries, in name order.
    pub fn entries(&self) -> (r: &Vec<(String, String)>)
        ensures
            entries_view(r@) == self.view(),
            sorted(self.view()),
    {
        proof {
            use_type_invariant(self);
        }
        &self.entries
    }

    /// Sets `key` to `value`.
    pub fn insert(self, key: &str, value: &str) -> (r: Self)
        ensures
            r.view() == spec_insert(self.view(), key@, value@),
            sorted(self.view()),
            sorted(r.view()),
    {
        proof {
            use_type_invariant(&self);
        }
        let EnvMap { mut entries } = self;
        let ghost e = entries_view(entries@);
        let mut i: usize = 0;
        while i < entries.len() && str_lt(entries[i].0.as_str(), key)
            invariant
                i <= entries@.len(),
                e == entries_view(entries@),
                sorted(e),
                forall|j: int| 0 <= j < i ==> chars_lt(#[trigger] e[j].0, key@),
            decreases entries@.len() - i,
        {
            i = i + 1;
        }
        proof {
            lemma_insert_at(e, key@, value@, i as int);
            lemma_insert_sorted(e, key@, value@);
        }
        if i < entries.len() && str_eq(entries[i].0.as_str(), key) {
            entries.set(i, (key.to_owned(), value.to_owned()));
        } else {
            entries.insert(i, (key.to_owned(), value.to_owned()));
        }
        proof {
            assert(entries_view(entries@) =~= spec_insert(e, key@, value@));
        }
        EnvMap { entries }
    }
}

/// Whether `a` comes before `b`.
pub fn str_lt(a: &str, b: &str) -> (r: bool)
    ensures
        r == chars_lt(a@, b@),
{
    let x = chars_of(a);
    let y = chars_of(b);
    let mut i: usize = 0;
    assert(a@.skip(0) =~= a@);
    assert(b@.skip(0) =~= b@);
    while i < x.len() && i < y.len() && x[i] == y[i]
        invariant
            i <= x@.len(),
            i <= y@.len(),
            x@ == a@,
            y@ == b@,
            chars_lt(a@, b@) == chars_lt(a@.skip(i as int), b@.skip(i as int)),
        decreases x@.len() - i,
    {
        proof {
            assert(a@.skip(i as int).drop_first() =~= a@.skip(i + 1));
            assert(b@.skip(i as int).drop_first() =~= b@.skip(i + 1));
        }
        i = i + 1;
    }
    if i == x.len() {
        i < y.len()
    } else if i == y.len() {
        false
    } else {
        x[i] < y[i]
    }
}

/// Whether `a` and `b` are the same string.
pub fn str_eq(a: &str, b: &str) -> (r: bool)
    ensures
        r == (a@ == b@),
{
    let x = chars_of(a);
    let y = chars_of(b);
    if x.len() != y.len() {
        return false;
    }
    let mut i: usize = 0;
    while i < x.len()
        invariant
            i <= x@.len(),
            x@.len() == y@.len(),
            x@ == a@,
            y@ == b@,
            forall|j: int| 0 <= j < i ==> x@[j] == y@[j],
        decreases x@.len() - i,
    {
        if x[i] != y[i] {
            return false;
        }
        i = i + 1;
    }
    proof {
        assert(a@ =~= b@);
    }
    true
}

/// Where the insertion lands: after the entries whose names come before
/// `k`.
proof fn lemma_insert_at(e: Seq<(Seq<char>, Seq<char>)>, k: Seq<char>, v: Seq<char>, i: int)
    requires
        0 <= i <= e.len(),
        sorted(e),
        forall|j: int| 0 <= j < i ==> chars_lt(#[trigger] e[j].0, k),
        i < e.len() ==> !chars_lt(e[i].0, k),
    ensures
        spec_insert(e, k, v) == if i < e.len() && e[i].0 == k {
            e.take(i) + seq![(k, v)] + e.skip(i + 1)
        } else {
            e.take(i) + seq![(k, v)] + e.skip(i)
        },
    decreases i,
{
    if i == 0 {
        assert(e.take(0) =~= Seq::<(Seq<char>, Seq<char>)>::empty());
        if e.len() > 0 {
            assert(e.skip(1) =~= e.drop_first());
            assert(e.skip(0) =~= e);
            if e[0].0 != k {
                lemma_lt_total(e[0].0, k);
            }
        } else {
            assert(e.skip(0) =~= e);
        }
    } else {
        let t = e.drop_first();
        assert forall|j: int| 0 <= j < i - 1 implies chars_lt(#[trigger] t[j].0, k) by {
            assert(t[j] == e[j + 1]);
        }
        assert forall|a: int, b: int| 0 <= a < b < t.len() implies chars_lt(
            #[trigger] t[a].0,
            #[trigger] t[b].0,
        ) by {
            assert(t[a] == e[a + 1]);
            assert(t[b] == e[b + 1]);
        }
        lemma_insert_at(t, k, v, i - 1);
        assert(chars_lt(e[0].0, k));
        lemma_lt_asymmetric(e[0].0, k);
        lemma_lt_irreflexive(k);
        assert(e[0].0 != k);
        assert(e.take(i) =~= seq![e[0]] + t.take(i - 1));
        assert(e.skip(i) =~= t.skip(i - 1));
        if i < e.len() {
            assert(e.skip(i + 1) =~= t.skip(i));
        }
    }
}

/// Setting a name keeps the entries in strictly increasing name order.
pub proof fn lemma_insert_sorted(e: Seq<(Seq<char>, Seq<char>)>, k: Seq<char>, v: Seq<char>)
    requires
        sorted(e),
    ensures
        sorted(spec_insert(e, k, v)),
        forall|j: int|
            0 <= j < spec_insert(e, k, v).len() ==> (#[trigger] spec_insert(e, k, v)[j].0 == k
                || exists|m: int| 0 <= m < e.len() && e[m].0 == spec_insert(e, k, v)[j].0),
    decreases e.len(),
{
    let r = spec_insert(e, k, v);
    if e.len() == 0 {
    } else if e[0].0 == k {
        assert forall|a: int, b: int| 0 <= a < b < r.len() implies chars_lt(
            #[trigger] r[a].0,
            #[trigger] r[b].0,
        ) by {
            if a == 0 {
                assert(r[b] == e[b]);
                assert(chars_lt(e[0].0, e[b].0));
            } else {
                assert(r[a] == e[a]);
                assert(r[b] == e[b]);
            }
        }
        assert forall|j: int| 0 <= j < r.len() implies (#[trigger] r[j].0 == k || exists|m: int|
            0 <= m < e.len() && e[m].0 == r[j].0) by {
            if j > 0 {
                assert(r[j] == e[j]);
            }
        }
    } else if chars_lt(k, e[0].0) {
        assert forall|a: int, b: int| 0 <= a < b < r.len() implies chars_lt(
            #[trigger] r[a].0,
            #[trigger] r[b].0,
        ) by {
            assert(r[b] == e[b - 1]);
            if a == 0 {
                if b > 1 {
                    assert(chars_lt(e[0].0, e[b - 1].0));
                    lemma_lt_transitive(k, e[0].0, e[b - 1].0);
                }
            } else {
                assert(r[a] == e[a - 1]);
            }
        }
        assert forall|j: int| 0 <= j < r.len() implies (#[trigger] r[j].0 == k || exists|m: int|
            0 <= m < e.len() && e[m].0 == r[j].0) by {
            if j > 0 {
                assert(r[j] == e[j - 1]);
            }
        }
    } else {
        let t = e.drop_first();
        assert forall|a: int, b: int| 0 <= a < b < t.len() implies chars_lt(
            #[trigger] t[a].0,
            #[trigger] t[b].0,
        ) by {
            assert(t[a] == e[a + 1]);
            assert(t[b] == e[b + 1]);
        }
        lemma_insert_sorted(t, k, v);
        let rt = spec_insert(t, k, v);
        lemma_lt_total(e[0].0, k);
        assert forall|a: int, b: int| 0 <= a < b < r.len() implies chars_lt(
            #[trigger] r[a].0,
            #[trigger] r[b].0,
        ) by {
            assert(r[b] == rt[b - 1]);
            if a == 0 {
                assert(r[0] == e[0]);
                let x = rt[b - 1].0;
                if x != k {
                    let m = choose|m: int| 0 <= m < t.len() && t[m].0 == x;
                    assert(t[m] == e[m + 1]);
                }
            } else {
                assert(r[a] == rt[a - 1]);
            }
        }
        assert forall|j: int| 0 <= j < r.len() implies (#[trigger] r[j].0 == k || exists|m: int|
            0 <= m < e.len() && e[m].0 == r[j].0) by {
            if j == 0 {
                assert(e[0].0 == r[0].0);
            } else {
                assert(r[j] == rt[j - 1]);
                if rt[j - 1].0 != k {
                    let m = choose|m: int| 0 <= m < t.len() && t[m].0 == rt[j - 1].0;
                    assert(t[m] == e[m + 1]);
                }
            }
        }
    }
}

/// Setting `k` to `v` makes `k` map to `v` and leaves every other name
/// as it was: what is read back after a write is what was written.
pub proof fn lemma_insert_map(e: Seq<(Seq<char>, Seq<char>)>, k: Seq<char>, v: Seq<char>)
    requires
        sorted(e),
    ensures
        map_of(spec_insert(e, k, v)) == map_of(e).insert(k, v),
    decreases e.len(),
{
    let r = spec_insert(e, k, v);
    if e.len() == 0 {
        assert(r.drop_first() =~= Seq::<(Seq<char>, Seq<char>)>::empty());
        assert(r[0] == (k, v));
        assert(map_of(r.drop_first()) == Map::<Seq<char>, Seq<char>>::empty());
        assert(map_of(e) == Map::<Seq<char>, Seq<char>>::empty());
        assert(map_of(r) =~= map_of(e).insert(k, v));
    } else if e[0].0 == k {
        assert(r.drop_first() =~= e.drop_first());
        assert(r[0] == (k, v));
        assert(map_of(r) =~= map_of(e).insert(k, v));
    } else if chars_lt(k, e[0].0) {
        assert(r.drop_first() =~= e);
        assert(r[0] == (k, v));
        assert(map_of(r) =~= map_of(e).insert(k, v));
    } else {
        let t = e.drop_first();
        assert forall|a: int, b: int| 0 <= a < b < t.len() implies chars_lt(
            #[trigger] t[a].0,
            #[trigger] t[b].0,
        ) by {
            assert(t[a] == e[a + 1]);
            assert(t[b] == e[b + 1]);
        }
        lemma_insert_map(t, k, v);
        assert(r.drop_first() =~= spec_insert(t, k, v));
        assert(r[0] == e[0]);
        assert(map_of(r) =~= map_of(e).insert(k, v));
    }
}

/// The value an environment gives a name, if any.
pub open spec fn lookup_env(e: Seq<(Seq<char>, Seq<char>)>, k: Seq<char>) -> Option<Seq<char>> {
    if map_of(e).contains_key(k) {
        Some(map_of(e)[k])
    } else {
        None
    }
}

impl EnvMap {
    /// The value set for `key`, if any.
    pub fn get(&self, key: &str) -> (r: Option<&String>)
        ensures
            match r {
                Some(v) => lookup_env(self.view(), key@) == Some(v@),
                None => lookup_env(self.view(), key@) is None,
            },
    {
        proof {
            use_type_invariant(self);
        }
        let ghost e = self.view();
        let mut i: usize = 0;
        proof {
            assert(e.skip(0) =~= e);
        }
        while i < self.entries.len()
            invariant
                i <= self.entries@.len(),
                e == entries_view(self.entries@),
                sorted(e),
                lookup_env(e, key@) == lookup_env(e.skip(i as int), key@),
            decreases self.entries@.len() - i,
        {
            proof {
                let t = e.skip(i as int);
                assert(t[0] == e[i as int]);
                assert(t.drop_first() =~= e.skip(i + 1));
            }
            if str_eq(self.entries[i].0.as_str(), key) {
                return Some(&self.entries[i].1);
            }
            i = i + 1;
        }
        proof {
            assert(e.skip(i as int).len() == 0);
        }
        None
    }
}

/// After setting `key` to `value`, reading `key` gives `value`, and
/// reading any other name gives what it gave before.
pub proof fn lemma_set_then_get(
    e: Seq<(Seq<char>, Seq<char>)>,
    key: Seq<char>,
    value: Seq<char>,
    other: Seq<char>,
)
    requires
        sorted(e),
    ensures
        lookup_env(spec_insert(e, key, value), key) == Some(value),
        other != key ==> lookup_env(spec_insert(e, key, value), other) == lookup_env(e, other),
{
    lemma_insert_map(e, key, value);
}

} // verus!
