//! A map from names to lists of strings, kept as entries in the order in
//! which the names were first added, each name once.
use vstd::prelude::*;

use crate::envmap::str_eq;
use crate::text::{clone_strings, strings_view};

verus! {

/// The value of the first entry named `k`.
pub open spec fn find_entry<V>(e: Seq<(Seq<char>, V)>, k: Seq<char>) -> Option<V>
    decreases e.len(),
{
    if e.len() == 0 {
        None
    } else if e[0].0 == k {
        Some(e[0].1)
    } else {
        find_entry(e.drop_first(), k)
    }
}

/// No two entries carry the same name.
pub open spec fn unique_names<V>(e: Seq<(Seq<char>, V)>) -> bool {
    forall|i: int, j: int| 0 <= i < j < e.len() ==> #[trigger] e[i].0 != #[trigger] e[j].0
}

/// The map that entries with unique names describe.
pub open spec fn map_of_entries<V>(e: Seq<(Seq<char>, V)>) -> Map<Seq<char>, V> {
    Map::new(|k: Seq<char>| find_entry(e, k) is Some, |k: Seq<char>| find_entry(e, k)->0)
}

/// With unique names, the entry at `i` is the one found for its name.
pub proof fn lemma_find_at<V>(e: Seq<(Seq<char>, V)>, i: int)
    requires
        unique_names(e),
        0 <= i < e.len(),
    ensures
        find_entry(e, e[i].0) == Some(e[i].1),
    decreases e.len(),
{
    if i > 0 {
        assert(e[0].0 != e[i].0);
        let d = e.drop_first();
        assert(d[i - 1] == e[i]);
        lemma_find_at(d, i - 1);
    }
}

/// A name that no entry carries is not found.
pub proof fn lemma_find_absent<V>(e: Seq<(Seq<char>, V)>, k: Seq<char>)
    requires
        forall|i: int| 0 <= i < e.len() ==> (#[trigger] e[i]).0 != k,
    ensures
        find_entry(e, k) is None,
    decreases e.len(),
{
    if e.len() > 0 {
        let d = e.drop_first();
        assert forall|i: int| 0 <= i < d.len() implies (#[trigger] d[i]).0 != k by {
            assert(d[i] == e[i + 1]);
        }
        lemma_find_absent(d, k);
    }
}

/// Appending an entry leaves the names found before as they were, and
/// makes its own name found if it was not.
pub proof fn lemma_find_push<V>(e: Seq<(Seq<char>, V)>, k: Seq<char>, v: V, q: Seq<char>)
    ensures
        find_entry(e.push((k, v)), q) == (if find_entry(e, q) is Some {
            find_entry(e, q)
        } else if q == k {
            Some(v)
        } else {
            None
        }),
    decreases e.len(),
{
    let p = e.push((k, v));
    if e.len() > 0 {
        assert(p[0] == e[0]);
        if e[0].0 != q {
            assert(p.drop_first() =~= e.drop_first().push((k, v)));
            lemma_find_push(e.drop_first(), k, v, q);
            assert(find_entry(p, q) == find_entry(p.drop_first(), q));
            assert(find_entry(e, q) == find_entry(e.drop_first(), q));
        }
    } else {
        assert(p[0] == (k, v));
        assert(p.drop_first().len() == 0);
        assert(find_entry(p.drop_first(), q) is None);
    }
}

/// Replacing the value of entry `i` changes what is found for its name,
/// and nothing else.
pub proof fn lemma_find_update<V>(e: Seq<(Seq<char>, V)>, i: int, v: V, q: Seq<char>)
    requires
        unique_names(e),
        0 <= i < e.len(),
    ensures
        find_entry(e.update(i, (e[i].0, v)), q) == (if q == e[i].0 {
            Some(v)
        } else {
            find_entry(e, q)
        }),
    decreases e.len(),
{
    let u = e.update(i, (e[i].0, v));
    if i == 0 {
        assert(u.drop_first() =~= e.drop_first());
    } else {
        assert(e[0].0 != e[i].0);
        let d = e.drop_first();
        assert(u.drop_first() =~= d.update(i - 1, (d[i - 1].0, v)));
        lemma_find_update(d, i - 1, v, q);
    }
}

/// The views of entries whose values are lists of strings.
pub open spec fn lists_view(v: Seq<(String, Vec<String>)>) -> Seq<(Seq<char>, Seq<Seq<char>>)> {
    v.map_values(|p: (String, Vec<String>)| (p.0@, strings_view(p.1@)))
}

/// The list for `k` in `m`, or an empty list.
pub open spec fn list_or_empty(m: Map<Seq<char>, Seq<Seq<char>>>, k: Seq<char>) -> Seq<Seq<char>> {
    if m.contains_key(k) {
        m[k]
    } else {
        Seq::empty()
    }
}

/// Lists of strings by name (the `HashMap<String, Vec<String>>` with
/// which mounts are given their sources).
pub struct NameLists {
    entries: Vec<(String, Vec<String>)>,
}

/// Where the entry named `name` is, if there is one.
fn position(entries: &Vec<(String, Vec<String>)>, name: &str) -> (r: Option<usize>)
    ensures
        match r {
            Some(i) => i < entries@.len() && entries@[i as int].0@ == name@,
            None => forall|i: int|
                0 <= i < entries@.len() ==> (#[trigger] lists_view(entries@)[i]).0 != name@,
        },
{
    let mut i: usize = 0;
    while i < entries.len()
        invariant
            i <= entries@.len(),
            forall|j: int| 0 <= j < i ==> (#[trigger] lists_view(entries@)[j]).0 != name@,
        decreases entries@.len() - i,
    {
        if str_eq(entries[i].0.as_str(), name) {
            return Some(i);
        }
        i = i + 1;
    }
    None
}

impl NameLists {
    /// The entries, in the order their names were first added.
    pub closed spec fn entries_spec(&self) -> Seq<(Seq<char>, Seq<Seq<char>>)> {
        lists_view(self.entries@)
    }

    /// The list held for each name.
    pub open spec fn view(&self) -> Map<Seq<char>, Seq<Seq<char>>> {
        map_of_entries(self.entries_spec())
    }

    /// Each name once.
    #[verifier::type_invariant]
    closed spec fn inv(&self) -> bool {
        unique_names(lists_view(self.entries@))
    }

    /// No names.
    pub fn new() -> (r: Self)
        ensures
            r@ == Map::<Seq<char>, Seq<Seq<char>>>::empty(),
            r.entries_spec().len() == 0,
    {
        let r = NameLists { entries: Vec::new() };
        proof {
            assert(lists_view(r.entries@) =~= Seq::<(Seq<char>, Seq<Seq<char>>)>::empty());
            assert(r@ =~= Map::<Seq<char>, Seq<Seq<char>>>::empty());
        }
        r
    }

    /// The list held for `name`.
    pub fn get(&self, name: &str) -> (r: Option<&Vec<String>>)
        ensures
            match r {
                Some(v) => self@.contains_key(name@) && self@[name@] == strings_view(v@),
                None => !self@.contains_key(name@),
            },
    {
        proof {
            use_type_invariant(self);
        }
        match position(&self.entries, name) {
            Some(i) => {
                proof {
                    lemma_find_at(lists_view(self.entries@), i as int);
                }
                Some(&self.entries[i].1)
            },
            None => {
                proof {
                    lemma_find_absent(lists_view(self.entries@), name@);
                }
                None
            },
        }
    }

    /// Makes sure that `name` has a list: an empty one if it had none.
    pub fn ensure(&mut self, name: &str)
        ensures
            final(self)@ == old(self)@.insert(name@, list_or_empty(old(self)@, name@)),
    {
        proof {
            use_type_invariant(&*self);
        }
        let ghost e = lists_view(self.entries@);
        match position(&self.entries, name) {
            Some(i) => {
                proof {
                    lemma_find_at(e, i as int);
                    assert(self@ =~= old(self)@.insert(name@, list_or_empty(old(self)@, name@)));
                }
            },
            None => {
                proof {
                    lemma_find_absent(e, name@);
                }
                let empty_list: Vec<String> = Vec::new();
                let key = name.to_owned();
                assert(strings_view(empty_list@) =~= Seq::<Seq<char>>::empty());
                let mut entries: Vec<(String, Vec<String>)> = Vec::new();
                std::mem::swap(&mut entries, &mut self.entries);
                assert(lists_view(entries@) == e);
                entries.push((key, empty_list));
                proof {
                    let e2 = lists_view(entries@);
                    assert(e2 =~= e.push((name@, Seq::empty())));
                    assert forall|i: int, j: int| 0 <= i < j < e2.len() implies #[trigger] e2[i].0
                        != #[trigger] e2[j].0 by {
                        if j == e.len() {
                            assert(e2[i] == e[i]);
                        }
                    }
                }
                self.entries = entries;
                proof {
                    let e2 = lists_view(self.entries@);
                    assert(e2 =~= e.push((name@, Seq::empty())));
                    assert forall|q: Seq<char>| #![auto]
                        find_entry(e2, q) == (if q == name@ {
                            Some(Seq::<Seq<char>>::empty())
                        } else {
                            find_entry(e, q)
                        }) by {
                        lemma_find_push(e, name@, Seq::empty(), q);
                    }
                    assert(self@ =~= old(self)@.insert(name@, list_or_empty(old(self)@, name@)));
                }
            },
        }
    }

    /// Adds `value` at the end of the list for `name`, starting a list if
    /// `name` had none.
    pub fn add(&mut self, name: &str, value: String)
        ensures
            final(self)@ == old(self)@.insert(
                name@,
                list_or_empty(old(self)@, name@).push(value@),
            ),
    {
        proof {
            use_type_invariant(&*self);
        }
        let ghost e = lists_view(self.entries@);
        match position(&self.entries, name) {
            Some(i) => {
                proof {
                    lemma_find_at(e, i as int);
                }
                let mut list = clone_strings(self.entries[i].1.as_slice());
                list.push(value);
                let key = self.entries[i].0.clone();
                assert(strings_view(list@) =~= e[i as int].1.push(value@));
                assert(key@ == e[i as int].0);
                let mut entries: Vec<(String, Vec<String>)> = Vec::new();
                std::mem::swap(&mut entries, &mut self.entries);
                assert(lists_view(entries@) == e);
                entries.set(i, (key, list));
                proof {
                    let e2 = lists_view(entries@);
                    assert(e2 =~= e.update(i as int, (e[i as int].0, e[i as int].1.push(value@))));
                    assert forall|a: int, b: int| 0 <= a < b < e2.len() implies #[trigger] e2[a].0
                        != #[trigger] e2[b].0 by {
                        assert(e2[a].0 == e[a].0 && e2[b].0 == e[b].0);
                    }
                }
                self.entries = entries;
                proof {
                    let nv = e[i as int].1.push(value@);
                    let e2 = lists_view(self.entries@);
                    assert(strings_view(list@) =~= nv);
                    assert(e2 =~= e.update(i as int, (e[i as int].0, nv)));
                    assert forall|q: Seq<char>| #![auto]
                        find_entry(e2, q) == (if q == name@ {
                            Some(nv)
                        } else {
                            find_entry(e, q)
                        }) by {
                        lemma_find_update(e, i as int, nv, q);
                    }
                    assert(self@ =~= old(self)@.insert(
                        name@,
                        list_or_empty(old(self)@, name@).push(value@),
                    ));
                }
            },
            None => {
                proof {
                    lemma_find_absent(e, name@);
                }
                let mut list: Vec<String> = Vec::new();
                let ghost vv = value@;
                list.push(value);
                assert(strings_view(list@) =~= seq![vv]);
                let key = name.to_owned();
                let mut entries: Vec<(String, Vec<String>)> = Vec::new();
                std::mem::swap(&mut entries, &mut self.entries);
                assert(lists_view(entries@) == e);
                entries.push((key, list));
                proof {
                    let e2 = lists_view(entries@);
                    assert(e2 =~= e.push((name@, seq![vv])));
                    assert forall|a: int, b: int| 0 <= a < b < e2.len() implies #[trigger] e2[a].0
                        != #[trigger] e2[b].0 by {
                        if b == e.len() {
                            assert(e2[a] == e[a]);
                        }
                    }
                }
                self.entries = entries;
                proof {
                    let nv = seq![vv];
                    let e2 = lists_view(self.entries@);
                    assert(strings_view(list@) =~= nv);
                    assert(e2 =~= e.push((name@, nv)));
                    assert forall|q: Seq<char>| #![auto]
                        find_entry(e2, q) == (if q == name@ {
                            Some(nv)
                        } else {
                            find_entry(e, q)
                        }) by {
                        lemma_find_push(e, name@, nv, q);
                    }
                    assert(Seq::<Seq<char>>::empty().push(vv) =~= nv);
                    assert(self@ =~= old(self)@.insert(
                        name@,
                        list_or_empty(old(self)@, name@).push(value@),
                    ));
                }
            },
        }
    }

    /// The entries, in the order their names were first added.
    pub fn entries(&self) -> (r: &Vec<(String, Vec<String>)>)
        ensures
            lists_view(r@) == self.entries_spec(),
            unique_names(self.entries_spec()),
            map_of_entries(lists_view(r@)) == self@,
    {
        proof {
            use_type_invariant(self);
        }
        &self.entries
    }
}

/// The names of entries held as strings, with their values.
pub open spec fn keyed_view<V>(v: Seq<(String, V)>) -> Seq<(Seq<char>, V)> {
    v.map_values(|p: (String, V)| (p.0@, p.1))
}

/// Values by name, each name once, in the order the names were first
/// given (a `HashMap<String, V>`, or with `()` values a `HashSet<String>`).
pub struct StrMap<V> {
    entries: Vec<(String, V)>,
}

/// Where the entry named `name` is, if there is one.
fn key_position<V>(entries: &Vec<(String, V)>, name: &str) -> (r: Option<usize>)
    ensures
        match r {
            Some(i) => i < entries@.len() && entries@[i as int].0@ == name@,
            None => forall|i: int|
                0 <= i < entries@.len() ==> (#[trigger] keyed_view(entries@)[i]).0 != name@,
        },
{
    let mut i: usize = 0;
    while i < entries.len()
        invariant
            i <= entries@.len(),
            forall|j: int| 0 <= j < i ==> (#[trigger] keyed_view(entries@)[j]).0 != name@,
        decreases entries@.len() - i,
    {
        if str_eq(entries[i].0.as_str(), name) {
            return Some(i);
        }
        i = i + 1;
    }
    None
}

impl<V> StrMap<V> {
    /// The value of each name.
    pub closed spec fn view(&self) -> Map<Seq<char>, V> {
        map_of_entries(keyed_view(self.entries@))
    }

    /// Each name once.
    #[verifier::type_invariant]
    closed spec fn inv(&self) -> bool {
        unique_names(keyed_view(self.entries@))
    }

    /// No names.
    pub fn new() -> (r: Self)
        ensures
            r@ == Map::<Seq<char>, V>::empty(),
    {
        let r = StrMap { entries: Vec::new() };
        proof {
            assert(keyed_view(r.entries@) =~= Seq::<(Seq<char>, V)>::empty());
            assert(r@ =~= Map::<Seq<char>, V>::empty());
        }
        r
    }

    /// The value of `name`.
    pub fn get(&self, name: &str) -> (r: Option<&V>)
        ensures
            match r {
                Some(v) => self@.contains_key(name@) && self@[name@] == *v,
                None => !self@.contains_key(name@),
            },
    {
        proof {
            use_type_invariant(self);
        }
        match key_position(&self.entries, name) {
            Some(i) => {
                proof {
                    lemma_find_at(keyed_view(self.entries@), i as int);
                }
                Some(&self.entries[i].1)
            },
            None => {
                proof {
                    lemma_find_absent(keyed_view(self.entries@), name@);
                }
                None
            },
        }
    }

    /// Gives `name` the value `value`, in place of any earlier one.
    pub fn insert(&mut self, name: String, value: V)
        ensures
            final(self)@ == old(self)@.insert(name@, value),
    {
        proof {
            use_type_invariant(&*self);
        }
        let ghost e = keyed_view(self.entries@);
        let ghost (nv, vv) = (name@, value);
        let pos = key_position(&self.entries, name.as_str());
        let mut entries: Vec<(String, V)> = Vec::new();
        std::mem::swap(&mut entries, &mut self.entries);
        match pos {
            Some(i) => {
                proof {
                    lemma_find_at(e, i as int);
                }
                entries.set(i, (name, value));
                proof {
                    let e2 = keyed_view(entries@);
                    assert(e2 =~= e.update(i as int, (e[i as int].0, vv)));
                    assert forall|a: int, b: int| 0 <= a < b < e2.len() implies #[trigger] e2[a].0
                        != #[trigger] e2[b].0 by {
                        assert(e2[a].0 == e[a].0 && e2[b].0 == e[b].0);
                    }
                    assert forall|q: Seq<char>| #![auto]
                        find_entry(e2, q) == (if q == nv {
                            Some(vv)
                        } else {
                            find_entry(e, q)
                        }) by {
                        lemma_find_update(e, i as int, vv, q);
                    }
                }
            },
            None => {
                proof {
                    lemma_find_absent(e, nv);
                }
                entries.push((name, value));
                proof {
                    let e2 = keyed_view(entries@);
                    assert(e2 =~= e.push((nv, vv)));
                    assert forall|a: int, b: int| 0 <= a < b < e2.len() implies #[trigger] e2[a].0
                        != #[trigger] e2[b].0 by {
                        if b == e.len() {
                            assert(e2[a] == e[a]);
                        }
                    }
                    assert forall|q: Seq<char>| #![auto]
                        find_entry(e2, q) == (if q == nv {
                            Some(vv)
                        } else {
                            find_entry(e, q)
                        }) by {
                        lemma_find_push(e, nv, vv, q);
                    }
                }
            },
        }
        self.entries = entries;
        proof {
            assert(self@ =~= old(self)@.insert(nv, vv));
        }
    }

    /// The entries, in the order their names were first given.
    pub fn entries(&self) -> (r: &Vec<(String, V)>)
        ensures
            map_of_entries(keyed_view(r@)) == self@,
            unique_names(keyed_view(r@)),
    {
        proof {
            use_type_invariant(self);
        }
        &self.entries
    }
}

impl NameLists {
    /// Adds `value` to the list of `name` unless it is there already;
    /// starts a list if `name` had none.
    pub fn add_unique(&mut self, name: &str, value: String)
        ensures
            final(self)@ == if list_or_empty(old(self)@, name@).contains(value@) {
                old(self)@.insert(name@, list_or_empty(old(self)@, name@))
            } else {
                old(self)@.insert(name@, list_or_empty(old(self)@, name@).push(value@))
            },
    {
        let present = match self.get(name) {
            Some(list) => {
                let mut found = false;
                let mut i: usize = 0;
                while i < list.len()
                    invariant
                        i <= list@.len(),
                        found == (exists|j: int| 0 <= j < i && list@[j]@ == value@),
                    decreases list@.len() - i,
                {
                    if str_eq(list[i].as_str(), value.as_str()) {
                        found = true;
                    }
                    i = i + 1;
                }
                proof {
                    let sv = strings_view(list@);
                    if found {
                        let j = choose|j: int| 0 <= j < i && list@[j]@ == value@;
                        assert(sv[j] == value@);
                    } else {
                        assert forall|j: int| 0 <= j < sv.len() implies sv[j] != value@ by {
                            assert(sv[j] == list@[j]@);
                        }
                    }
                }
                found
            },
            None => false,
        };
        if present {
            self.ensure(name);
        } else {
            self.add(name, value);
        }
    }
}

} // verus!
