//! File system paths, handled as UTF-8 strings through `camino`.
use camino::Utf8Path;
use vstd::prelude::*;

verus! {

/// What `Utf8Path::join` gives for a base path and a path to adjoin.
pub uninterp spec fn path_join_result(base: Seq<char>, path: Seq<char>) -> Seq<char>;

/// What `Utf8Path::parent` gives for a path.
pub uninterp spec fn path_parent_result(path: Seq<char>) -> Option<Seq<char>>;

/// The components that `Utf8Path::components` yields for a path, each as
/// its string form.
pub uninterp spec fn path_components_result(path: Seq<char>) -> Seq<Seq<char>>;

/// A path that starts at the root.
pub open spec fn is_absolute(path: Seq<char>) -> bool {
    path.len() > 0 && path[0] == '/'
}

/// The parts of a string between its `/` separators, in order (so `/a`
/// gives an empty part, then `a`).
pub open spec fn split_at_slash(s: Seq<char>) -> Seq<Seq<char>>
    decreases s.len(),
{
    if s.len() == 0 {
        seq![Seq::empty()]
    } else {
        let rest = split_at_slash(s.drop_last());
        if s.last() == '/' {
            rest.push(Seq::empty())
        } else {
            rest.update(rest.len() - 1, rest.last().push(s.last()))
        }
    }
}

/// A path that needs no normalisation: not empty, and no part after the
/// first is empty (a repeated or trailing separator) or `.`.
pub open spec fn clean_path(s: Seq<char>) -> bool {
    let g = split_at_slash(s);
    s.len() > 0 && forall|i: int| 1 <= i < g.len() ==> (#[trigger] g[i]).len() > 0 && g[i] != seq!['.']
}

/// The components of a clean path: the root if it starts with `/`, then
/// its parts.
pub open spec fn clean_components(s: Seq<char>) -> Seq<Seq<char>> {
    let g = split_at_slash(s);
    if g[0].len() == 0 {
        seq![seq!['/']] + g.drop_first()
    } else {
        g
    }
}

/// `base` joined with `path` (`Utf8Path::join`). As the documentation
/// states, an absolute `path` replaces `base`, and a relative `path` is
/// appended after a separator to a non-empty `base` that does not already
/// end in one. Other cases (an empty base, a base that ends in `/`) are
/// only named.
#[verifier::external_body]
pub(crate) fn path_join(base: &str, path: &str) -> (r: String)
    ensures
        r@ == path_join_result(base@, path@),
        is_absolute(path@) ==> r@ == path@,
        !is_absolute(path@) && base@.len() > 0 && base@.last() != '/' ==> r@ == base@ + seq![
            '/',
        ] + path@,
{
    Utf8Path::new(base).join(path).into_string()
}

/// The path without its final component, if it has one
/// (`Utf8Path::parent`). As camino documents, a clean path of two or more
/// components has a parent with all but its last component. Otherwise
/// only named: which prefix string is the parent depends on how the path
/// normalises.
#[verifier::external_body]
pub(crate) fn path_parent(path: &str) -> (r: Option<String>)
    ensures
        match r {
            Some(p) => path_parent_result(path@) == Some(p@),
            None => path_parent_result(path@) is None,
        },
        clean_path(path@) && clean_components(path@).len() >= 2 ==> r is Some,
        r matches Some(p) ==> (clean_path(path@) && clean_components(path@).len() >= 2
            ==> path_components_result(p@) == clean_components(path@).drop_last()),
{
    Utf8Path::new(path).parent().map(|p| p.as_str().to_string())
}

/// The components of a path, each as its string (`Utf8Path::components`,
/// `Utf8Component::as_str`). Repeated separators, `.` after the start and
/// a trailing `/` are normalised away, as camino documents; of a path
/// that needs none of that, the components are the root (if any) and
/// the parts between separators. Other paths are only named.
#[verifier::external_body]
pub(crate) fn path_components(path: &str) -> (r: Vec<String>)
    ensures
        r@.map_values(|s: String| s@) == path_components_result(path@),
        clean_path(path@) ==> r@.map_values(|s: String| s@) == clean_components(path@),
{
    Utf8Path::new(path).components().map(|c| c.as_str().to_string()).collect()
}

/// A path built by adjoining `parts` in turn to an empty path, as
/// `Utf8PathBuf::from_iter` does.
pub open spec fn join_all(parts: Seq<Seq<char>>) -> Seq<char>
    decreases parts.len(),
{
    if parts.len() == 0 {
        Seq::empty()
    } else {
        path_join_result(join_all(parts.drop_last()), parts.last())
    }
}

/// The path made of `parts`, adjoined in order to an empty path.
pub fn path_from_parts(parts: &Vec<String>) -> (r: String)
    ensures
        r@ == join_all(parts@.map_values(|s: String| s@)),
{
    let mut res = String::new();
    let mut i: usize = 0;
    while i < parts.len()
        invariant
            i <= parts@.len(),
            res@ == join_all(parts@.take(i as int).map_values(|s: String| s@)),
        decreases parts@.len() - i,
    {
        res = path_join(res.as_str(), parts[i].as_str());
        proof {
            let a = parts@.take(i + 1).map_values(|s: String| s@);
            let b = parts@.take(i as int).map_values(|s: String| s@);
            assert(a.drop_last() =~= b);
        }
        i = i + 1;
    }
    proof {
        assert(parts@.take(parts@.len() as int) =~= parts@);
    }
    res
}

/// Lexicographic order on sequences, from an order `lt` on their items: a
/// proper prefix comes first.
pub open spec fn lex_less<T>(a: Seq<T>, b: Seq<T>, lt: spec_fn(T, T) -> bool) -> bool
    decreases a.len(),
{
    if a.len() == 0 {
        b.len() > 0
    } else if b.len() == 0 {
        false
    } else if lt(a[0], b[0]) {
        true
    } else if a[0] == b[0] {
        lex_less(a.drop_first(), b.drop_first(), lt)
    } else {
        false
    }
}

/// `lt` is a strict total order.
pub open spec fn strict_total<T>(lt: spec_fn(T, T) -> bool) -> bool {
    &&& forall|x: T| !#[trigger] lt(x, x)
    &&& forall|x: T, y: T, z: T| #[trigger] lt(x, y) && #[trigger] lt(y, z) ==> lt(x, z)
    &&& forall|x: T, y: T| x != y ==> #[trigger] lt(x, y) || #[trigger] lt(y, x)
}

/// Characters in the order of their code points (which is also the
/// order of their UTF-8 bytes).
pub open spec fn char_lt() -> spec_fn(char, char) -> bool {
    |x: char, y: char| (x as int) < (y as int)
}

/// Where a component stands among the kinds of components: the root,
/// `.`, `..`, then names.
pub open spec fn component_rank(c: Seq<char>) -> int {
    if c == seq!['/'] {
        0
    } else if c == seq!['.'] {
        1
    } else if c == seq!['.', '.'] {
        2
    } else {
        3
    }
}

/// The order of path components (`Utf8Component`'s derived order on
/// Unix): by kind, and names by their characters.
pub open spec fn component_lt() -> spec_fn(Seq<char>, Seq<char>) -> bool {
    |a: Seq<char>, b: Seq<char>|
        component_rank(a) < component_rank(b) || (component_rank(a) == 3 && component_rank(b) == 3
            && lex_less(a, b, char_lt()))
}

/// Whether the components of one path come before those of another.
pub open spec fn components_less(a: Seq<Seq<char>>, b: Seq<Seq<char>>) -> bool {
    lex_less(a, b, component_lt())
}

/// No sequence comes before itself.
pub proof fn lemma_lex_irreflexive<T>(a: Seq<T>, lt: spec_fn(T, T) -> bool)
    requires
        strict_total(lt),
    ensures
        !lex_less(a, a, lt),
    decreases a.len(),
{
    if a.len() > 0 {
        assert(!lt(a[0], a[0]));
        lemma_lex_irreflexive(a.drop_first(), lt);
    }
}

/// The lexicographic order is transitive.
pub proof fn lemma_lex_transitive<T>(a: Seq<T>, b: Seq<T>, c: Seq<T>, lt: spec_fn(T, T) -> bool)
    requires
        strict_total(lt),
        lex_less(a, b, lt),
        lex_less(b, c, lt),
    ensures
        lex_less(a, c, lt),
    decreases a.len(),
{
    if a.len() > 0 {
        assert(b.len() > 0 && c.len() > 0);
        if lt(a[0], b[0]) {
            if lt(b[0], c[0]) {
                assert(lt(a[0], c[0]));
            }
        } else if lt(b[0], c[0]) {
        } else {
            lemma_lex_transitive(a.drop_first(), b.drop_first(), c.drop_first(), lt);
        }
    }
}

/// Of two different sequences, one comes before the other.
pub proof fn lemma_lex_total<T>(a: Seq<T>, b: Seq<T>, lt: spec_fn(T, T) -> bool)
    requires
        strict_total(lt),
        a != b,
    ensures
        lex_less(a, b, lt) || lex_less(b, a, lt),
    decreases a.len(),
{
    if a.len() == 0 {
        assert(b.len() > 0) by {
            if b.len() == 0 {
                assert(a =~= b);
            }
        }
    } else if b.len() == 0 {
    } else if a[0] == b[0] {
        assert(a.drop_first() != b.drop_first()) by {
            if a.drop_first() == b.drop_first() {
                assert(a =~= seq![a[0]] + a.drop_first());
                assert(b =~= seq![b[0]] + b.drop_first());
            }
        }
        lemma_lex_total(a.drop_first(), b.drop_first(), lt);
    } else {
        assert(lt(a[0], b[0]) || lt(b[0], a[0]));
    }
}

/// The lexicographic order from a strict total order is one too.
pub proof fn lemma_lex_strict_total<T>(lt: spec_fn(T, T) -> bool)
    requires
        strict_total(lt),
    ensures
        strict_total(|a: Seq<T>, b: Seq<T>| lex_less(a, b, lt)),
{
    let l = |a: Seq<T>, b: Seq<T>| lex_less(a, b, lt);
    assert forall|x: Seq<T>| !#[trigger] l(x, x) by {
        lemma_lex_irreflexive(x, lt);
    }
    assert forall|x: Seq<T>, y: Seq<T>, z: Seq<T>| #[trigger] l(x, y) && #[trigger] l(y, z) implies l(
        x,
        z,
    ) by {
        lemma_lex_transitive(x, y, z, lt);
    }
    assert forall|x: Seq<T>, y: Seq<T>| x != y implies #[trigger] l(x, y) || #[trigger] l(y, x) by {
        lemma_lex_total(x, y, lt);
    }
}

/// The order of components is a strict total order.
pub proof fn lemma_component_order()
    ensures
        strict_total(component_lt()),
{
    let ch = char_lt();
    assert forall|x: char, y: char| x != y implies #[trigger] ch(x, y) || #[trigger] ch(y, x) by {
        assert((x as int) != (y as int));
    }
    assert(strict_total(ch));
    lemma_lex_strict_total(char_lt());
    let names = |a: Seq<char>, b: Seq<char>| lex_less(a, b, char_lt());
    assert(strict_total(names));
    let c = component_lt();
    assert forall|x: Seq<char>| !#[trigger] c(x, x) by {
        assert(!names(x, x));
    }
    assert forall|x: Seq<char>, y: Seq<char>, z: Seq<char>| #[trigger] c(x, y) && #[trigger] c(
        y,
        z,
    ) implies c(x, z) by {
        if component_rank(x) == 3 && component_rank(y) == 3 && component_rank(z) == 3 {
            assert(names(x, y) && names(y, z));
        }
    }
    assert forall|x: Seq<char>, y: Seq<char>| x != y implies #[trigger] c(x, y) || #[trigger] c(
        y,
        x,
    ) by {
        if component_rank(x) == 3 && component_rank(y) == 3 {
            assert(names(x, y) || names(y, x));
        }
    }
}

/// The order of component sequences is a strict total order.
pub proof fn lemma_components_order()
    ensures
        forall|a: Seq<Seq<char>>| !#[trigger] components_less(a, a),
        forall|a: Seq<Seq<char>>, b: Seq<Seq<char>>, c: Seq<Seq<char>>|
            #[trigger] components_less(a, b) && #[trigger] components_less(b, c)
                ==> components_less(a, c),
        forall|a: Seq<Seq<char>>, b: Seq<Seq<char>>|
            a != b ==> #[trigger] components_less(a, b) || #[trigger] components_less(b, a),
{
    lemma_component_order();
    lemma_lex_strict_total(component_lt());
    let l = |a: Seq<Seq<char>>, b: Seq<Seq<char>>| lex_less(a, b, component_lt());
    assert forall|a: Seq<Seq<char>>| !#[trigger] components_less(a, a) by {
        assert(!l(a, a));
    }
    assert forall|a: Seq<Seq<char>>, b: Seq<Seq<char>>, c: Seq<Seq<char>>|
        #[trigger] components_less(a, b) && #[trigger] components_less(b, c) implies components_less(
        a,
        c,
    ) by {
        assert(l(a, b) && l(b, c));
    }
    assert forall|a: Seq<Seq<char>>, b: Seq<Seq<char>>| a != b implies #[trigger] components_less(
        a,
        b,
    ) || #[trigger] components_less(b, a) by {
        assert(l(a, b) || l(b, a));
    }
}

/// Two paths are the same path: they have the same components.
pub open spec fn same_path(a: Seq<char>, b: Seq<char>) -> bool {
    path_components_result(a) == path_components_result(b)
}

/// Path `a` comes before path `b` (`Utf8Path`'s order): its components
/// come first.
pub open spec fn path_before(a: Seq<char>, b: Seq<char>) -> bool {
    components_less(path_components_result(a), path_components_result(b))
}

} // verus!
