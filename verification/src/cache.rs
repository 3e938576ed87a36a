//! What a layer's cache key depends on: the statements that change the
//! layer, and the files they read.
use vstd::prelude::*;

use crate::dsl::{Instruction, Statement};
use crate::error::RaptorError;
use crate::nspawn::paths_equal;
use crate::paths::{clean_components, clean_path, components_less, lemma_components_order, path_before, path_join, path_join_result, same_path};
use crate::program::{deref_all, flatten_items, flatten_program, Program};
use crate::resolver::spec_basedir;
use crate::text::strings_view;

verus! {

/// Whether path `a` comes before path `b` (`<` on `Utf8Path`, which
/// compares the sequences of components; `Utf8Component`'s derived order
/// puts the root before `.`, `.` before `..`, and those before names,
/// which compare by their bytes).
#[verifier::external_body]
fn path_less(a: &str, b: &str) -> (r: bool)
    ensures
        r == path_before(a@, b@),
        clean_path(a@) && clean_path(b@) ==> r == components_less(
            clean_components(a@),
            clean_components(b@),
        ),
{
    camino::Utf8Path::new(a) < camino::Utf8Path::new(b)
}

/// Computes cache keys of layers.
pub struct Cacher;

/// Whether a statement changes the layer it is built into, and so counts
/// for the layer's cache key. `FROM`, `MOUNT`, `INCLUDE`, `ENTRYPOINT`
/// and `CMD` do not.
pub open spec fn spec_in_build_hash(inst: Instruction) -> bool {
    match inst {
        Instruction::Copy(_) | Instruction::Render(_) | Instruction::Write(_)
        | Instruction::Mkdir(_) | Instruction::Run(_) | Instruction::Env(_)
        | Instruction::Workdir(_) => true,
        Instruction::From(_) | Instruction::Mount(_) | Instruction::Include(_)
        | Instruction::Entrypoint(_) | Instruction::Cmd(_) => false,
    }
}

/// The files a statement reads, as written: the sources of `COPY` and
/// the template of `RENDER`.
pub open spec fn stmt_files(s: Statement) -> Seq<Seq<char>> {
    match s.inst {
        Instruction::Copy(c) => strings_view(c.srcs@),
        Instruction::Render(r) => seq![r.src@],
        _ => Seq::empty(),
    }
}

/// The files a statement reads, taken from the directory of its file; a
/// statement that reads files from a file without a directory is an error
/// (carrying that file).
pub open spec fn stmt_sources(s: Statement) -> Result<Seq<Seq<char>>, Seq<char>> {
    if stmt_files(s).len() == 0 {
        Ok(Seq::empty())
    } else {
        match spec_basedir(s.origin.path@) {
            Some(d) => Ok(stmt_files(s).map_values(|f: Seq<char>| path_join_result(d, f))),
            None => Err(s.origin.path@),
        }
    }
}

/// The files the statements read, in order, or the first error.
pub open spec fn collect_sources(stmts: Seq<Statement>) -> Result<Seq<Seq<char>>, Seq<char>>
    decreases stmts.len(),
{
    if stmts.len() == 0 {
        Ok(Seq::empty())
    } else {
        match collect_sources(stmts.drop_last()) {
            Err(e) => Err(e),
            Ok(done) => match stmt_sources(stmts.last()) {
                Err(e) => Err(e),
                Ok(more) => Ok(done + more),
            },
        }
    }
}

/// Where `p` goes in `out`: before the first path that it is not after.
pub open spec fn insert_at(out: Seq<Seq<char>>, p: Seq<char>) -> int
    decreases out.len(),
{
    if out.len() == 0 {
        0
    } else if !path_before(out[0], p) {
        0
    } else {
        1 + insert_at(out.drop_first(), p)
    }
}

/// `out` with `p` put in order, unless the same path is already there.
pub open spec fn ordered_insert(out: Seq<Seq<char>>, p: Seq<char>) -> Seq<Seq<char>> {
    let j = insert_at(out, p);
    if j < out.len() && same_path(out[j], p) {
        out
    } else {
        out.insert(j, p)
    }
}

/// The paths put in order one by one, each path once.
pub open spec fn ordered_set(ps: Seq<Seq<char>>) -> Seq<Seq<char>>
    decreases ps.len(),
{
    if ps.len() == 0 {
        Seq::empty()
    } else {
        ordered_insert(ordered_set(ps.drop_last()), ps.last())
    }
}

/// Each path comes before every later one: the paths are in order, and
/// no path occurs twice.
pub open spec fn in_path_order(ps: Seq<Seq<char>>) -> bool {
    forall|i: int, j: int| 0 <= i < j < ps.len() ==> path_before(#[trigger] ps[i], #[trigger] ps[j])
}

/// The paths before the place of `p` come before it; the one at that
/// place, if any, does not.
proof fn lemma_insert_at(out: Seq<Seq<char>>, p: Seq<char>)
    ensures
        0 <= insert_at(out, p) <= out.len(),
        forall|k: int| 0 <= k < insert_at(out, p) ==> path_before(#[trigger] out[k], p),
        insert_at(out, p) < out.len() ==> !path_before(out[insert_at(out, p)], p),
    decreases out.len(),
{
    if out.len() > 0 && path_before(out[0], p) {
        let rest = out.drop_first();
        lemma_insert_at(rest, p);
        assert forall|k: int| 0 <= k < insert_at(out, p) implies path_before(#[trigger] out[k], p) by {
            if k > 0 {
                assert(out[k] == rest[k - 1]);
            }
        }
    }
}

/// Putting a path in keeps the paths in order.
pub proof fn lemma_ordered_insert(out: Seq<Seq<char>>, p: Seq<char>)
    requires
        in_path_order(out),
    ensures
        in_path_order(ordered_insert(out, p)),
{
    lemma_insert_at(out, p);
    lemma_components_order();
    let j = insert_at(out, p);
    if !(j < out.len() && same_path(out[j], p)) {
        let r = out.insert(j, p);
        if j < out.len() {
            assert(path_before(p, out[j]));
        }
        assert forall|a: int, b: int| 0 <= a < b < r.len() implies path_before(
            #[trigger] r[a],
            #[trigger] r[b],
        ) by {
            if b < j {
                assert(r[a] == out[a] && r[b] == out[b]);
            } else if b == j {
                assert(r[a] == out[a]);
            } else if a == j {
                assert(r[b] == out[b - 1]);
                if b - 1 > j {
                    assert(path_before(out[j], out[b - 1]));
                }
            } else if a < j {
                assert(r[a] == out[a] && r[b] == out[b - 1]);
                assert(path_before(out[a], p));
                assert(path_before(p, out[j]));
                if b - 1 > j {
                    assert(path_before(out[j], out[b - 1]));
                }
            } else {
                assert(r[a] == out[a - 1] && r[b] == out[b - 1]);
            }
        }
    }
}

/// Paths put in one by one come out in order, each once.
pub proof fn lemma_ordered_set(ps: Seq<Seq<char>>)
    ensures
        in_path_order(ordered_set(ps)),
    decreases ps.len(),
{
    if ps.len() > 0 {
        lemma_ordered_set(ps.drop_last());
        lemma_ordered_insert(ordered_set(ps.drop_last()), ps.last());
    }
}

/// The paths put in one by one are, up to being the same path, the ones
/// that come out: every one that comes out was put in, and every one put
/// in has the same path among those that come out.
pub proof fn lemma_ordered_set_members(ps: Seq<Seq<char>>)
    ensures
        forall|x: Seq<char>| ordered_set(ps).contains(x) ==> ps.contains(x),
        forall|i: int|
            0 <= i < ps.len() ==> exists|y: Seq<char>|
                ordered_set(ps).contains(y) && same_path(y, #[trigger] ps[i]),
    decreases ps.len(),
{
    if ps.len() > 0 {
        let prev = ps.drop_last();
        let out = ordered_set(prev);
        let p = ps.last();
        lemma_ordered_set_members(prev);
        lemma_insert_at(out, p);
        let j = insert_at(out, p);
        let r = ordered_set(ps);
        assert(r == ordered_insert(out, p));
        assert forall|x: Seq<char>| out.contains(x) implies r.contains(x) by {
            let k = choose|k: int| 0 <= k < out.len() && out[k] == x;
            if !(j < out.len() && same_path(out[j], p)) {
                if k < j {
                    assert(r[k] == x);
                } else {
                    assert(r[k + 1] == x);
                }
            }
        }
        assert forall|x: Seq<char>| r.contains(x) implies ps.contains(x) by {
            let k = choose|k: int| 0 <= k < r.len() && r[k] == x;
            if j < out.len() && same_path(out[j], p) {
                assert(out.contains(x));
            } else if k == j {
                assert(x == ps[ps.len() - 1]);
            } else if k < j {
                assert(out[k] == x);
            } else {
                assert(out[k - 1] == x);
            }
            if out.contains(x) {
                assert(prev.contains(x));
                let m = choose|m: int| 0 <= m < prev.len() && prev[m] == x;
                assert(ps[m] == x);
            } else {
                assert(x == p);
                assert(ps[ps.len() - 1] == x);
            }
        }
        assert forall|i: int| 0 <= i < ps.len() implies exists|y: Seq<char>|
            r.contains(y) && same_path(y, #[trigger] ps[i]) by {
            if i < ps.len() - 1 {
                assert(ps[i] == prev[i]);
                let y = choose|y: Seq<char>| out.contains(y) && same_path(y, prev[i]);
                assert(r.contains(y));
            } else if j < out.len() && same_path(out[j], p) {
                assert(out.contains(out[j]));
                assert(r.contains(out[j]));
            } else {
                assert(r[j] == p);
                assert(r.contains(p));
            }
        }
    }
}

/// Finds where `p` goes in `out`.
fn find_insert_at(out: &Vec<String>, p: &str) -> (r: usize)
    ensures
        r == insert_at(strings_view(out@), p@),
        r <= out@.len(),
{
    let ghost ov = strings_view(out@);
    let mut i: usize = 0;
    proof {
        assert(ov.skip(0) =~= ov);
    }
    while i < out.len()
        invariant
            i <= out@.len(),
            ov == strings_view(out@),
            insert_at(ov, p@) == i + insert_at(ov.skip(i as int), p@),
        decreases out@.len() - i,
    {
        proof {
            assert(ov.skip(i as int)[0] == out@[i as int]@);
        }
        if !path_less(out[i].as_str(), p) {
            return i;
        }
        proof {
            assert(ov.skip(i as int).drop_first() =~= ov.skip(i + 1));
        }
        i = i + 1;
    }
    proof {
        assert(ov.skip(i as int).len() == 0);
    }
    i
}

impl Cacher {
    /// Whether a statement counts for the cache key of its layer.
    pub fn include_in_build_hash(stmt: &Statement) -> (r: bool)
        ensures
            r == spec_in_build_hash(stmt.inst),
            r <==> (stmt.inst is Copy || stmt.inst is Render || stmt.inst is Write
                || stmt.inst is Mkdir || stmt.inst is Run || stmt.inst is Env
                || stmt.inst is Workdir),
    {
        match stmt.inst {
            Instruction::Copy(_) | Instruction::Render(_) | Instruction::Write(_)
            | Instruction::Mkdir(_) | Instruction::Run(_) | Instruction::Env(_)
            | Instruction::Workdir(_) => true,
            Instruction::From(_) | Instruction::Mount(_) | Instruction::Include(_)
            | Instruction::Entrypoint(_) | Instruction::Cmd(_) => false,
        }
    }

    /// The files that the statements of a program read (included
    /// programs too), each path once, in path order. A statement that
    /// reads files from a file without a directory is an error.
    pub fn sources(prog: &Program) -> (r: Result<Vec<String>, RaptorError>)
        ensures
            match collect_sources(flatten_items(prog.code@)) {
                Ok(ps) => r matches Ok(v) && strings_view(v@) == ordered_set(ps) && in_path_order(
                    strings_view(v@),
                ) && (forall|x: Seq<char>| strings_view(v@).contains(x) ==> ps.contains(x)) && (
                forall|i: int|
                    0 <= i < ps.len() ==> exists|y: Seq<char>|
                        strings_view(v@).contains(y) && same_path(y, #[trigger] ps[i])),
                Err(p) => r matches Err(RaptorError::BadPathNoParent(q)) && q@ == p,
            },
    {
        let stmts = flatten_program(prog);
        let ghost sv = deref_all(stmts@);
        let mut all: Vec<String> = Vec::new();
        let mut i: usize = 0;
        proof {
            assert(sv.take(0) =~= Seq::<Statement>::empty());
            assert(strings_view(all@) =~= Seq::<Seq<char>>::empty());
        }
        while i < stmts.len()
            invariant
                i <= stmts@.len(),
                sv == deref_all(stmts@),
                sv == flatten_items(prog.code@),
                collect_sources(sv.take(i as int)) == Ok::<Seq<Seq<char>>, Seq<char>>(
                    strings_view(all@),
                ),
            decreases stmts@.len() - i,
        {
            let stmt = stmts[i];
            proof {
                assert(sv.take(i + 1).drop_last() =~= sv.take(i as int));
                assert(sv.take(i + 1).last() == *stmt);
            }
            let files: Vec<String> = match &stmt.inst {
                Instruction::Copy(c) => crate::text::clone_strings(c.srcs.as_slice()),
                Instruction::Render(r) => vec![r.src.clone()],
                _ => Vec::new(),
            };
            proof {
                assert(strings_view(files@) =~= stmt_files(*stmt));
            }
            if files.len() > 0 {
                match stmt.origin.basedir() {
                    Ok(dir) => {
                        let ghost before = strings_view(all@);
                        let mut j: usize = 0;
                        while j < files.len()
                            invariant
                                j <= files@.len(),
                                strings_view(all@) == before + strings_view(files@).take(
                                    j as int,
                                ).map_values(|f: Seq<char>| path_join_result(dir@, f)),
                            decreases files@.len() - j,
                        {
                            let p = path_join(dir.as_str(), files[j].as_str());
                            let ghost mid = strings_view(all@);
                            all.push(p);
                            proof {
                                assert(strings_view(all@) =~= mid.push(p@));
                                assert(strings_view(files@).take(j + 1).map_values(
                                    |f: Seq<char>| path_join_result(dir@, f),
                                ) =~= strings_view(files@).take(j as int).map_values(
                                    |f: Seq<char>| path_join_result(dir@, f),
                                ).push(p@));
                            }
                            j = j + 1;
                        }
                        proof {
                            assert(strings_view(files@).take(files@.len() as int) =~= strings_view(
                                files@,
                            ));
                        }
                    },
                    Err(e) => {
                        proof {
                            lemma_collect_stops(sv, i as int + 1);
                        }
                        return Err(e);
                    },
                }
            } else {
                proof {
                    assert(strings_view(all@) + Seq::<Seq<char>>::empty() =~= strings_view(all@));
                }
            }
            i = i + 1;
        }
        proof {
            assert(sv.take(stmts@.len() as int) =~= sv);
        }
        let ghost av = strings_view(all@);
        let mut out: Vec<String> = Vec::new();
        let mut k: usize = 0;
        proof {
            assert(av.take(0) =~= Seq::<Seq<char>>::empty());
            assert(strings_view(out@) =~= Seq::<Seq<char>>::empty());
        }
        while k < all.len()
            invariant
                k <= all@.len(),
                av == strings_view(all@),
                strings_view(out@) == ordered_set(av.take(k as int)),
            decreases all@.len() - k,
        {
            let p = &all[k];
            let ghost ov = strings_view(out@);
            proof {
                assert(av.take(k + 1).drop_last() =~= av.take(k as int));
                assert(av.take(k + 1).last() == p@);
            }
            let j = find_insert_at(&out, p.as_str());
            if j < out.len() && paths_equal(out[j].as_str(), p.as_str()) {
            } else {
                out.insert(j, p.clone());
                proof {
                    assert(strings_view(out@) =~= ov.insert(j as int, p@));
                }
            }
            k = k + 1;
        }
        proof {
            assert(av.take(all@.len() as int) =~= av);
            lemma_ordered_set(av);
            lemma_ordered_set_members(av);
        }
        Ok(out)
    }
}

/// Once a statement fails, the ones after it change nothing.
proof fn lemma_collect_stops(stmts: Seq<Statement>, n: int)
    requires
        0 <= n <= stmts.len(),
        collect_sources(stmts.take(n)) is Err,
    ensures
        collect_sources(stmts) == collect_sources(stmts.take(n)),
    decreases stmts.len() - n,
{
    if n < stmts.len() {
        assert(stmts.take(n + 1).drop_last() =~= stmts.take(n));
        lemma_collect_stops(stmts, n + 1);
    } else {
        assert(stmts.take(n) =~= stmts);
    }
}

/// A statement counts for the cache key of its layer exactly when it
/// changes what the layer holds: `COPY`, `RENDER`, `WRITE`, `MKDIR`,
/// `RUN`, `ENV` and `WORKDIR` count, so editing any of them makes a new
/// key; `FROM`, `MOUNT`, `INCLUDE`, `ENTRYPOINT` and `CMD` do not.
pub proof fn lemma_cache_key_statements(inst: Instruction)
    ensures
        inst is Copy ==> spec_in_build_hash(inst),
        inst is Render ==> spec_in_build_hash(inst),
        inst is Write ==> spec_in_build_hash(inst),
        inst is Mkdir ==> spec_in_build_hash(inst),
        inst is Run ==> spec_in_build_hash(inst),
        inst is Env ==> spec_in_build_hash(inst),
        inst is Workdir ==> spec_in_build_hash(inst),
        inst is From ==> !spec_in_build_hash(inst),
        inst is Mount ==> !spec_in_build_hash(inst),
        inst is Include ==> !spec_in_build_hash(inst),
        inst is Entrypoint ==> !spec_in_build_hash(inst),
        inst is Cmd ==> !spec_in_build_hash(inst),
{
}

} // verus!
