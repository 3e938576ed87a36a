//! What the build targets of some programs are, and which layer each one
//! starts from: the data behind `raptor show`.
use vstd::prelude::*;

use crate::dsl::FromSource;
use crate::image::{image_name, spec_image_name};
use crate::names::{list_or_empty, NameLists, StrMap};
use crate::planner::BuildTarget;
use crate::program::{none_of_kind, Item, Program};
use crate::runner::{first_at, lemma_first_unique};
use crate::text::push_str;

verus! {

/// What `Utf8Path::file_stem` gives for a path.
pub uninterp spec fn path_file_stem_result(path: Seq<char>) -> Option<Seq<char>>;

/// The file name of a path without its extension (`Utf8Path::file_stem`).
/// Only named: how the name splits at dots is camino's.
#[verifier::external_body]
fn path_file_stem(path: &str) -> (r: Option<String>)
    ensures
        match r {
            Some(s) => path_file_stem_result(path@) == Some(s@),
            None => path_file_stem_result(path@) is None,
        },
{
    camino::Utf8Path::new(path).file_stem().map(|s| s.to_string())
}

/// The source of the first top-level `FROM` of a program, if any.
pub open spec fn program_from(code: Seq<Item>) -> Option<FromSource> {
    if none_of_kind(code, 0) {
        None
    } else {
        match code[first_at(code, 0)] {
            Item::Statement(s) => match s.inst {
                crate::dsl::Instruction::From(f) => Some(f.from),
                _ => None,
            },
            _ => None,
        }
    }
}

/// How a layer names the layer it starts from: a program by its module
/// name, an image as `docker://` and its full name.
pub open spec fn from_key(f: FromSource) -> Seq<char> {
    match f {
        FromSource::Raptor(m) => m@,
        FromSource::Docker(i) => "docker://"@ + spec_image_name(i@),
    }
}

/// The name of a build target: a program by the stem of its file name,
/// an image as `docker://` and its reference.
pub open spec fn target_name(t: BuildTarget) -> Seq<char> {
    match t {
        BuildTarget::Program(p) => match path_file_stem_result(p.path@) {
            Some(s) => s,
            None => Seq::empty(),
        },
        BuildTarget::DockerSource(s) => "docker://"@ + s@,
    }
}

/// The parts of the statistics.
pub struct StatsView {
    pub targets: Map<Seq<char>, BuildTarget>,
    pub roots: Set<Seq<char>>,
    pub map: Map<Seq<char>, Seq<char>>,
    pub rmap: Map<Seq<char>, Seq<Seq<char>>>,
}

/// The statistics after one more target: it is recorded by its name; a
/// program that starts from another layer is linked to that layer (both
/// ways), any other target is a root.
pub open spec fn stats_step(s: StatsView, t: BuildTarget) -> StatsView {
    let name = target_name(t);
    match t {
        BuildTarget::Program(p) => match program_from(p.code@) {
            Some(f) => {
                let key = from_key(f);
                let list = list_or_empty(s.rmap, key);
                StatsView {
                    targets: s.targets.insert(name, t),
                    map: s.map.insert(name, key),
                    rmap: s.rmap.insert(
                        key,
                        if list.contains(name) {
                            list
                        } else {
                            list.push(name)
                        },
                    ),
                    ..s
                }
            },
            None => StatsView {
                targets: s.targets.insert(name, t),
                roots: s.roots.insert(name),
                ..s
            },
        },
        BuildTarget::DockerSource(_) => StatsView {
            targets: s.targets.insert(name, t),
            roots: s.roots.insert(name),
            ..s
        },
    }
}

/// The statistics after the targets, in order.
pub open spec fn stats_fold(s: StatsView, ts: Seq<BuildTarget>) -> StatsView
    decreases ts.len(),
{
    if ts.len() == 0 {
        s
    } else {
        stats_step(stats_fold(s, ts.drop_last()), ts.last())
    }
}

/// Every program of the targets has a file name with a stem.
pub open spec fn programs_named(ts: Seq<BuildTarget>) -> bool {
    forall|i: int|
        0 <= i < ts.len() ==> ((#[trigger] ts[i]) matches BuildTarget::Program(p)
            ==> path_file_stem_result(p.path@) is Some)
}

/// The build targets seen so far, by name, and how they stack.
pub struct BuildTargetStats {
    pub targets: StrMap<BuildTarget>,
    pub roots: StrMap<()>,
    pub map: StrMap<String>,
    pub rmap: NameLists,
}

impl BuildTargetStats {
    /// The parts of the statistics.
    pub open spec fn view(&self) -> StatsView {
        StatsView {
            targets: self.targets@,
            roots: self.roots@.dom(),
            map: self.map@.map_values(|s: String| s@),
            rmap: self.rmap@,
        }
    }

    /// No targets.
    pub fn new() -> (r: Self)
        ensures
            r@ == (StatsView {
                targets: Map::empty(),
                roots: Set::empty(),
                map: Map::empty(),
                rmap: Map::empty(),
            }),
    {
        let r = BuildTargetStats {
            targets: StrMap::new(),
            roots: StrMap::new(),
            map: StrMap::new(),
            rmap: NameLists::new(),
        };
        proof {
            assert(r@.roots =~= Set::<Seq<char>>::empty());
            assert(r@.map =~= Map::<Seq<char>, Seq<char>>::empty());
        }
        r
    }

    /// Records one target, whose program (if it is one) has a file name
    /// with a stem.
    fn add_target(&mut self, t: BuildTarget)
        requires
            t matches BuildTarget::Program(p) ==> path_file_stem_result(p.path@) is Some,
        ensures
            final(self)@ == stats_step(old(self)@, t),
    {
        let ghost s0 = self@;
        match &t {
            BuildTarget::Program(p) => {
                let name = match path_file_stem(p.path.as_str()) {
                    Some(n) => n,
                    None => String::new(),
                };
                match p.from() {
                    Some((from, _origin)) => {
                        proof {
                            let i = choose|i: int|
                                crate::program::is_first_of_kind(p.code@, i, 0) && (
                                #[trigger] p.code@[i] matches Item::Statement(s) && s.inst matches crate::dsl::Instruction::From(
                                    x,
                                ) && *from == x.from);
                            lemma_first_unique(p.code@, i, first_at(p.code@, 0), 0);
                        }
                        let key = match from {
                            FromSource::Raptor(m) => m.clone(),
                            FromSource::Docker(image) => {
                                let mut k = String::new();
                                push_str(&mut k, "docker://");
                                let full = image_name(image.as_str());
                                push_str(&mut k, full.as_str());
                                proof {
                                    reveal_strlit("docker://");
                                }
                                k
                            },
                        };
                        self.rmap.add_unique(key.as_str(), name.clone());
                        let ghost kv = key@;
                        self.map.insert(name.clone(), key);
                        self.targets.insert(name, t);
                        proof {
                            assert(self@.map =~= s0.map.insert(target_name(t), kv));
                            assert(self@.roots =~= s0.roots);
                        }
                    },
                    None => {
                        self.roots.insert(name.clone(), ());
                        self.targets.insert(name, t);
                        proof {
                            assert(self@.roots =~= s0.roots.insert(target_name(t)));
                            assert(self@.map =~= s0.map);
                        }
                    },
                }
            },
            BuildTarget::DockerSource(src) => {
                let mut name = String::new();
                push_str(&mut name, "docker://");
                push_str(&mut name, src.as_str());
                proof {
                    reveal_strlit("docker://");
                }
                self.roots.insert(name.clone(), ());
                self.targets.insert(name, t);
                proof {
                    assert(self@.roots =~= s0.roots.insert(target_name(t)));
                    assert(self@.map =~= s0.map);
                }
            },
        }
    }

    /// Records the targets of a stack, in order. Every program in it has
    /// a file name with a stem.
    pub fn merge(&mut self, stack: Vec<BuildTarget>)
        requires
            programs_named(stack@),
        ensures
            final(self)@ == stats_fold(old(self)@, stack@),
    {
        let ghost all = stack@;
        let mut stack = stack;
        let n = stack.len();
        let mut i: usize = 0;
        proof {
            assert(all.take(0) =~= Seq::<BuildTarget>::empty());
            assert(stack@ =~= all.skip(0));
        }
        while i < n
            invariant
                n == all.len(),
                i <= n,
                stack@ == all.skip(i as int),
                programs_named(all),
                self@ == stats_fold(old(self)@, all.take(i as int)),
            decreases n - i,
        {
            let t = stack.remove(0);
            proof {
                assert(all[i as int] == t);
                assert(stack@ =~= all.skip(i + 1));
                assert(all.take(i + 1).drop_last() =~= all.take(i as int));
                assert(all.take(i + 1).last() == t);
            }
            self.add_target(t);
            i = i + 1;
        }
        proof {
            assert(all.take(n as int) =~= all);
        }
    }

    /// Records the targets of a stack, in order, if every program in it
    /// has a file name with a stem; otherwise changes nothing and says so.
    pub fn merge_named(&mut self, stack: Vec<BuildTarget>) -> (r: bool)
        ensures
            r == programs_named(stack@),
            r ==> final(self)@ == stats_fold(old(self)@, stack@),
            !r ==> final(self)@ == old(self)@,
    {
        let mut i: usize = 0;
        while i < stack.len()
            invariant
                i <= stack@.len(),
                forall|j: int|
                    0 <= j < i ==> ((#[trigger] stack@[j]) matches BuildTarget::Program(p)
                        ==> path_file_stem_result(p.path@) is Some),
            decreases stack@.len() - i,
        {
            match &stack[i] {
                BuildTarget::Program(p) => {
                    if path_file_stem(p.path.as_str()).is_none() {
                        return false;
                    }
                },
                BuildTarget::DockerSource(_) => {},
            }
            i = i + 1;
        }
        self.merge(stack);
        true
    }
}

/// Every layer that a name starts from lists that name among the names
/// that start from it.
pub open spec fn linked_both_ways(s: StatsView) -> bool {
    forall|n: Seq<char>|
        #[trigger] s.map.contains_key(n) ==> s.rmap.contains_key(s.map[n]) && s.rmap[s.map[
            n
        ]].contains(n)
}

/// One more target keeps every name listed under the layer it starts
/// from.
proof fn lemma_step_linked(s: StatsView, t: BuildTarget)
    requires
        linked_both_ways(s),
    ensures
        linked_both_ways(stats_step(s, t)),
{
    let s2 = stats_step(s, t);
    let name = target_name(t);
    if let BuildTarget::Program(p) = t {
        if let Some(f) = program_from(p.code@) {
            let key = from_key(f);
            let list = list_or_empty(s.rmap, key);
            let nl = if list.contains(name) { list } else { list.push(name) };
            assert(nl.contains(name)) by {
                if !list.contains(name) {
                    assert(nl[nl.len() - 1] == name);
                }
            }
            assert forall|n: Seq<char>| #[trigger] s2.map.contains_key(n) implies s2.rmap.contains_key(
                s2.map[n],
            ) && s2.rmap[s2.map[n]].contains(n) by {
                if n != name {
                    assert(s.map.contains_key(n));
                    let k = s.map[n];
                    if k == key {
                        let j = choose|j: int| 0 <= j < s.rmap[k].len() && s.rmap[k][j] == n;
                        assert(list[j] == n);
                        if !list.contains(name) {
                            assert(nl[j] == n);
                        }
                    }
                }
            }
        }
    }
}

/// Statistics gathered over any targets, from statistics where every
/// name is listed under the layer it starts from, keep that so.
pub proof fn lemma_stats_linked(s: StatsView, ts: Seq<BuildTarget>)
    requires
        linked_both_ways(s),
    ensures
        linked_both_ways(stats_fold(s, ts)),
    decreases ts.len(),
{
    if ts.len() > 0 {
        lemma_stats_linked(s, ts.drop_last());
        lemma_step_linked(stats_fold(s, ts.drop_last()), ts.last());
    }
}

/// What the statistics hold of a target for good: its name is recorded,
/// a target that starts from nothing or is an image is a root, and a
/// program that starts from a layer is listed under that layer.
pub open spec fn target_kept(s: StatsView, t: BuildTarget) -> bool {
    let n = target_name(t);
    &&& s.targets.contains_key(n)
    &&& match t {
        BuildTarget::Program(p) => match program_from(p.code@) {
            Some(f) => s.rmap.contains_key(from_key(f)) && s.rmap[from_key(f)].contains(n),
            None => s.roots.contains(n),
        },
        BuildTarget::DockerSource(_) => s.roots.contains(n),
    }
}

/// What the statistics hold of a target until another target with the
/// same name comes: the target itself under its name, and, for a program
/// that starts from a layer, that layer as its parent.
pub open spec fn target_recorded(s: StatsView, t: BuildTarget) -> bool {
    let n = target_name(t);
    &&& target_kept(s, t)
    &&& s.targets[n] == t
    &&& (t matches BuildTarget::Program(p) ==> (program_from(p.code@) matches Some(f) ==> s.map.contains_key(n)
        && s.map[n] == from_key(f)))
}

/// One more target records it, keeps what was kept, and keeps what was
/// recorded of a target with another name.
proof fn lemma_step_records(s: StatsView, t: BuildTarget, u: BuildTarget)
    ensures
        target_recorded(stats_step(s, t), t),
        target_kept(s, u) ==> target_kept(stats_step(s, t), u),
        target_recorded(s, u) && target_name(u) != target_name(t) ==> target_recorded(
            stats_step(s, t),
            u,
        ),
{
    let s2 = stats_step(s, t);
    let name = target_name(t);
    if let BuildTarget::Program(p) = t {
        if let Some(f) = program_from(p.code@) {
            let key = from_key(f);
            let list = list_or_empty(s.rmap, key);
            let nl = if list.contains(name) { list } else { list.push(name) };
            assert(nl.contains(name)) by {
                if !list.contains(name) {
                    assert(nl[nl.len() - 1] == name);
                }
            }
            if target_kept(s, u) {
                if let BuildTarget::Program(q) = u {
                    if let Some(g) = program_from(q.code@) {
                        let k = from_key(g);
                        if k == key {
                            let n = target_name(u);
                            let j = choose|j: int| 0 <= j < s.rmap[k].len() && s.rmap[k][j] == n;
                            assert(list[j] == n);
                            if !list.contains(name) {
                                assert(nl[j] == n);
                            }
                        }
                    }
                }
            }
        }
    }
}

/// After statistics are gathered over targets, each target is kept, and
/// each target that no later target shares a name with is recorded.
pub proof fn lemma_stats_records(s: StatsView, ts: Seq<BuildTarget>, i: int)
    requires
        0 <= i < ts.len(),
    ensures
        target_kept(stats_fold(s, ts), ts[i]),
        (forall|j: int| i < j < ts.len() ==> target_name(#[trigger] ts[j]) != target_name(ts[i]))
            ==> target_recorded(stats_fold(s, ts), ts[i]),
    decreases ts.len(),
{
    let prev = ts.drop_last();
    lemma_step_records(stats_fold(s, prev), ts.last(), ts[i]);
    if i < ts.len() - 1 {
        lemma_stats_records(s, prev, i);
        assert(prev[i] == ts[i]);
        if forall|j: int| i < j < ts.len() ==> target_name(#[trigger] ts[j]) != target_name(ts[i]) {
            assert forall|j: int| i < j < prev.len() implies target_name(#[trigger] prev[j])
                != target_name(prev[i]) by {
                assert(prev[j] == ts[j]);
            }
            assert(target_name(ts[ts.len() - 1]) != target_name(ts[i]));
        }
    }
}

} // verus!
