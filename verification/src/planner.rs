//! Planning a make run: a graph of build and run jobs, each job keyed by
//! its hash, each knowing the jobs it depends on.
use std::collections::HashMap;
use std::sync::Arc;
use vstd::prelude::*;

use crate::layer::LayerInfo;
use crate::make::RunTarget;
use crate::mounts::{layer_id, layer_path};
use crate::dsl::{FromSource, Origin};
use crate::image::{image_name, spec_image_name};
use crate::program::Program;
use crate::runner::{first_at, lemma_first_unique};
use crate::stats::program_from;
use crate::text::{clone_strings, strings_view};

verus! {

broadcast use vstd::std_specs::hash::group_hash_axioms;

/// What a layer is built from: a program, or a Docker image (by its
/// reference).
pub enum BuildTarget {
    Program(Arc<Program>),
    DockerSource(String),
}

/// A layer to build: the layers under it, what it is built from, and its
/// name and hash.
pub struct BuildLayer {
    pub layers: Vec<String>,
    pub target: BuildTarget,
    pub layerinfo: LayerInfo,
}

/// A job of a make run.
pub enum Job {
    Build(BuildLayer),
    Run { name: String, job: RunTarget },
}

/// A dependency list with `d` added, unless it is there already.
pub open spec fn add_dep(deps: Seq<u64>, d: u64) -> Seq<u64> {
    if deps.contains(d) {
        deps
    } else {
        deps.push(d)
    }
}

/// A planned job, with its text taken by view: a build of a layer from
/// `target` under the given layers, or a run of `job` under `name`.
pub enum JobSummary {
    Build { layers: Seq<Seq<char>>, target: BuildTarget, info: LayerInfo },
    Run { name: Seq<char>, job: RunTarget },
}

/// The summary of a job.
pub open spec fn summary(j: Job) -> JobSummary {
    match j {
        Job::Build(b) => JobSummary::Build {
            layers: strings_view(b.layers@),
            target: b.target,
            info: b.layerinfo,
        },
        Job::Run { name, job } => JobSummary::Run { name: name@, job },
    }
}

/// The hash of a layer, and whether it is built from a program.
pub open spec fn stack_entry(e: (BuildTarget, LayerInfo)) -> (u64, bool) {
    (e.1.spec_hash(), e.0 is Program)
}

/// The graph and jobs after adding the layers of a stack, bottom first:
/// each layer not planned yet becomes a build job on top of the layers
/// below it, and a layer built from a program depends on the layer below
/// it. Also gives the hash of the top layer.
pub open spec fn build_fold(
    nodes: Map<u64, Seq<u64>>,
    jobs: Map<u64, JobSummary>,
    stack: Seq<(BuildTarget, LayerInfo)>,
) -> (Map<u64, Seq<u64>>, Map<u64, JobSummary>, Option<u64>)
    decreases stack.len(),
{
    if stack.len() == 0 {
        (nodes, jobs, None)
    } else {
        let (n, j, last) = build_fold(nodes, jobs, stack.drop_last());
        let (h, is_prog) = stack_entry(stack.last());
        let below = stack.drop_last().map_values(|e: (BuildTarget, LayerInfo)| layer_path(e.1));
        let n1 = if j.contains_key(h) {
            n
        } else {
            n.insert(h, Seq::empty())
        };
        let j1 = if j.contains_key(h) {
            j
        } else {
            j.insert(h, JobSummary::Build { layers: below, target: stack.last().0, info: stack.last().1 })
        };
        let n2 = if is_prog && last is Some {
            n1.insert(h, add_dep(n1[h], last->0))
        } else {
            n1
        };
        (n2, j1, Some(h))
    }
}

/// The graph and jobs after the input stacks of a run job: each stack is
/// added as build jobs, and the run job depends on the top of each.
pub open spec fn inputs_fold(
    nodes: Map<u64, Seq<u64>>,
    jobs: Map<u64, JobSummary>,
    inputs: Seq<Seq<(BuildTarget, LayerInfo)>>,
    run: u64,
) -> (Map<u64, Seq<u64>>, Map<u64, JobSummary>)
    decreases inputs.len(),
{
    if inputs.len() == 0 {
        (nodes, jobs)
    } else {
        let (n, j) = inputs_fold(nodes, jobs, inputs.drop_last(), run);
        let (n1, j1, top) = build_fold(n, j, inputs.last());
        let n2 = match top {
            Some(t) => if n1.contains_key(run) {
                n1.insert(run, add_dep(n1[run], t))
            } else {
                n1
            },
            None => n1,
        };
        (n2, j1)
    }
}

/// The graph and jobs after adding a run job `job` named `name` with hash
/// `run`: its program's stack as build jobs, the run job depending on the
/// top of it (replacing any job with the same hash), then its inputs.
pub open spec fn run_job_plan(
    nodes: Map<u64, Seq<u64>>,
    jobs: Map<u64, JobSummary>,
    name: Seq<char>,
    job: RunTarget,
    run: u64,
    target: Seq<(BuildTarget, LayerInfo)>,
    inputs: Seq<Seq<(BuildTarget, LayerInfo)>>,
) -> (Map<u64, Seq<u64>>, Map<u64, JobSummary>) {
    let (n1, j1, top) = build_fold(nodes, jobs, target);
    let deps = match top {
        Some(t) => seq![t],
        None => Seq::empty(),
    };
    inputs_fold(n1.insert(run, deps), j1.insert(run, JobSummary::Run { name, job }), inputs, run)
}

/// The jobs of a make run and their dependencies.
pub struct Planner {
    nodes: HashMap<u64, Vec<u64>>,
    jobs: HashMap<u64, Job>,
}

impl Planner {
    /// The dependencies of each job.
    pub closed spec fn spec_nodes(&self) -> Map<u64, Seq<u64>> {
        self.nodes@.map_values(|v: Vec<u64>| v@)
    }

    /// What each job is.
    pub closed spec fn spec_jobs(&self) -> Map<u64, JobSummary> {
        self.jobs@.map_values(|j: Job| summary(j))
    }

    /// Every job has a node in the graph, and every node a job.
    #[verifier::type_invariant]
    closed spec fn inv(&self) -> bool {
        self.nodes@.dom() == self.jobs@.dom()
    }

    /// No jobs.
    pub fn new() -> (r: Self)
        ensures
            r.spec_nodes() == Map::<u64, Seq<u64>>::empty(),
            r.spec_jobs() == Map::<u64, JobSummary>::empty(),
    {
        let r = Planner { nodes: HashMap::new(), jobs: HashMap::new() };
        proof {
            assert(r.spec_nodes() =~= Map::<u64, Seq<u64>>::empty());
            assert(r.spec_jobs() =~= Map::<u64, JobSummary>::empty());
        }
        r
    }

    /// The dependencies of job `id`, if it is planned.
    pub fn deps(&self, id: u64) -> (r: Option<&Vec<u64>>)
        ensures
            match r {
                Some(v) => self.spec_nodes().contains_key(id) && self.spec_nodes()[id] == v@,
                None => !self.spec_nodes().contains_key(id),
            },
    {
        assert(vstd::std_specs::hash::obeys_key_model::<u64>());
        self.nodes.get(&id)
    }

    /// Job `id`, if it is planned.
    pub fn job(&self, id: u64) -> (r: Option<&Job>)
        ensures
            match r {
                Some(j) => self.spec_jobs().contains_key(id) && self.spec_jobs()[id] == summary(
                    *j,
                ),
                None => !self.spec_jobs().contains_key(id),
            },
    {
        assert(vstd::std_specs::hash::obeys_key_model::<u64>());
        self.jobs.get(&id)
    }

    /// Adds the layers of a stack, bottom first, as build jobs; gives the
    /// hash of the top layer, if there is one.
    pub fn add_build_job(&mut self, stack: Vec<(BuildTarget, LayerInfo)>) -> (r: Option<u64>)
        ensures
            ({
                let (n, j, last) = build_fold(old(self).spec_nodes(), old(self).spec_jobs(), stack@);
                &&& final(self).spec_nodes() == n
                &&& final(self).spec_jobs() == j
                &&& r == last
            }),
    {
        proof {
            use_type_invariant(&*self);
        }
        let ghost all = stack@;
        let ghost n0 = self.spec_nodes();
        let ghost j0 = self.spec_jobs();
        let mut stack = stack;
        let mut last: Option<u64> = None;
        let mut layers: Vec<String> = Vec::new();
        let mut i: usize = 0;
        let mut taken = Planner::new();
        std::mem::swap(&mut taken, self);
        proof {
            use_type_invariant(&taken);
        }
        let Planner { mut nodes, mut jobs } = taken;
        proof {
            assert(all.take(0) =~= Seq::<(BuildTarget, LayerInfo)>::empty());
            assert(stack@ =~= all.skip(0));
            assert(strings_view(layers@) =~= all.take(0).map_values(
                |e: (BuildTarget, LayerInfo)| layer_path(e.1),
            ));
        }
        let n = stack.len();
        while i < n
            invariant
                n == all.len(),
                i <= n,
                stack@ == all.skip(i as int),
                nodes@.dom() == jobs@.dom(),
                strings_view(layers@) == all.take(i as int).map_values(
                    |e: (BuildTarget, LayerInfo)| layer_path(e.1),
                ),
                ({
                    let (bn, bj, bl) = build_fold(n0, j0, all.take(i as int));
                    &&& nodes@.map_values(|v: Vec<u64>| v@) == bn
                    &&& jobs@.map_values(|j: Job| summary(j)) == bj
                    &&& last == bl
                }),
            decreases n - i,
        {
            assert(vstd::std_specs::hash::obeys_key_model::<u64>());
            let (target, info) = stack.remove(0);
            proof {
                assert(all[i as int] == (target, info));
                assert(stack@ =~= all.skip(i + 1));
                assert(all.take(i + 1).drop_last() =~= all.take(i as int));
                assert(all.take(i + 1).last() == (target, info));
            }
            let hash = info.hash_value();
            let done_path = info.done_path();
            let is_prog = match &target {
                BuildTarget::Program(_) => true,
                BuildTarget::DockerSource(_) => false,
            };
            let ghost nv0 = nodes@.map_values(|v: Vec<u64>| v@);
            let ghost jv0 = jobs@.map_values(|j: Job| summary(j));
            if !jobs.contains_key(&hash) {
                nodes.insert(hash, Vec::new());
                let below = clone_strings(layers.as_slice());
                let job = Job::Build(BuildLayer { layers: below, target, layerinfo: info });
                jobs.insert(hash, job);
                proof {
                    assert(nodes@.map_values(|v: Vec<u64>| v@) =~= nv0.insert(hash, Seq::empty()));
                    assert(jobs@.map_values(|j: Job| summary(j)) =~= jv0.insert(
                        hash,
                        summary(job),
                    ));
                }
            }
            let ghost nv1 = nodes@.map_values(|v: Vec<u64>| v@);
            if is_prog {
                match last {
                    Some(id) => {
                        let mut deps = match nodes.get(&hash) {
                            Some(d) => d.clone(),
                            None => Vec::new(),
                        };
                        let mut found = false;
                        let mut k: usize = 0;
                        while k < deps.len()
                            invariant
                                k <= deps@.len(),
                                found == (exists|m: int| 0 <= m < k && deps@[m] == id),
                            decreases deps@.len() - k,
                        {
                            if deps[k] == id {
                                found = true;
                            }
                            k = k + 1;
                        }
                        let ghost before = deps@;
                        if !found {
                            deps.push(id);
                        }
                        proof {
                            if found {
                                let m = choose|m: int| 0 <= m < k && before[m] == id;
                                assert(before.contains(id));
                            } else {
                                assert(!before.contains(id));
                            }
                            assert(deps@ == add_dep(nv1[hash], id));
                        }
                        nodes.insert(hash, deps);
                        proof {
                            assert(nodes@.map_values(|v: Vec<u64>| v@) =~= nv1.insert(
                                hash,
                                add_dep(nv1[hash], id),
                            ));
                        }
                    },
                    None => {},
                }
            }
            let ghost lb = strings_view(layers@);
            let ghost dp = done_path@;
            layers.push(done_path);
            proof {
                assert(dp == layer_path(info));
                assert(strings_view(layers@) =~= lb.push(dp));
                assert(all.take(i + 1).map_values(|e: (BuildTarget, LayerInfo)| layer_path(e.1))
                    =~= all.take(i as int).map_values(
                    |e: (BuildTarget, LayerInfo)| layer_path(e.1),
                ).push(layer_path(info)));
                assert(strings_view(layers@) =~= all.take(i + 1).map_values(
                    |e: (BuildTarget, LayerInfo)| layer_path(e.1),
                ));
            }
            last = Some(hash);
            i = i + 1;
        }
        proof {
            assert(all.take(n as int) =~= all);
        }
        *self = Planner { nodes, jobs };
        last
    }

    /// Makes job `id` depend on `dep`, if `id` is planned.
    fn link(&mut self, id: u64, dep: u64)
        ensures
            final(self).spec_jobs() == old(self).spec_jobs(),
            final(self).spec_nodes() == if old(self).spec_nodes().contains_key(id) {
                old(self).spec_nodes().insert(id, add_dep(old(self).spec_nodes()[id], dep))
            } else {
                old(self).spec_nodes()
            },
    {
        assert(vstd::std_specs::hash::obeys_key_model::<u64>());
        let mut taken = Planner::new();
        std::mem::swap(&mut taken, self);
        proof {
            use_type_invariant(&taken);
        }
        let Planner { mut nodes, jobs } = taken;
        let ghost nv0 = nodes@.map_values(|v: Vec<u64>| v@);
        let current = match nodes.get(&id) {
            Some(d) => Some(d.clone()),
            None => None,
        };
        match current {
            Some(mut deps) => {
                let mut found = false;
                let mut k: usize = 0;
                while k < deps.len()
                    invariant
                        k <= deps@.len(),
                        found == (exists|m: int| 0 <= m < k && deps@[m] == dep),
                    decreases deps@.len() - k,
                {
                    if deps[k] == dep {
                        found = true;
                    }
                    k = k + 1;
                }
                let ghost before = deps@;
                if !found {
                    deps.push(dep);
                }
                proof {
                    if found {
                        let m = choose|m: int| 0 <= m < k && before[m] == dep;
                        assert(before.contains(dep));
                    } else {
                        assert(!before.contains(dep));
                    }
                    assert(deps@ == add_dep(nv0[id], dep));
                }
                nodes.insert(id, deps);
                proof {
                    assert(nodes@.map_values(|v: Vec<u64>| v@) =~= nv0.insert(
                        id,
                        add_dep(nv0[id], dep),
                    ));
                    assert(nodes@.dom() =~= jobs@.dom());
                }
            },
            None => {},
        }
        *self = Planner { nodes, jobs };
    }

    /// Adds a run job named `name` with hash `run` for `job`, given the
    /// stack of its program and the stacks of its inputs, bottom first.
    pub fn add_run_job(
        &mut self,
        name: &str,
        job: RunTarget,
        run: u64,
        target: Vec<(BuildTarget, LayerInfo)>,
        inputs: Vec<Vec<(BuildTarget, LayerInfo)>>,
    )
        ensures
            ({
                let (n, j) = run_job_plan(
                    old(self).spec_nodes(),
                    old(self).spec_jobs(),
                    name@,
                    job,
                    run,
                    target@,
                    inputs@.map_values(|v: Vec<(BuildTarget, LayerInfo)>| v@),
                );
                &&& final(self).spec_nodes() == n
                &&& final(self).spec_jobs() == j
            }),
    {
        assert(vstd::std_specs::hash::obeys_key_model::<u64>());
        let top = self.add_build_job(target);
        let mut deps: Vec<u64> = Vec::new();
        match top {
            Some(t) => {
                deps.push(t);
            },
            None => {},
        }
        proof {
            assert(deps@ =~= match top {
                Some(t) => seq![t],
                None => Seq::<u64>::empty(),
            });
        }
        let mut taken = Planner::new();
        std::mem::swap(&mut taken, self);
        proof {
            use_type_invariant(&taken);
        }
        let Planner { mut nodes, mut jobs } = taken;
        let ghost nv0 = nodes@.map_values(|v: Vec<u64>| v@);
        let ghost jv0 = jobs@.map_values(|j: Job| summary(j));
        nodes.insert(run, deps);
        let ghost jobv = job;
        let rj = Job::Run { name: name.to_owned(), job };
        jobs.insert(run, rj);
        proof {
            assert(nodes@.map_values(|v: Vec<u64>| v@) =~= nv0.insert(run, deps@));
            assert(jobs@.map_values(|j: Job| summary(j)) =~= jv0.insert(
                run,
                JobSummary::Run { name: name@, job: jobv },
            ));
            assert(nodes@.dom() =~= jobs@.dom());
        }
        *self = Planner { nodes, jobs };
        let ghost all = inputs@.map_values(|v: Vec<(BuildTarget, LayerInfo)>| v@);
        let ghost n1 = self.spec_nodes();
        let ghost j1 = self.spec_jobs();
        let mut inputs = inputs;
        let n = inputs.len();
        let mut i: usize = 0;
        proof {
            assert(all.len() == n);
            assert(all.take(0) =~= Seq::<Seq<(BuildTarget, LayerInfo)>>::empty());
            assert(inputs@.map_values(|v: Vec<(BuildTarget, LayerInfo)>| v@) =~= all.skip(0));
        }
        while i < n
            invariant
                n == all.len(),
                i <= n,
                inputs@.map_values(|v: Vec<(BuildTarget, LayerInfo)>| v@) == all.skip(i as int),
                inputs@.len() == n - i,
                ({
                    let (fnodes, fjobs) = inputs_fold(n1, j1, all.take(i as int), run);
                    &&& self.spec_nodes() == fnodes
                    &&& self.spec_jobs() == fjobs
                }),
            decreases n - i,
        {
            let ghost first = inputs@[0]@;
            let ghost before = inputs@;
            proof {
                assert(inputs@.map_values(|v: Vec<(BuildTarget, LayerInfo)>| v@)[0] == first);
                assert(all.skip(i as int)[0] == all[i as int]);
            }
            let stack = inputs.remove(0);
            proof {
                assert(all[i as int] == stack@);
                assert(inputs@ =~= before.subrange(1, before.len() as int));
                assert forall|k: int| 0 <= k < inputs@.len() implies #[trigger] inputs@[k]@ == all.skip(
                    i + 1,
                )[k] by {
                    assert(inputs@[k] == before[k + 1]);
                    assert(before.map_values(|v: Vec<(BuildTarget, LayerInfo)>| v@)[k + 1] == all.skip(
                        i as int,
                    )[k + 1]);
                }
                assert(inputs@.map_values(|v: Vec<(BuildTarget, LayerInfo)>| v@) =~= all.skip(
                    i + 1,
                ));
                assert(all.take(i + 1).drop_last() =~= all.take(i as int));
                assert(all.take(i + 1).last() == stack@);
            }
            let top = self.add_build_job(stack);
            match top {
                Some(t) => {
                    self.link(run, t);
                },
                None => {},
            }
            i = i + 1;
        }
        proof {
            assert(all.take(n as int) =~= all);
        }
    }
}

/// Adding a stack keeps every job that was planned, and plans the top of
/// the stack.
pub proof fn lemma_build_keeps_jobs(
    nodes: Map<u64, Seq<u64>>,
    jobs: Map<u64, JobSummary>,
    stack: Seq<(BuildTarget, LayerInfo)>,
    k: u64,
)
    ensures
        jobs.contains_key(k) ==> build_fold(nodes, jobs, stack).1.contains_key(k) && build_fold(
            nodes,
            jobs,
            stack,
        ).1[k] == jobs[k],
        build_fold(nodes, jobs, stack).2 matches Some(t) ==> build_fold(
            nodes,
            jobs,
            stack,
        ).1.contains_key(t),
        stack.len() > 0 <==> build_fold(nodes, jobs, stack).2 is Some,
    decreases stack.len(),
{
    if stack.len() > 0 {
        lemma_build_keeps_jobs(nodes, jobs, stack.drop_last(), k);
    }
}

/// What a layer is built on.
pub enum Below {
    /// Nothing: the program starts from an empty root.
    Nothing,
    /// A Docker image, by its full name.
    Image(String),
    /// Another program, by its module name, named at the given place.
    Program(String, Origin),
}

/// What the layer of `program` is built on: what its first top-level
/// `FROM` names, if it has one.
pub fn below(program: &Program) -> (r: Below)
    ensures
        match program_from(program.code@) {
            None => r is Nothing,
            Some(FromSource::Docker(src)) => r matches Below::Image(n) && n@ == spec_image_name(
                src@,
            ),
            Some(FromSource::Raptor(m)) => r matches Below::Program(n, _) && n@ == m@,
        },
{
    match program.from() {
        Some((from, origin)) => {
            proof {
                let i = choose|i: int|
                    crate::program::is_first_of_kind(program.code@, i, 0) && (
                    #[trigger] program.code@[i] matches crate::program::Item::Statement(s)
                        && s.inst matches crate::dsl::Instruction::From(x) && *from == x.from);
                lemma_first_unique(program.code@, i, first_at(program.code@, 0), 0);
            }
            match from {
                FromSource::Docker(src) => Below::Image(image_name(src.as_str())),
                FromSource::Raptor(m) => Below::Program(m.clone(), origin.clone()),
            }
        },
        None => Below::Nothing,
    }
}

} // verus!
