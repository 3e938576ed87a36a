//! Make files (`Raptor.toml`): jobs that run programs, groups of jobs,
//! and linked packages.
use vstd::prelude::*;
use vstd::string::StrSliceExecFns;

use crate::envmap::str_eq;
use crate::error::RaptorError;
use crate::names::{find_entry, list_or_empty, NameLists};
use crate::resolver::Resolver;
use crate::program::Item;
use crate::runner::{lemma_command_parts, spec_command, Runner, RunnerView};
use crate::text::{clone_strings, push_char, push_str, strings_view};

verus! {

/// A package linked by name: where its source lies.
#[derive(Debug)]
pub struct Link {
    pub source: String,
}

impl Link {
    /// A link to `s`.
    pub fn parse(s: &str) -> (r: Self)
        ensures
            r.source@ == s@,
    {
        Link { source: s.to_owned() }
    }
}

impl core::str::FromStr for Link {
    type Err = &'static str;

    fn from_str(s: &str) -> (r: Result<Self, Self::Err>)
        ensures
            r matches Ok(l) && l.source@ == s@,
    {
        Ok(Link::parse(s))
    }
}

/// The `[raptor]` table: the linked packages, by name.
#[derive(Debug)]
pub struct Raptor {
    pub link: Vec<(String, Link)>,
}

/// A group of jobs, run in name order.
#[derive(Debug)]
pub struct GroupTarget {
    pub run: Vec<String>,
}

/// A job that runs a program (named as written in the make file).
#[derive(Debug)]
pub struct RunTarget {
    pub target: String,
    pub cache: Vec<String>,
    pub input: Vec<String>,
    pub output: Option<String>,
    pub entrypoint: Vec<String>,
    pub state_dir: Option<String>,
    pub args: Vec<String>,
    pub env: Vec<(String, String)>,
}

/// A whole make file.
#[derive(Debug)]
pub struct Make {
    pub raptor: Raptor,
    pub run: Vec<(String, RunTarget)>,
    pub group: Vec<(String, GroupTarget)>,
}

/// What a make command asks for: a job, or a group written as `%NAME`.
#[derive(Debug, Clone, PartialEq, Eq)]
pub enum MakeTarget {
    Job(String),
    Group(String),
}

/// The target that `s` names.
pub open spec fn spec_make_target(s: Seq<char>) -> (bool, Seq<char>) {
    if s.len() > 0 && s[0] == '%' {
        (true, s.drop_first())
    } else {
        (false, s)
    }
}

impl MakeTarget {
    /// Reads a target: `%NAME` is a group, anything else a job.
    pub fn parse(s: &str) -> (r: Self)
        ensures
            match r {
                MakeTarget::Group(g) => spec_make_target(s@) == (true, g@),
                MakeTarget::Job(j) => spec_make_target(s@) == (false, j@),
            },
    {
        let n = s.unicode_len();
        if n > 0 && s.get_char(0) == '%' {
            let rest = s.substring_char(1, n);
            proof {
                assert(rest@ =~= s@.drop_first());
            }
            MakeTarget::Group(rest.to_owned())
        } else {
            MakeTarget::Job(s.to_owned())
        }
    }
}

impl core::str::FromStr for MakeTarget {
    type Err = &'static str;

    fn from_str(s: &str) -> (r: Result<Self, Self::Err>)
        ensures
            match r {
                Ok(MakeTarget::Group(g)) => spec_make_target(s@) == (true, g@),
                Ok(MakeTarget::Job(j)) => spec_make_target(s@) == (false, j@),
                Err(_) => false,
            },
    {
        Ok(MakeTarget::parse(s))
    }
}

/// `k=v`.
pub open spec fn env_setting(k: Seq<char>, v: Seq<char>) -> Seq<char> {
    k + seq!['='] + v
}

/// The views of name and value pairs.
pub open spec fn env_pairs_view(v: Seq<(String, String)>) -> Seq<(Seq<char>, Seq<char>)> {
    v.map_values(|p: (String, String)| (p.0@, p.1@))
}

/// The settings `k=v` of a job's environment, in order.
pub fn job_env(env: &Vec<(String, String)>) -> (r: Vec<String>)
    ensures
        strings_view(r@) == env_pairs_view(env@).map_values(
            |p: (Seq<char>, Seq<char>)| env_setting(p.0, p.1),
        ),
{
    let ghost target = env_pairs_view(env@).map_values(
        |p: (Seq<char>, Seq<char>)| env_setting(p.0, p.1),
    );
    let mut res: Vec<String> = Vec::new();
    let mut i: usize = 0;
    while i < env.len()
        invariant
            i <= env@.len(),
            target == env_pairs_view(env@).map_values(
                |p: (Seq<char>, Seq<char>)| env_setting(p.0, p.1),
            ),
            strings_view(res@) == target.take(i as int),
        decreases env@.len() - i,
    {
        let mut s = String::new();
        push_str(&mut s, env[i].0.as_str());
        push_char(&mut s, '=');
        push_str(&mut s, env[i].1.as_str());
        let ghost before = strings_view(res@);
        res.push(s);
        proof {
            assert(s@ =~= env_setting(env@[i as int].0@, env@[i as int].1@));
            assert(target.take(i + 1) =~= target.take(i as int).push(s@));
            assert(strings_view(res@) =~= before.push(s@));
        }
        i = i + 1;
    }
    proof {
        assert(target.take(env@.len() as int) =~= target);
    }
    res
}

/// `m` after adding each of `vals`, in order, to the list of `name`; the
/// list exists afterwards even if `vals` is empty.
pub open spec fn extend_list(
    m: Map<Seq<char>, Seq<Seq<char>>>,
    name: Seq<char>,
    vals: Seq<Seq<char>>,
) -> Map<Seq<char>, Seq<Seq<char>>> {
    m.insert(name, list_or_empty(m, name) + vals)
}

/// Adds each of `vals` to the list of `name`, making sure the list exists.
fn extend_name(m: &mut NameLists, name: &str, vals: &[String])
    ensures
        final(m)@ == extend_list(old(m)@, name@, strings_view(vals@)),
{
    m.ensure(name);
    let ghost m0 = old(m)@;
    let mut i: usize = 0;
    proof {
        assert(list_or_empty(m0, name@) + strings_view(vals@).take(0) =~= list_or_empty(
            m0,
            name@,
        ));
    }
    while i < vals.len()
        invariant
            i <= vals@.len(),
            m@ == m0.insert(name@, list_or_empty(m0, name@) + strings_view(vals@).take(i as int)),
        decreases vals@.len() - i,
    {
        m.add(name, vals[i].clone());
        proof {
            assert(strings_view(vals@).take(i + 1) =~= strings_view(vals@).take(i as int).push(
                vals@[i as int]@,
            ));
            assert(m@ =~= m0.insert(
                name@,
                list_or_empty(m0, name@) + strings_view(vals@).take(i + 1),
            ));
        }
        i = i + 1;
    }
    proof {
        assert(strings_view(vals@).take(vals@.len() as int) =~= strings_view(vals@));
    }
}

/// The optional output as a list of at most one.
pub open spec fn opt_list(o: Option<String>) -> Seq<Seq<char>> {
    match o {
        Some(s) => seq![s@],
        None => Seq::empty(),
    }
}

/// The mounts a job gets: its caches, inputs and output under `cache`,
/// `input` and `output`, each list present even when empty.
pub open spec fn spec_job_mounts(job: RunTarget) -> Map<Seq<char>, Seq<Seq<char>>> {
    let m0 = Map::<Seq<char>, Seq<Seq<char>>>::empty();
    let m1 = extend_list(m0, "cache"@, strings_view(job.cache@));
    let m2 = extend_list(m1, "input"@, strings_view(job.input@));
    extend_list(m2, "output"@, opt_list(job.output))
}

/// The mounts a job gets.
pub fn job_mounts(job: &RunTarget) -> (r: NameLists)
    ensures
        r@ == spec_job_mounts(*job),
{
    let mut m = NameLists::new();
    extend_name(&mut m, "cache", job.cache.as_slice());
    extend_name(&mut m, "input", job.input.as_slice());
    let mut out: Vec<String> = Vec::new();
    match &job.output {
        Some(o) => {
            out.push(o.clone());
        },
        None => {},
    }
    proof {
        assert(strings_view(out@) =~= opt_list(job.output));
    }
    extend_name(&mut m, "output", out.as_slice());
    m
}

/// The runner for a job: its mounts, its environment, its arguments, its
/// entry point if it gives one, and its state directory if it gives one.
pub open spec fn spec_job_runner(job: RunTarget) -> RunnerView {
    RunnerView {
        env: env_pairs_view(job.env@).map_values(
            |p: (Seq<char>, Seq<char>)| env_setting(p.0, p.1),
        ),
        args: strings_view(job.args@),
        entrypoint: strings_view(job.entrypoint@),
        state_dir: match job.state_dir {
            Some(d) => Some(d@),
            None => None,
        },
        mounts: spec_job_mounts(job),
    }
}

/// The runner with which a job runs its program.
pub fn job_runner(job: &RunTarget) -> (r: Runner)
    ensures
        r@ == spec_job_runner(*job),
        r@.args == strings_view(job.args@),
        r@.entrypoint == strings_view(job.entrypoint@),
{
    let mounts = job_mounts(job);
    let env = job_env(&job.env);
    let mut runner = Runner::new();
    runner.with_mounts(mounts);
    runner.with_env(env.as_slice());
    runner.with_args(job.args.as_slice());
    if job.entrypoint.len() > 0 {
        runner.with_entrypoint(job.entrypoint.as_slice());
    } else {
        proof {
            assert(strings_view(job.entrypoint@) =~= Seq::<Seq<char>>::empty());
        }
    }
    match &job.state_dir {
        Some(d) => {
            runner.with_state_dir(d.clone());
        },
        None => {},
    }
    runner
}

/// The sources a run command gives its mounts: `-M NAME SOURCE` pairs (a
/// name without a source is ignored), then caches, inputs and the output
/// under `cache`, `input` and `output`.
pub open spec fn spec_cli_mounts(
    mount: Seq<Seq<char>>,
    cache: Seq<Seq<char>>,
    input: Seq<Seq<char>>,
    output: Option<Seq<char>>,
) -> Map<Seq<char>, Seq<Seq<char>>> {
    let m0 = pair_mounts(mount, (mount.len() / 2) as int);
    let m1 = add_each(m0, "cache"@, cache);
    let m2 = add_each(m1, "input"@, input);
    match output {
        Some(o) => add_each(m2, "output"@, seq![o]),
        None => m2,
    }
}

/// The first `n` name and source pairs of `mount`, added in order.
pub open spec fn pair_mounts(mount: Seq<Seq<char>>, n: int) -> Map<Seq<char>, Seq<Seq<char>>>
    decreases n,
{
    if n <= 0 {
        Map::empty()
    } else {
        let m = pair_mounts(mount, n - 1);
        let k = mount[2 * n - 2];
        m.insert(k, list_or_empty(m, k).push(mount[2 * n - 1]))
    }
}

/// `vals` added in order to the list of `name`; nothing when `vals` is
/// empty.
pub open spec fn add_each(
    m: Map<Seq<char>, Seq<Seq<char>>>,
    name: Seq<char>,
    vals: Seq<Seq<char>>,
) -> Map<Seq<char>, Seq<Seq<char>>> {
    if vals.len() == 0 {
        m
    } else {
        extend_list(m, name, vals)
    }
}

/// Adds each of `vals` to the list of `name`; without values, nothing.
fn add_all(m: &mut NameLists, name: &str, vals: &[String])
    ensures
        final(m)@ == add_each(old(m)@, name@, strings_view(vals@)),
{
    if vals.len() > 0 {
        extend_name(m, name, vals);
    } else {
        proof {
            assert(strings_view(vals@).len() == 0);
        }
    }
}

/// The mount sources that the options of a run command give.
pub fn cli_mounts(
    mount: &[String],
    cache: &[String],
    input: &[String],
    output: &Option<String>,
) -> (r: NameLists)
    ensures
        r@ == spec_cli_mounts(
            strings_view(mount@),
            strings_view(cache@),
            strings_view(input@),
            match output {
                Some(o) => Some(o@),
                None => None,
            },
        ),
{
    let ghost mv = strings_view(mount@);
    let mut m = NameLists::new();
    let pairs = mount.len() / 2;
    let mut i: usize = 0;
    while i < pairs
        invariant
            i <= pairs,
            pairs == mount.len() / 2,
            mv == strings_view(mount@),
            m@ == pair_mounts(mv, i as int),
        decreases pairs - i,
    {
        let n = mount.len();
        assert(2 * i + 1 < n) by (nonlinear_arith)
            requires
                i < pairs,
                pairs == n / 2,
        ;
        let v = mount[2 * i + 1].clone();
        m.add(mount[2 * i].as_str(), v);
        proof {
            assert(mv[2 * (i + 1) - 2] == mount@[2 * i as int]@);
            assert(mv[2 * (i + 1) - 1] == v@);
        }
        i = i + 1;
    }
    add_all(&mut m, "cache", cache);
    add_all(&mut m, "input", input);
    match output {
        Some(o) => {
            let one: Vec<String> = vec![o.clone()];
            proof {
                assert(strings_view(one@) =~= seq![o@]);
            }
            add_all(&mut m, "output", one.as_slice());
        },
        None => {},
    }
    m
}

/// Links each package of the make file, in order.
pub open spec fn links_fold(
    packages: Map<Seq<char>, Seq<char>>,
    links: Seq<(String, Link)>,
) -> Map<Seq<char>, Seq<char>>
    decreases links.len(),
{
    if links.len() == 0 {
        packages
    } else {
        links_fold(packages, links.drop_last()).insert(links.last().0@, links.last().1.source@)
    }
}

/// Makes each linked package of the make file known to `resolver`.
pub fn add_links(make: &Make, resolver: &mut Resolver)
    ensures
        final(resolver).spec_base() == old(resolver).spec_base(),
        final(resolver).spec_packages() == links_fold(
            old(resolver).spec_packages(),
            make.raptor.link@,
        ),
{
    let links = &make.raptor.link;
    let mut i: usize = 0;
    while i < links.len()
        invariant
            i <= links@.len(),
            resolver.spec_base() == old(resolver).spec_base(),
            resolver.spec_packages() == links_fold(
                old(resolver).spec_packages(),
                links@.take(i as int),
            ),
        decreases links@.len() - i,
    {
        let name = links[i].0.clone();
        let source = links[i].1.source.clone();
        resolver.add_package(name, source);
        proof {
            assert(links@.take(i + 1).drop_last() =~= links@.take(i as int));
        }
        i = i + 1;
    }
    proof {
        assert(links@.take(links@.len() as int) =~= links@);
    }
}

/// The names of a list of named entries.
pub open spec fn names_of<V>(v: Seq<(String, V)>) -> Seq<(Seq<char>, V)> {
    v.map_values(|p: (String, V)| (p.0@, p.1))
}

/// The job named `name`; an unknown name is an error.
pub fn find_job<'a>(make: &'a Make, name: &str) -> (r: Result<&'a RunTarget, RaptorError>)
    ensures
        match find_entry(names_of(make.run@), name@) {
            Some(j) => r == Ok::<&RunTarget, RaptorError>(&j),
            None => r matches Err(RaptorError::UnknownJob(n)) && n@ == name@,
        },
{
    let ghost e = names_of(make.run@);
    let mut i: usize = 0;
    proof {
        assert(e.skip(0) =~= e);
    }
    while i < make.run.len()
        invariant
            i <= make.run@.len(),
            e == names_of(make.run@),
            find_entry(e, name@) == find_entry(e.skip(i as int), name@),
        decreases make.run@.len() - i,
    {
        proof {
            assert(e.skip(i as int)[0] == e[i as int]);
        }
        if str_eq(make.run[i].0.as_str(), name) {
            return Ok(&make.run[i].1);
        }
        proof {
            assert(e.skip(i as int).drop_first() =~= e.skip(i + 1));
        }
        i = i + 1;
    }
    proof {
        assert(e.skip(i as int).len() == 0);
    }
    Err(RaptorError::UnknownJob(name.to_owned()))
}

/// The group named `name`; an unknown name is an error.
pub fn find_group<'a>(make: &'a Make, name: &str) -> (r: Result<&'a GroupTarget, RaptorError>)
    ensures
        match find_entry(names_of(make.group@), name@) {
            Some(g) => r == Ok::<&GroupTarget, RaptorError>(&g),
            None => r matches Err(RaptorError::UnknownJob(n)) && n@ == name@,
        },
{
    let ghost e = names_of(make.group@);
    let mut i: usize = 0;
    proof {
        assert(e.skip(0) =~= e);
    }
    while i < make.group.len()
        invariant
            i <= make.group@.len(),
            e == names_of(make.group@),
            find_entry(e, name@) == find_entry(e.skip(i as int), name@),
        decreases make.group@.len() - i,
    {
        proof {
            assert(e.skip(i as int)[0] == e[i as int]);
        }
        if str_eq(make.group[i].0.as_str(), name) {
            return Ok(&make.group[i].1);
        }
        proof {
            assert(e.skip(i as int).drop_first() =~= e.skip(i + 1));
        }
        i = i + 1;
    }
    proof {
        assert(e.skip(i as int).len() == 0);
    }
    Err(RaptorError::UnknownJob(name.to_owned()))
}

/// The largest of the times, or `0` (the epoch) for none.
pub open spec fn max_time(t: Seq<u128>) -> u128
    decreases t.len(),
{
    if t.len() == 0 {
        0
    } else {
        let m = max_time(t.drop_last());
        if t.last() > m {
            t.last()
        } else {
            m
        }
    }
}

/// The smallest of the times, or `0` (the epoch) for none.
pub open spec fn min_time(t: Seq<u128>) -> u128
    decreases t.len(),
{
    if t.len() == 0 {
        0
    } else if t.len() == 1 {
        t[0]
    } else {
        let m = min_time(t.drop_last());
        if t.last() < m {
            t.last()
        } else {
            m
        }
    }
}

/// The time of the newest of the sources, as a duration since the epoch.
pub fn newest(times: &[u128]) -> (r: u128)
    ensures
        r == max_time(times@),
{
    let mut m: u128 = 0;
    let mut i: usize = 0;
    while i < times.len()
        invariant
            i <= times@.len(),
            m == max_time(times@.take(i as int)),
        decreases times@.len() - i,
    {
        proof {
            assert(times@.take(i + 1).drop_last() =~= times@.take(i as int));
        }
        if times[i] > m {
            m = times[i];
        }
        i = i + 1;
    }
    proof {
        assert(times@.take(times@.len() as int) =~= times@);
    }
    m
}

/// The time of the oldest of the outputs that exist, as a duration since
/// the epoch.
pub fn oldest(times: &[u128]) -> (r: u128)
    ensures
        r == min_time(times@),
{
    if times.len() == 0 {
        return 0;
    }
    let mut m: u128 = times[0];
    let mut i: usize = 1;
    proof {
        assert(times@.take(1) =~= seq![times@[0]]);
    }
    while i < times.len()
        invariant
            1 <= i <= times@.len(),
            m == min_time(times@.take(i as int)),
        decreases times@.len() - i,
    {
        proof {
            assert(times@.take(i + 1).drop_last() =~= times@.take(i as int));
        }
        if times[i] < m {
            m = times[i];
        }
        i = i + 1;
    }
    proof {
        assert(times@.take(times@.len() as int) =~= times@);
    }
    m
}

/// A job need not run when its oldest output is no older than the newest
/// of its sources; a job without outputs counts its output as made at the
/// epoch.
pub fn up_to_date(source_times: &[u128], output_times: &[u128]) -> (r: bool)
    ensures
        r == (min_time(output_times@) >= max_time(source_times@)),
{
    oldest(output_times) >= newest(source_times)
}

/// How much is logged.
#[derive(Debug, Clone, Copy, PartialEq, Eq, Structural)]
pub enum LogLevel {
    Off,
    Error,
    Warn,
    Info,
    Debug,
    Trace,
}

/// The log level for a number of `-v` and `-q` options: each `-v` one
/// step more, each `-q` one step less, from `Info`.
pub open spec fn spec_log_level(verbose: int, quiet: int) -> LogLevel {
    let v = verbose - quiet;
    if v <= -3 {
        LogLevel::Off
    } else if v == -2 {
        LogLevel::Error
    } else if v == -1 {
        LogLevel::Warn
    } else if v == 0 {
        LogLevel::Info
    } else if v == 1 {
        LogLevel::Debug
    } else {
        LogLevel::Trace
    }
}

/// The log level for `verbose` times `-v` and `quiet` times `-q`.
pub fn log_level(verbose: u8, quiet: u8) -> (r: LogLevel)
    ensures
        r == spec_log_level(verbose as int, quiet as int),
{
    let v: i32 = verbose as i32 - quiet as i32;
    if v <= -3 {
        LogLevel::Off
    } else if v == -2 {
        LogLevel::Error
    } else if v == -1 {
        LogLevel::Warn
    } else if v == 0 {
        LogLevel::Info
    } else if v == 1 {
        LogLevel::Debug
    } else {
        LogLevel::Trace
    }
}

/// A job's runner carries the job's arguments and entry point unchanged:
/// for any program, a job with arguments runs a command that ends with
/// exactly those arguments, and a job with an entry point runs a command
/// that starts with it.
pub proof fn lemma_job_runs_its_arguments(job: RunTarget, code: Seq<Item>)
    ensures
        spec_job_runner(job).args == strings_view(job.args@),
        spec_job_runner(job).entrypoint == strings_view(job.entrypoint@),
        job.args@.len() > 0 ==> (spec_command(
            spec_job_runner(job).entrypoint,
            spec_job_runner(job).args,
            code,
        ) matches Some(c) && c.skip(c.len() - job.args@.len()) == strings_view(job.args@)),
        job.entrypoint@.len() > 0 ==> (spec_command(
            spec_job_runner(job).entrypoint,
            spec_job_runner(job).args,
            code,
        ) matches Some(c) ==> c.take(job.entrypoint@.len() as int) == strings_view(
            job.entrypoint@,
        )),
{
    lemma_command_parts(spec_job_runner(job).entrypoint, spec_job_runner(job).args, code);
}

} // verus!
