//! Running a built program: the command it runs, its environment and its
//! mounts.
use vstd::prelude::*;
use vstd::string::StrSliceExecFns;

use crate::dsl::Instruction;
use crate::envmap::{chars_lt, spec_insert};
use crate::error::RaptorError;
use crate::layer::LayerInfo;
use crate::mounts::{built_view, mounts_view, plain_bind, preps_view, spec_add_mounts, MountPlan};
use crate::nspawn::{
    sandbox_builder, BindMount, ConsoleMode, LinkJournal, ResolvConf, Settings, SpawnBuilder,
    SpawnView, Timezone,
};
use crate::paths::{path_join, path_join_result};
use crate::program::mounts_of;
use crate::program::{is_first_of_kind, none_of_kind, Item, Program};
use crate::text::{chars_of, clone_strings, strings_view};

verus! {

/// Position `i` holds the first `=` of `s`.
pub open spec fn first_eq_at(s: Seq<char>, i: int) -> bool {
    &&& 0 <= i < s.len()
    &&& s[i] == '='
    &&& forall|j: int| 0 <= j < i ==> s[j] != '='
}

/// A `NAME=VALUE` setting split at its first `=`; a setting without `=`
/// is a name with an empty value.
pub open spec fn env_split(s: Seq<char>) -> (Seq<char>, Seq<char>) {
    if exists|i: int| first_eq_at(s, i) {
        let i = choose|i: int| first_eq_at(s, i);
        (s.take(i), s.skip(i + 1))
    } else {
        (s, Seq::empty())
    }
}

/// The environment after setting each of `envs` in turn.
pub open spec fn env_fold(
    env: Seq<(Seq<char>, Seq<char>)>,
    envs: Seq<Seq<char>>,
) -> Seq<(Seq<char>, Seq<char>)>
    decreases envs.len(),
{
    if envs.len() == 0 {
        env
    } else {
        let (k, v) = env_split(envs.last());
        spec_insert(env_fold(env, envs.drop_last()), k, v)
    }
}

/// Splits a `NAME=VALUE` setting at its first `=`.
pub fn split_env(s: &str) -> (r: (&str, &str))
    ensures
        (r.0@, r.1@) == env_split(s@),
{
    let chars = chars_of(s);
    let n = s.unicode_len();
    let mut i: usize = 0;
    while i < chars.len()
        invariant
            i <= chars@.len(),
            chars@ == s@,
            n == s@.len(),
            forall|j: int| 0 <= j < i ==> s@[j] != '=',
        decreases chars@.len() - i,
    {
        if chars[i] == '=' {
            proof {
                assert(first_eq_at(s@, i as int));
                assert forall|j: int| first_eq_at(s@, j) implies j == i by {
                    if j < i {
                        assert(s@[j] != '=');
                    } else if j > i {
                        assert(s@[i as int] != '=');
                    }
                }
            }
            let key = s.substring_char(0, i);
            let value = s.substring_char(i + 1, n);
            proof {
                assert(key@ =~= s@.take(i as int));
                assert(value@ =~= s@.skip(i + 1));
            }
            return (key, value);
        }
        i = i + 1;
    }
    let key = s.substring_char(0, n);
    let value = s.substring_char(n, n);
    proof {
        assert(key@ =~= s@);
        assert(value@ =~= Seq::<char>::empty());
    }
    (key, value)
}

/// Sets environment variables from `NAME=VALUE` settings.
pub trait AddEnvironment: Sized {
    /// The settings, each applied in turn.
    fn add_environment(self, env: &[String]) -> Self;
}

impl AddEnvironment for SpawnBuilder {
    fn add_environment(self, envs: &[String]) -> (r: Self)
        ensures
            r.view() == (SpawnView {
                environment: env_fold(self.view().environment, strings_view(envs@)),
                ..self.view()
            }),
    {
        let ghost start = self.view();
        let mut sb = self;
        let mut i: usize = 0;
        proof {
            assert(strings_view(envs@).take(0) =~= Seq::<Seq<char>>::empty());
        }
        while i < envs.len()
            invariant
                i <= envs@.len(),
                sb.view() == (SpawnView {
                    environment: env_fold(start.environment, strings_view(envs@).take(i as int)),
                    ..start
                }),
            decreases envs@.len() - i,
        {
            let (key, value) = split_env(envs[i].as_str());
            sb = sb.setenv(key, value);
            proof {
                let t = strings_view(envs@).take(i + 1);
                assert(t.drop_last() =~= strings_view(envs@).take(i as int));
                assert(t.last() == envs@[i as int]@);
            }
            i = i + 1;
        }
        proof {
            assert(strings_view(envs@).take(envs@.len() as int) =~= strings_view(envs@));
        }
        sb
    }
}

/// The position of the first top-level item of a kind, where there is one.
pub open spec fn first_at(code: Seq<Item>, kind: int) -> int {
    choose|i: int| is_first_of_kind(code, i, kind)
}

/// There is one first item of each kind.
pub proof fn lemma_first_unique(code: Seq<Item>, i: int, j: int, kind: int)
    requires
        is_first_of_kind(code, i, kind),
        is_first_of_kind(code, j, kind),
    ensures
        i == j,
{
    if i < j {
        assert(!crate::program::is_kind(code[i], kind));
    } else if j < i {
        assert(!crate::program::is_kind(code[j], kind));
    }
}

/// The arguments of the first top-level `ENTRYPOINT`, if there is one.
pub open spec fn program_entrypoint(code: Seq<Item>) -> Option<Seq<Seq<char>>> {
    if none_of_kind(code, 2) {
        None
    } else {
        match code[first_at(code, 2)] {
            Item::Statement(s) => match s.inst {
                Instruction::Entrypoint(e) => Some(strings_view(e.entrypoint@)),
                _ => None,
            },
            _ => None,
        }
    }
}

/// The arguments of the first top-level `CMD`, if there is one.
pub open spec fn program_cmd(code: Seq<Item>) -> Option<Seq<Seq<char>>> {
    if none_of_kind(code, 1) {
        None
    } else {
        match code[first_at(code, 1)] {
            Item::Statement(s) => match s.inst {
                Instruction::Cmd(c) => Some(strings_view(c.cmd@)),
                _ => None,
            },
            _ => None,
        }
    }
}

/// The shell that runs the command when no entry point is given.
pub open spec fn default_entrypoint() -> Seq<Seq<char>> {
    seq!["/bin/sh"@, "-c"@]
}

/// The command a container runs: the entry point (the one given, else
/// the program's, else a shell), then the arguments (the ones given,
/// else the program's `CMD`). Without arguments of either kind there is
/// no command.
pub open spec fn spec_command(
    entrypoint: Seq<Seq<char>>,
    args: Seq<Seq<char>>,
    code: Seq<Item>,
) -> Option<Seq<Seq<char>>> {
    let head = if entrypoint.len() > 0 {
        entrypoint
    } else {
        match program_entrypoint(code) {
            Some(e) => e,
            None => default_entrypoint(),
        }
    };
    if args.len() > 0 {
        Some(head + args)
    } else {
        match program_cmd(code) {
            Some(c) => Some(head + c),
            None => None,
        }
    }
}

/// The settings with which a program is run.
pub struct Runner {
    env: Vec<String>,
    args: Vec<String>,
    entrypoint: Vec<String>,
    state_dir: Option<String>,
    mounts: crate::names::NameLists,
}

/// The parts of a `Runner`.
pub struct RunnerView {
    pub env: Seq<Seq<char>>,
    pub args: Seq<Seq<char>>,
    pub entrypoint: Seq<Seq<char>>,
    pub state_dir: Option<Seq<char>>,
    pub mounts: Map<Seq<char>, Seq<Seq<char>>>,
}

impl Runner {
    /// The parts of this runner.
    pub closed spec fn view(&self) -> RunnerView {
        RunnerView {
            env: strings_view(self.env@),
            args: strings_view(self.args@),
            entrypoint: strings_view(self.entrypoint@),
            state_dir: match self.state_dir {
                Some(d) => Some(d@),
                None => None,
            },
            mounts: self.mounts@,
        }
    }

    /// No environment, arguments, entry point, state directory or mounts.
    pub fn new() -> (r: Self)
        ensures
            r@ == (RunnerView {
                env: Seq::empty(),
                args: Seq::empty(),
                entrypoint: Seq::empty(),
                state_dir: None,
                mounts: Map::empty(),
            }),
    {
        let r = Runner {
            env: Vec::new(),
            args: Vec::new(),
            entrypoint: Vec::new(),
            state_dir: None,
            mounts: crate::names::NameLists::new(),
        };
        proof {
            assert(strings_view(r.env@) =~= Seq::<Seq<char>>::empty());
        }
        r
    }

    /// Keeps the container's state in `dir`.
    pub fn with_state_dir(&mut self, dir: String) -> (r: &mut Self)
        ensures
            r@ == (RunnerView { state_dir: Some(dir@), ..old(self)@ }),
            final(self)@ == final(r)@,
    {
        self.state_dir = Some(dir);
        self
    }

    /// Runs the container with these arguments.
    pub fn with_args(&mut self, args: &[String]) -> (r: &mut Self)
        ensures
            r@ == (RunnerView { args: strings_view(args@), ..old(self)@ }),
            final(self)@ == final(r)@,
    {
        self.args = clone_strings(args);
        self
    }

    /// Gives the mounts these sources.
    pub fn with_mounts(&mut self, mounts: crate::names::NameLists) -> (r: &mut Self)
        ensures
            r@ == (RunnerView { mounts: mounts@, ..old(self)@ }),
            final(self)@ == final(r)@,
    {
        self.mounts = mounts;
        self
    }

    /// Adds `mount` to the sources of mount `name`.
    pub fn add_mount(&mut self, name: &str, mount: String) -> (r: &mut Self)
        ensures
            r@ == (RunnerView {
                mounts: old(self)@.mounts.insert(
                    name@,
                    crate::names::list_or_empty(old(self)@.mounts, name@).push(mount@),
                ),
                ..old(self)@
            }),
            final(self)@ == final(r)@,
    {
        self.mounts.add(name, mount);
        self
    }

    /// Runs the container with this entry point.
    pub fn with_entrypoint(&mut self, entrypoint: &[String]) -> (r: &mut Self)
        ensures
            r@ == (RunnerView { entrypoint: strings_view(entrypoint@), ..old(self)@ }),
            final(self)@ == final(r)@,
    {
        self.entrypoint = clone_strings(entrypoint);
        self
    }

    /// Sets these `NAME=VALUE` environment variables in the container.
    pub fn with_env(&mut self, env: &[String]) -> (r: &mut Self)
        ensures
            r@ == (RunnerView { env: strings_view(env@), ..old(self)@ }),
            final(self)@ == final(r)@,
    {
        self.env = clone_strings(env);
        self
    }

    /// The command that `program` runs in its container.
    pub fn command(&self, program: &Program) -> (r: Result<Vec<String>, RaptorError>)
        ensures
            match spec_command(self@.entrypoint, self@.args, program.code@) {
                Some(c) => r matches Ok(v) && strings_view(v@) == c,
                None => r == Err::<Vec<String>, RaptorError>(RaptorError::NoCommandSpecified),
            },
    {
        let mut command: Vec<String> = Vec::new();
        if self.entrypoint.len() > 0 {
            command = clone_strings(self.entrypoint.as_slice());
        } else {
            match program.entrypoint() {
                Some(e) => {
                    proof {
                        let i = choose|i: int|
                            is_first_of_kind(program.code@, i, 2) && (
                            #[trigger] program.code@[i] matches Item::Statement(s)
                                && s.inst == Instruction::Entrypoint(*e));
                        lemma_first_unique(program.code@, i, first_at(program.code@, 2), 2);
                    }
                    command = clone_strings(e.entrypoint.as_slice());
                },
                None => {
                    command.push("/bin/sh".to_owned());
                    command.push("-c".to_owned());
                    proof {
                        assert(strings_view(command@) =~= default_entrypoint());
                    }
                },
            }
        }
        let ghost head = strings_view(command@);
        if self.args.len() > 0 {
            let mut i: usize = 0;
            while i < self.args.len()
                invariant
                    i <= self.args@.len(),
                    strings_view(command@) == head + strings_view(self.args@).take(i as int),
                decreases self.args@.len() - i,
            {
                let ghost before = strings_view(command@);
                let a = self.args[i].clone();
                assert(a@ == self.args@[i as int]@);
                command.push(a);
                proof {
                    assert(strings_view(command@) =~= before.push(a@));
                    assert(strings_view(self.args@).take(i + 1) =~= strings_view(self.args@).take(
                        i as int,
                    ).push(a@));
                    assert(strings_view(command@) =~= head + strings_view(self.args@).take(i + 1));
                }
                i = i + 1;
            }
            proof {
                assert(strings_view(self.args@).take(self.args@.len() as int) =~= strings_view(
                    self.args@,
                ));
            }
            Ok(command)
        } else {
            match program.cmd() {
                Some(c) => {
                    proof {
                        let i = choose|i: int|
                            is_first_of_kind(program.code@, i, 1) && (
                            #[trigger] program.code@[i] matches Item::Statement(s)
                                && s.inst == Instruction::Cmd(*c));
                        lemma_first_unique(program.code@, i, first_at(program.code@, 1), 1);
                    }
                    let mut i: usize = 0;
                    while i < c.cmd.len()
                        invariant
                            i <= c.cmd@.len(),
                            strings_view(command@) == head + strings_view(c.cmd@).take(i as int),
                        decreases c.cmd@.len() - i,
                    {
                        let ghost before = strings_view(command@);
                        let a = c.cmd[i].clone();
                        assert(a@ == c.cmd@[i as int]@);
                        command.push(a);
                        proof {
                            assert(strings_view(command@) =~= before.push(a@));
                            assert(strings_view(c.cmd@).take(i + 1) =~= strings_view(c.cmd@).take(
                                i as int,
                            ).push(a@));
                            assert(strings_view(command@) =~= head + strings_view(c.cmd@).take(
                                i + 1,
                            ));
                        }
                        i = i + 1;
                    }
                    proof {
                        assert(strings_view(c.cmd@).take(c.cmd@.len() as int) =~= strings_view(
                            c.cmd@,
                        ));
                    }
                    Ok(command)
                },
                None => Err(RaptorError::NoCommandSpecified),
            }
        }
    }
}

/// The settings every sandbox starts from (see `sandbox_builder`).
pub open spec fn sandbox_preset() -> SpawnView {
    SpawnView {
        quiet: true,
        suppress_sync: true,
        link_journal: Some(LinkJournal::No),
        resolv_conf: Some(ResolvConf::Off),
        timezone: Some(Timezone::Off),
        settings: Some(Settings::False),
        console: Some(ConsoleMode::ReadOnly),
        ..SpawnBuilder::new_view()
    }
}

/// The container in which a program runs, before its mounts and
/// environment: the layers under a writable work directory, an empty root
/// directory, `/dev/kvm`, and the command.
pub open spec fn run_base(
    layers: Seq<Seq<char>>,
    work: Seq<char>,
    root: Seq<char>,
    console: ConsoleMode,
    uuid: u128,
    command: Seq<Seq<char>>,
) -> SpawnView {
    SpawnView {
        uuid: Some(uuid),
        console: Some(console),
        args: seq!["--background="@, "--no-pager"@] + command,
        root_overlay: layers.push(work),
        directory: Some(root),
        bind: seq![plain_bind("/dev/kvm"@, "/dev/kvm"@)],
        ..sandbox_preset()
    }
}

/// The directory a container's empty root is made in.
pub fn root_dir(tempdir: &str) -> (r: String)
    ensures
        r@ == path_join_result(tempdir@, "root"@),
{
    path_join(tempdir, "root")
}

impl Runner {
    /// The directory that keeps the container's changes: the state
    /// directory if one was given, else `work` in the temporary directory.
    pub open spec fn spec_work_dir(&self, tempdir: Seq<char>) -> Seq<char> {
        match self@.state_dir {
            Some(d) => d,
            None => path_join_result(tempdir, "work"@),
        }
    }

    /// The directory that keeps the container's changes.
    pub fn work_dir(&self, tempdir: &str) -> (r: String)
        ensures
            r@ == self.spec_work_dir(tempdir@),
    {
        match &self.state_dir {
            Some(d) => d.clone(),
            None => path_join(tempdir, "work"),
        }
    }

    /// The container that runs `program` on top of its built `layers`,
    /// with `tempdir` for its scratch files, the console in `console`
    /// mode, the machine id `uuid`, and `built` giving the layers of the
    /// programs that its mounts use. Fails when there is no command to run
    /// or a mount fails. The plan also holds the work on the host that the
    /// mounts need.
    pub fn spawn_plan(
        &self,
        program: &Program,
        layers: &[String],
        tempdir: &str,
        console: ConsoleMode,
        uuid: u128,
        built: &[(String, Vec<LayerInfo>)],
    ) -> (r: Result<MountPlan, RaptorError>)
        ensures
            match spec_command(self@.entrypoint, self@.args, program.code@) {
                None => r == Err::<MountPlan, RaptorError>(RaptorError::NoCommandSpecified),
                Some(cmd) => match spec_add_mounts(
                    run_base(
                        strings_view(layers@),
                        self.spec_work_dir(tempdir@),
                        path_join_result(tempdir@, "root"@),
                        console,
                        uuid,
                        cmd,
                    ),
                    mounts_of(program.code@),
                    self@.mounts,
                    built_view(built@),
                    tempdir@,
                ) {
                    Ok((s, p)) => r matches Ok(plan) && plan.builder.view() == (SpawnView {
                        environment: env_fold(s.environment, self@.env),
                        ..s
                    }) && preps_view(plan.prep@) == p,
                    Err(e) => r == Err::<MountPlan, RaptorError>(e),
                },
            },
    {
        let command = match self.command(program) {
            Ok(c) => c,
            Err(e) => {
                return Err(e);
            },
        };
        let work = self.work_dir(tempdir);
        let root = root_dir(tempdir);
        let sb = sandbox_builder().uuid(uuid).console(console).arg("--background=").arg(
            "--no-pager",
        ).root_overlays(layers).root_overlay(work.as_str()).directory(root.as_str()).bind(
            BindMount::new("/dev/kvm", "/dev/kvm"),
        ).args(command.as_slice());
        proof {
            let base = run_base(
                strings_view(layers@),
                work@,
                root@,
                console,
                uuid,
                strings_view(command@),
            );
            assert(sb.view().args =~= base.args);
            assert(sb.view().root_overlay =~= base.root_overlay);
            assert(sb.view().bind =~= base.bind);
            assert(sb.view() == base);
        }
        let mounts = program.mounts();
        match sb.add_mounts(mounts.as_slice(), &self.mounts, built, tempdir) {
            Ok(plan) => {
                let MountPlan { builder, prep } = plan;
                let builder = builder.add_environment(self.env.as_slice());
                Ok(MountPlan { builder, prep })
            },
            Err(e) => Err(e),
        }
    }
}

/// A given entry point always starts the command, and given arguments
/// always make one: the program's `ENTRYPOINT` and `CMD` only fill in
/// what is not given.
pub proof fn lemma_command_parts(
    entrypoint: Seq<Seq<char>>,
    args: Seq<Seq<char>>,
    code: Seq<Item>,
)
    ensures
        args.len() > 0 ==> spec_command(entrypoint, args, code) is Some,
        spec_command(entrypoint, args, code) matches Some(c) ==> (entrypoint.len() > 0 ==> c.take(
            entrypoint.len() as int,
        ) == entrypoint),
        args.len() > 0 ==> (spec_command(entrypoint, args, code) matches Some(c) && c.skip(
            c.len() - args.len(),
        ) == args),
{
    match spec_command(entrypoint, args, code) {
        Some(c) => {
            if entrypoint.len() > 0 {
                assert(c.take(entrypoint.len() as int) =~= entrypoint);
            }
            if args.len() > 0 {
                assert(c.skip(c.len() - args.len()) =~= args);
            }
        },
        None => {},
    }
}

} // verus!
