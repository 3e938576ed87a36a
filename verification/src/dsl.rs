//! The instructions of a Raptor build file.
use core::ops::Range;
use vstd::prelude::*;

use crate::text::{clone_strings, push_char, push_str, spec_join, strings_view, join_with};

verus! {

/// Where a statement came from: a file and a byte range in it.
#[derive(Debug, Hash, PartialEq, Eq)]
pub struct Origin {
    pub path: String,
    pub span: Range<usize>,
}

impl Clone for Origin {
    fn clone(&self) -> (r: Self)
        ensures
            r == *self,
    {
        Origin { path: self.path.clone(), span: self.span.start..self.span.end }
    }
}

impl Origin {
    /// An origin in `path`, covering `span`.
    pub fn new(path: String, span: Range<usize>) -> (r: Self)
        ensures
            r.path == path,
            r.span == span,
    {
        Origin { path, span }
    }

    /// An origin in the file named by `path`, covering `span`.
    pub fn make(path: &str, span: Range<usize>) -> (r: Self)
        ensures
            r.path@ == path@,
            r.span == span,
    {
        Origin { path: path.to_owned(), span }
    }

    /// The origin given to statements that were not read from a file.
    pub fn inline() -> (r: Self)
        ensures
            r.path@ == inline_path(),
            r.span.start == 0 && r.span.end == 0,
    {
        let mut path = String::new();
        push_str(&mut path, "<inline>");
        proof {
            reveal_strlit("<inline>");
        }
        Origin { path, span: 0..0 }
    }
}

/// The file name carried by an inline origin.
pub open spec fn inline_path() -> Seq<char> {
    seq!['<', 'i', 'n', 'l', 'i', 'n', 'e', '>']
}

/// Owner and group given to a created file.
#[derive(Clone, Debug, Hash, Default, PartialEq, Eq)]
pub struct Chown {
    pub user: Option<String>,
    pub group: Option<String>,
}

/// How `Chown` is shown: `user`, `:group` or `user:group`.
pub open spec fn spec_chown_text(user: Option<Seq<char>>, group: Option<Seq<char>>) -> Seq<char> {
    (match user {
        Some(u) => u,
        None => Seq::empty(),
    }) + (match group {
        Some(g) => seq![':'] + g,
        None => Seq::empty(),
    })
}

/// The view of an optional string.
pub open spec fn opt_view(o: Option<String>) -> Option<Seq<char>> {
    match o {
        Some(s) => Some(s@),
        None => None,
    }
}

impl Chown {
    /// Both user and group.
    pub fn new(user: &str, group: &str) -> (r: Self)
        ensures
            opt_view(r.user) == Some(user@),
            opt_view(r.group) == Some(group@),
    {
        Chown { user: Some(user.to_owned()), group: Some(group.to_owned()) }
    }

    /// A user only.
    pub fn user(user: &str) -> (r: Self)
        ensures
            opt_view(r.user) == Some(user@),
            r.group is None,
    {
        Chown { user: Some(user.to_owned()), group: None }
    }

    /// A group only.
    pub fn group(group: &str) -> (r: Self)
        ensures
            r.user is None,
            opt_view(r.group) == Some(group@),
    {
        Chown { user: None, group: Some(group.to_owned()) }
    }

    /// The text form of the owner, as `chown` takes it.
    pub fn to_string(&self) -> (r: String)
        ensures
            r@ == spec_chown_text(opt_view(self.user), opt_view(self.group)),
    {
        let mut res = String::new();
        if let Some(user) = &self.user {
            push_str(&mut res, user.as_str());
        }
        if let Some(grp) = &self.group {
            push_char(&mut res, ':');
            push_str(&mut res, grp.as_str());
        }
        proof {
            assert(res@ =~= spec_chown_text(opt_view(self.user), opt_view(self.group)));
        }
        res
    }
}

/// `KEY=VALUE` in an `ENV` instruction.
#[derive(Clone, Debug, Hash, PartialEq, Eq)]
pub struct InstEnvAssign {
    pub key: String,
    pub value: String,
}

impl InstEnvAssign {
    /// An assignment of `value` to `key`.
    pub fn new(key: &str, value: &str) -> (r: Self)
        ensures
            r.key@ == key@,
            r.value@ == value@,
    {
        InstEnvAssign { key: key.to_owned(), value: value.to_owned() }
    }

    /// The assignment as `KEY=VALUE`.
    pub fn to_debug_string(&self) -> (r: String)
        ensures
            r@ == self.key@ + seq!['='] + self.value@,
    {
        let mut res = String::new();
        push_str(&mut res, self.key.as_str());
        push_char(&mut res, '=');
        push_str(&mut res, self.value.as_str());
        proof {
            assert(res@ =~= self.key@ + seq!['='] + self.value@);
        }
        res
    }
}

/// `ENV KEY=VALUE ...`
#[derive(Clone, Debug, Hash, PartialEq, Eq)]
pub struct InstEnv {
    pub env: Vec<InstEnvAssign>,
}

/// `COPY [options] SRC... DEST`
#[derive(Clone, Debug, Hash, PartialEq, Eq)]
pub struct InstCopy {
    pub srcs: Vec<String>,
    pub dest: String,
    pub chmod: Option<u32>,
    pub chown: Option<Chown>,
}

/// `WRITE [options] DEST "BODY"`
#[derive(Clone, Debug, Hash, PartialEq, Eq)]
pub struct InstWrite {
    pub dest: String,
    pub body: String,
    pub chmod: Option<u32>,
    pub chown: Option<Chown>,
}

/// `RENDER [options] SRC DEST ARGS...`
#[derive(Clone, Debug, Hash, PartialEq, Eq)]
pub struct InstRender {
    pub src: String,
    pub dest: String,
    pub chmod: Option<u32>,
    pub chown: Option<Chown>,
    pub args: Vec<IncludeArg>,
}

/// `MKDIR [-p] [options] DEST`
#[derive(Clone, Debug, Hash, PartialEq, Eq)]
pub struct InstMkdir {
    pub dest: String,
    pub chmod: Option<u32>,
    pub chown: Option<Chown>,
    pub parents: bool,
}

/// Where a `FROM` instruction takes its base layer from.
#[derive(Clone, Debug, Hash, PartialEq, Eq)]
pub enum FromSource {
    Raptor(String),
    Docker(String),
}

impl FromSource {
    /// The source as written: the module name, or `docker://IMAGE`.
    pub fn to_string(&self) -> (r: String)
        ensures
            r@ == match self {
                FromSource::Raptor(s) => s@,
                FromSource::Docker(s) => seq!['d', 'o', 'c', 'k', 'e', 'r', ':', '/', '/'] + s@,
            },
    {
        match self {
            FromSource::Raptor(src) => src.clone(),
            FromSource::Docker(src) => {
                let mut res = String::new();
                push_str(&mut res, "docker://");
                proof {
                    reveal_strlit("docker://");
                }
                push_str(&mut res, src.as_str());
                res
            },
        }
    }
}

/// `FROM SOURCE`
#[derive(Clone, Debug, Hash, PartialEq, Eq)]
pub struct InstFrom {
    pub from: FromSource,
}

/// `INVOKE ARGS...`
#[derive(Clone, Debug, Hash, PartialEq, Eq)]
pub struct InstInvoke {
    pub args: Vec<String>,
}

impl InstInvoke {
    /// `INVOKE` followed by the arguments, separated by spaces.
    pub fn to_debug_string(&self) -> (r: String)
        ensures
            r@ == seq!['I', 'N', 'V', 'O', 'K', 'E', ' '] + spec_join(strings_view(self.args@), ' '),
    {
        let mut res = String::new();
        push_str(&mut res, "INVOKE ");
        proof {
            reveal_strlit("INVOKE ");
        }
        let joined = join_with(&self.args, ' ');
        push_str(&mut res, joined.as_str());
        res
    }
}

/// `RUN COMMAND ARGS...`
#[derive(Clone, Debug, Hash, PartialEq, Eq)]
pub struct InstRun {
    pub run: Vec<String>,
}

/// `WORKDIR DIR`
#[derive(Clone, Debug, Hash, PartialEq, Eq)]
pub struct InstWorkdir {
    pub dir: String,
}

/// How a mount is provided to a container.
#[derive(Clone, Copy, Debug, Hash, PartialEq, Eq)]
pub enum MountType {
    File,
    Simple,
    Layers,
    Overlay,
}

/// Options of a `MOUNT` instruction.
#[derive(Clone, Debug, Hash, PartialEq, Eq)]
pub struct MountOptions {
    pub mtype: MountType,
    pub readonly: bool,
    pub optional: bool,
}

/// `MOUNT [options] NAME DEST`
#[derive(Clone, Debug, Hash, PartialEq, Eq)]
pub struct InstMount {
    pub opts: MountOptions,
    pub name: String,
    pub dest: String,
}

/// `ENTRYPOINT ARGS...`
#[derive(Clone, Debug, Hash, PartialEq, Eq)]
pub struct InstEntrypoint {
    pub entrypoint: Vec<String>,
}

/// `CMD ARGS...`
#[derive(Clone, Debug, Hash, PartialEq, Eq)]
pub struct InstCmd {
    pub cmd: Vec<String>,
}

/// A reference to a template variable, `a.b.c`.
#[derive(Clone, Debug, Hash, PartialEq, Eq)]
pub struct Lookup {
    pub path: Vec<String>,
    pub origin: Origin,
}

impl Lookup {
    /// A lookup of `path`, written at `origin`.
    pub fn new(path: Vec<String>, origin: Origin) -> (r: Self)
        ensures
            r.path == path,
            r.origin == origin,
    {
        Lookup { path, origin }
    }
}

/// The value given to a template argument: a variable to look up, or a
/// literal value.
#[derive(Clone, Debug, Hash, PartialEq, Eq)]
pub enum IncludeArgValue {
    Lookup(Lookup),
    Value(minijinja::Value),
}

/// `NAME=VALUE` passed to an included or rendered template.
#[derive(Clone, Debug, Hash, PartialEq, Eq)]
pub struct IncludeArg {
    pub name: String,
    pub value: IncludeArgValue,
}

impl IncludeArg {
    /// An argument `name` with the given value.
    pub fn make(name: &str, value: IncludeArgValue) -> (r: Self)
        ensures
            r.name@ == name@,
            r.value == value,
    {
        IncludeArg { name: name.to_owned(), value }
    }

    /// An argument `name` that looks up the variable `path`.
    pub fn lookup(name: &str, path: &[String], origin: Origin) -> (r: Self)
        ensures
            r.name@ == name@,
            r.value matches IncludeArgValue::Lookup(l) && l.path@ == path@ && l.origin == origin,
    {
        IncludeArg {
            name: name.to_owned(),
            value: IncludeArgValue::Lookup(Lookup { path: clone_strings(path), origin }),
        }
    }
}

/// `INCLUDE SRC ARGS...`
#[derive(Clone, Debug, Hash, PartialEq, Eq)]
pub struct InstInclude {
    pub src: String,
    pub args: Vec<IncludeArg>,
}

/// One instruction of a build file.
#[derive(Clone, Debug, Hash, PartialEq, Eq)]
pub enum Instruction {
    From(InstFrom),
    Copy(InstCopy),
    Render(InstRender),
    Write(InstWrite),
    Mkdir(InstMkdir),
    Include(InstInclude),
    Run(InstRun),
    Env(InstEnv),
    Workdir(InstWorkdir),
    Mount(InstMount),
    Entrypoint(InstEntrypoint),
    Cmd(InstCmd),
}

/// The keyword that starts each kind of instruction.
pub open spec fn spec_instruction_name(inst: Instruction) -> Seq<char> {
    match inst {
        Instruction::From(_) => seq!['F', 'R', 'O', 'M'],
        Instruction::Copy(_) => seq!['C', 'O', 'P', 'Y'],
        Instruction::Render(_) => seq!['R', 'E', 'N', 'D', 'E', 'R'],
        Instruction::Write(_) => seq!['W', 'R', 'I', 'T', 'E'],
        Instruction::Mkdir(_) => seq!['M', 'K', 'D', 'I', 'R'],
        Instruction::Include(_) => seq!['I', 'N', 'C', 'L', 'U', 'D', 'E'],
        Instruction::Run(_) => seq!['R', 'U', 'N'],
        Instruction::Env(_) => seq!['E', 'N', 'V'],
        Instruction::Workdir(_) => seq!['W', 'O', 'R', 'K', 'D', 'I', 'R'],
        Instruction::Mount(_) => seq!['M', 'O', 'U', 'N', 'T'],
        Instruction::Entrypoint(_) => seq!['E', 'N', 'T', 'R', 'Y', 'P', 'O', 'I', 'N', 'T'],
        Instruction::Cmd(_) => seq!['C', 'M', 'D'],
    }
}

impl Instruction {
    /// The keyword of this instruction.
    pub fn name(&self) -> (r: &'static str)
        ensures
            r@ == spec_instruction_name(*self),
    {
        proof {
            reveal_strlit("FROM");
            reveal_strlit("COPY");
            reveal_strlit("RENDER");
            reveal_strlit("WRITE");
            reveal_strlit("MKDIR");
            reveal_strlit("INCLUDE");
            reveal_strlit("RUN");
            reveal_strlit("ENV");
            reveal_strlit("WORKDIR");
            reveal_strlit("MOUNT");
            reveal_strlit("ENTRYPOINT");
            reveal_strlit("CMD");
        }
        match self {
            Instruction::From(_) => "FROM",
            Instruction::Copy(_) => "COPY",
            Instruction::Render(_) => "RENDER",
            Instruction::Write(_) => "WRITE",
            Instruction::Mkdir(_) => "MKDIR",
            Instruction::Include(_) => "INCLUDE",
            Instruction::Run(_) => "RUN",
            Instruction::Env(_) => "ENV",
            Instruction::Workdir(_) => "WORKDIR",
            Instruction::Mount(_) => "MOUNT",
            Instruction::Entrypoint(_) => "ENTRYPOINT",
            Instruction::Cmd(_) => "CMD",
        }
    }

    /// `WORKDIR dir`
    pub fn workdir(dir: &str) -> (r: Self)
        ensures
            r matches Instruction::Workdir(w) && w.dir@ == dir@,
    {
        Instruction::Workdir(InstWorkdir { dir: dir.to_owned() })
    }

    /// `ENV` with the given assignments, in order.
    pub fn env(env: Vec<InstEnvAssign>) -> (r: Self)
        ensures
            r matches Instruction::Env(e) && e.env == env,
    {
        Instruction::Env(InstEnv { env })
    }

    /// `RUN` with the given command words.
    pub fn run(run: &[String]) -> (r: Self)
        ensures
            r matches Instruction::Run(x) && x.run@ == run@,
    {
        Instruction::Run(InstRun { run: clone_strings(run) })
    }

    /// `WRITE dest body`, with default mode and owner.
    pub fn write(dest: &str, body: &str) -> (r: Self)
        ensures
            r matches Instruction::Write(w) && w.dest@ == dest@ && w.body@ == body@ && w.chmod
                is None && w.chown is None,
    {
        Instruction::Write(
            InstWrite { dest: dest.to_owned(), body: body.to_owned(), chmod: None, chown: None },
        )
    }

    /// `RENDER src dest args`, with default mode and owner.
    pub fn render(src: &str, dest: &str, args: Vec<IncludeArg>) -> (r: Self)
        ensures
            r matches Instruction::Render(x) && x.src@ == src@ && x.dest@ == dest@ && x.args
                == args && x.chmod is None && x.chown is None,
    {
        Instruction::Render(
            InstRender {
                src: src.to_owned(),
                dest: dest.to_owned(),
                chmod: None,
                chown: None,
                args,
            },
        )
    }

    /// Sets the file mode of a `COPY`, `WRITE` or `RENDER`; other
    /// instructions are returned unchanged.
    pub fn chmod(self, chmod: Option<u32>) -> (r: Self)
        ensures
            match self {
                Instruction::Copy(i) => r == Instruction::Copy(InstCopy { chmod, ..i }),
                Instruction::Write(i) => r == Instruction::Write(InstWrite { chmod, ..i }),
                Instruction::Render(i) => r == Instruction::Render(InstRender { chmod, ..i }),
                _ => r == self,
            },
    {
        match self {
            Instruction::Copy(inst) => Instruction::Copy(InstCopy { chmod, ..inst }),
            Instruction::Write(inst) => Instruction::Write(InstWrite { chmod, ..inst }),
            Instruction::Render(inst) => Instruction::Render(InstRender { chmod, ..inst }),
            _ => self,
        }
    }

    /// Sets the owner of a `COPY`, `WRITE` or `RENDER`; other instructions
    /// are returned unchanged.
    pub fn chown(self, chown: Option<Chown>) -> (r: Self)
        ensures
            match self {
                Instruction::Copy(i) => r == Instruction::Copy(InstCopy { chown, ..i }),
                Instruction::Write(i) => r == Instruction::Write(InstWrite { chown, ..i }),
                Instruction::Render(i) => r == Instruction::Render(InstRender { chown, ..i }),
                _ => r == self,
            },
    {
        match self {
            Instruction::Copy(inst) => Instruction::Copy(InstCopy { chown, ..inst }),
            Instruction::Write(inst) => Instruction::Write(InstWrite { chown, ..inst }),
            Instruction::Render(inst) => Instruction::Render(InstRender { chown, ..inst }),
            _ => self,
        }
    }
}

/// An instruction together with where it was written.
#[derive(Clone, Debug, Hash, PartialEq, Eq)]
pub struct Statement {
    pub inst: Instruction,
    pub origin: Origin,
}

} // verus!
