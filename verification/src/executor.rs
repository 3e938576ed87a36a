//! What each statement of a program asks of the build sandbox.
use vstd::prelude::*;

use crate::dsl::{Chown, InstEnvAssign, Instruction, Statement};
use crate::error::RaptorError;
use crate::jinja::{all_literal, lookups_named, resolve_args, undefined_in, values_match};
use crate::paths::path_join_result;
use crate::program::{deref_all, flatten_items, flatten_program, Program};
use crate::resolver::spec_basedir;
use crate::text::{clone_strings, strings_view};

verus! {

/// One request to the build sandbox.
pub enum SandboxAction {
    /// Nothing to do: the statement only shapes the program.
    Nothing,
    /// Copy the host file `src` to `dest` in the sandbox.
    CopyFile { src: String, dest: String, chown: Option<Chown>, chmod: Option<u32> },
    /// Render the template `src` with the argument values and write the
    /// result, with a final newline, to `dest`.
    Render {
        src: String,
        dest: String,
        chown: Option<Chown>,
        chmod: Option<u32>,
        values: Vec<(String, minijinja::Value)>,
    },
    /// Write `body` to `dest`.
    WriteFile { dest: String, chown: Option<Chown>, chmod: Option<u32>, body: String },
    /// Create the directory `dest` (and its parents, if asked).
    Mkdir { dest: String, chown: Option<Chown>, chmod: Option<u32>, parents: bool },
    /// Run a command.
    Run(Vec<String>),
    /// Set environment variables, in order.
    SetEnv(Vec<(String, String)>),
    /// Change the working directory.
    Chdir(String),
}

/// A copy of an owner.
fn copy_chown(c: &Option<Chown>) -> (r: Option<Chown>)
    ensures
        r == *c,
{
    match c {
        Some(ch) => {
            let user = match &ch.user {
                Some(u) => Some(u.clone()),
                None => None,
            };
            let group = match &ch.group {
                Some(g) => Some(g.clone()),
                None => None,
            };
            Some(Chown { user, group })
        },
        None => None,
    }
}

/// The arguments of a template statement name variables by at least one
/// part, and a `COPY` has a source.
pub open spec fn well_formed_statement(s: Statement) -> bool {
    match s.inst {
        Instruction::Copy(c) => c.srcs@.len() > 0,
        Instruction::Render(r) => lookups_named(r.args@),
        _ => true,
    }
}

/// The name and value pairs of `ENV`.
pub open spec fn assigns_view(v: Seq<InstEnvAssign>) -> Seq<(Seq<char>, Seq<char>)> {
    v.map_values(|a: InstEnvAssign| (a.key@, a.value@))
}

/// The views of name and value pairs.
pub open spec fn pairs_view(v: Seq<(String, String)>) -> Seq<(Seq<char>, Seq<char>)> {
    v.map_values(|p: (String, String)| (p.0@, p.1@))
}

/// What the sandbox is asked to do for a statement, in the template
/// context `ctx`. `FROM`, `INCLUDE`, `MOUNT`, `ENTRYPOINT` and `CMD` ask
/// nothing; `COPY` copies its first source, `RENDER` its template, both
/// found next to the file of the statement; the others map one to one. A
/// source in a file without a directory is an error, and so is an
/// argument of `RENDER` that cannot be looked up (looked up first). A
/// `RENDER` whose arguments are all literal values succeeds exactly when
/// its file has a directory; its values carry each argument's name in
/// order, and each literal's value.
pub fn statement_action(stmt: &Statement, ctx: &minijinja::Value) -> (r: Result<
    SandboxAction,
    RaptorError,
>)
    requires
        well_formed_statement(*stmt),
    ensures
        match stmt.inst {
            Instruction::From(_) | Instruction::Include(_) | Instruction::Mount(_)
            | Instruction::Entrypoint(_) | Instruction::Cmd(_) => r matches Ok(
                SandboxAction::Nothing,
            ),
            Instruction::Copy(c) => match spec_basedir(stmt.origin.path@) {
                Some(d) => r matches Ok(SandboxAction::CopyFile { src, dest, chown, chmod }) && src@
                    == path_join_result(d, c.srcs@[0]@) && dest@ == c.dest@ && chown == c.chown
                    && chmod == c.chmod,
                None => r matches Err(RaptorError::BadPathNoParent(p)) && p@ == stmt.origin.path@,
            },
            Instruction::Render(t) => {
                &&& all_literal(t.args@) ==> match spec_basedir(stmt.origin.path@) {
                    Some(d) => r is Ok,
                    None => r matches Err(RaptorError::BadPathNoParent(p)) && p@
                        == stmt.origin.path@,
                }
                &&& r matches Err(e) ==> (e is MinijinjaError || (e matches RaptorError::UndefinedVarError(
                    n,
                    o,
                ) && undefined_in(t.args@, n@, o)) || (e matches RaptorError::BadPathNoParent(p)
                    && p@ == stmt.origin.path@ && spec_basedir(stmt.origin.path@) is None))
                &&& r matches Ok(a) ==> (a matches SandboxAction::Render {
                    src,
                    dest,
                    chown,
                    chmod,
                    values,
                } && spec_basedir(stmt.origin.path@) matches Some(d) && src@ == path_join_result(
                    d,
                    t.src@,
                ) && dest@ == t.dest@ && chown == t.chown && chmod == t.chmod && values_match(
                    values@,
                    t.args@,
                ))
            },
            Instruction::Write(w) => r matches Ok(
                SandboxAction::WriteFile { dest, chown, chmod, body },
            ) && dest@ == w.dest@ && chown == w.chown && chmod == w.chmod && body@ == w.body@,
            Instruction::Mkdir(m) => r matches Ok(
                SandboxAction::Mkdir { dest, chown, chmod, parents },
            ) && dest@ == m.dest@ && chown == m.chown && chmod == m.chmod && parents == m.parents,
            Instruction::Run(x) => r matches Ok(SandboxAction::Run(argv)) && strings_view(argv@)
                == strings_view(x.run@),
            Instruction::Env(e) => r matches Ok(SandboxAction::SetEnv(vars)) && pairs_view(vars@)
                == assigns_view(e.env@),
            Instruction::Workdir(w) => r matches Ok(SandboxAction::Chdir(dir)) && dir@ == w.dir@,
        },
{
    match &stmt.inst {
        Instruction::From(_) | Instruction::Include(_) | Instruction::Mount(_)
        | Instruction::Entrypoint(_) | Instruction::Cmd(_) => Ok(SandboxAction::Nothing),
        Instruction::Copy(c) => match stmt.origin.path_for(c.srcs[0].as_str()) {
            Ok(src) => Ok(
                SandboxAction::CopyFile {
                    src,
                    dest: c.dest.clone(),
                    chown: copy_chown(&c.chown),
                    chmod: c.chmod,
                },
            ),
            Err(e) => Err(e),
        },
        Instruction::Render(t) => {
            let values = match resolve_args(t.args.as_slice(), ctx) {
                Ok(v) => v,
                Err(e) => {
                    return Err(e);
                },
            };
            match stmt.origin.path_for(t.src.as_str()) {
                Ok(src) => Ok(
                    SandboxAction::Render {
                        src,
                        dest: t.dest.clone(),
                        chown: copy_chown(&t.chown),
                        chmod: t.chmod,
                        values,
                    },
                ),
                Err(e) => Err(e),
            }
        },
        Instruction::Write(w) => Ok(
            SandboxAction::WriteFile {
                dest: w.dest.clone(),
                chown: copy_chown(&w.chown),
                chmod: w.chmod,
                body: w.body.clone(),
            },
        ),
        Instruction::Mkdir(m) => Ok(
            SandboxAction::Mkdir {
                dest: m.dest.clone(),
                chown: copy_chown(&m.chown),
                chmod: m.chmod,
                parents: m.parents,
            },
        ),
        Instruction::Run(x) => Ok(SandboxAction::Run(clone_strings(x.run.as_slice()))),
        Instruction::Env(e) => {
            let mut vars: Vec<(String, String)> = Vec::new();
            let mut i: usize = 0;
            while i < e.env.len()
                invariant
                    i <= e.env@.len(),
                    pairs_view(vars@) == assigns_view(e.env@).take(i as int),
                decreases e.env@.len() - i,
            {
                let k = e.env[i].key.clone();
                let v = e.env[i].value.clone();
                let ghost before = pairs_view(vars@);
                vars.push((k, v));
                proof {
                    assert(pairs_view(vars@) =~= before.push((k@, v@)));
                    assert(assigns_view(e.env@).take(i + 1) =~= assigns_view(e.env@).take(
                        i as int,
                    ).push((k@, v@)));
                }
                i = i + 1;
            }
            proof {
                assert(assigns_view(e.env@).take(e.env@.len() as int) =~= assigns_view(e.env@));
            }
            Ok(SandboxAction::SetEnv(vars))
        },
        Instruction::Workdir(w) => Ok(SandboxAction::Chdir(w.dir.clone())),
    }
}

/// Shows what a build would do, without a sandbox.
pub struct PrintExecutor {}

impl PrintExecutor {
    /// A printer.
    pub fn new() -> (r: Self) {
        PrintExecutor {}
    }

    /// The statements that a dry run shows, in the order they would run:
    /// every statement of the program, included programs in place.
    pub fn run<'a>(&self, program: &'a Program) -> (r: Vec<&'a Statement>)
        ensures
            deref_all(r@) == flatten_items(program.code@),
    {
        flatten_program(program)
    }
}

} // verus!
