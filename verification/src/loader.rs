//! Rules of program loading: how deep includes may nest, and how a load
//! error is explained to the user.
use vstd::prelude::*;

use crate::dsl::Origin;
use crate::error::RaptorError;
use crate::text::push_str;

verus! {

/// How deep `INCLUDE`s may nest.
pub const MAX_NESTED_INCLUDE: usize = 20;

/// Includes may go one level deeper than the `origins` already open; at
/// the limit, an error points at the innermost one.
pub fn check_include_depth(origins: &[Origin]) -> (r: Result<(), RaptorError>)
    ensures
        origins@.len() < MAX_NESTED_INCLUDE ==> r is Ok,
        origins@.len() >= MAX_NESTED_INCLUDE ==> (r matches Err(RaptorError::ScriptError(m, o))
            && m@ == "Too many nested includes"@ && o == origins@.last()),
{
    if origins.len() >= MAX_NESTED_INCLUDE {
        let last = origins[origins.len() - 1].clone();
        return Err(RaptorError::ScriptError("Too many nested includes".to_owned(), last));
    }
    Ok(())
}

/// What to show for a load error: the chain of includes that led to it,
/// then the place it points at.
pub enum Explanation {
    /// Show `stack`, then the source at `at` under `title`, with the
    /// error's message.
    AtOrigin { stack: Vec<Origin>, at: Origin, title: String },
    /// Show `stack`, then the place the template engine reports, and the
    /// errors that caused it.
    Template { stack: Vec<Origin> },
    /// Show the source of the statement that failed to parse.
    Parse,
    /// Nothing more can be shown.
    Unexplained,
    /// An error that loading does not produce.
    Unexpected,
}

/// The origins without the last one.
fn all_but_last(origins: &[Origin]) -> (r: Vec<Origin>)
    requires
        origins@.len() > 0,
    ensures
        r@ == origins@.drop_last(),
{
    let mut res: Vec<Origin> = Vec::new();
    let mut i: usize = 0;
    let n = origins.len() - 1;
    while i < n
        invariant
            n == origins@.len() - 1,
            i <= n,
            res@ == origins@.take(i as int),
        decreases origins@.len() - i,
    {
        res.push(origins[i].clone());
        proof {
            assert(origins@.take(i + 1) =~= origins@.take(i as int).push(origins@[i as int]));
        }
        i = i + 1;
    }
    proof {
        assert(origins@.take(i as int) =~= origins@.drop_last());
    }
    res
}

/// All the origins.
fn all_of(origins: &[Origin]) -> (r: Vec<Origin>)
    ensures
        r@ == origins@,
{
    let mut res: Vec<Origin> = Vec::new();
    let mut i: usize = 0;
    while i < origins.len()
        invariant
            i <= origins@.len(),
            res@ == origins@.take(i as int),
        decreases origins@.len() - i,
    {
        res.push(origins[i].clone());
        proof {
            assert(origins@.take(i + 1) =~= origins@.take(i as int).push(origins@[i as int]));
        }
        i = i + 1;
    }
    proof {
        assert(origins@.take(i as int) =~= origins@);
    }
    res
}

/// What to show for an error met while loading through the includes
/// `origins`: a script error or an undefined variable at its own origin,
/// after all includes; a package that is not found at its origin, the
/// same way; a failed sandbox request at the last include, after the
/// others; an included file that cannot be loaded at the last include,
/// after the others; any other template error by the engine's own report,
/// after all includes; a parse error by its own report.
pub fn explain(err: &RaptorError, origins: &[Origin]) -> (r: Explanation)
    ensures
        match *err {
            RaptorError::ScriptError(_, o) | RaptorError::UndefinedVarError(_, o) => r matches Explanation::AtOrigin {
                stack,
                at,
                title,
            } && stack@ == origins@ && at == o && title@ == "Script Error"@,
            RaptorError::PackageNotFound(pkg, o) => r matches Explanation::AtOrigin {
                stack,
                at,
                title,
            } && stack@ == origins@ && at == o && title@ == "Package not found: $"@ + pkg@,
            RaptorError::SandboxRequestError(_) => if origins@.len() > 0 {
                (r matches Explanation::AtOrigin { stack, at, title } && stack@
                    == origins@.drop_last() && at == origins@.last() && title@
                    == "Error while executing instruction"@)
            } else {
                r is Unexplained
            },
            RaptorError::MinijinjaError { bad_include, .. } => if !bad_include {
                (r matches Explanation::Template { stack } && stack@ == origins@)
            } else if origins@.len() > 0 {
                (r matches Explanation::AtOrigin { stack, at, title } && stack@
                    == origins@.drop_last() && at == origins@.last() && title@
                    == "Error while loading source file"@)
            } else {
                r is Unexplained
            },
            RaptorError::ParseError(_) => r is Parse,
            _ => r is Unexpected,
        },
{
    match err {
        RaptorError::ScriptError(_, o) | RaptorError::UndefinedVarError(_, o) => {
            Explanation::AtOrigin {
                stack: all_of(origins),
                at: o.clone(),
                title: "Script Error".to_owned(),
            }
        },
        RaptorError::PackageNotFound(pkg, o) => {
            let mut title = String::new();
            push_str(&mut title, "Package not found: $");
            push_str(&mut title, pkg.as_str());
            Explanation::AtOrigin { stack: all_of(origins), at: o.clone(), title }
        },
        RaptorError::SandboxRequestError(_) => {
            if origins.len() > 0 {
                Explanation::AtOrigin {
                    stack: all_but_last(origins),
                    at: origins[origins.len() - 1].clone(),
                    title: "Error while executing instruction".to_owned(),
                }
            } else {
                Explanation::Unexplained
            }
        },
        RaptorError::MinijinjaError { bad_include, .. } => {
            if *bad_include {
                if origins.len() > 0 {
                    Explanation::AtOrigin {
                        stack: all_but_last(origins),
                        at: origins[origins.len() - 1].clone(),
                        title: "Error while loading source file".to_owned(),
                    }
                } else {
                    Explanation::Unexplained
                }
            } else {
                Explanation::Template { stack: all_of(origins) }
            }
        },
        RaptorError::ParseError(_) => Explanation::Parse,
        _ => Explanation::Unexpected,
    }
}

} // verus!
