//! The template values that Raptor passes around, and the template engine
//! operations that its logic needs.
use vstd::prelude::*;

use crate::dsl::{IncludeArg, IncludeArgValue, Lookup, Origin};
use crate::text::clone_strings;
use crate::error::{template_error, RaptorError};

verus! {

/// A template value (`minijinja::Value`), carried through opaquely.
#[verifier::external_type_specification]
#[verifier::external_body]
pub struct ExValue(minijinja::Value);

/// An error raised by the template engine (`minijinja::Error`).
#[verifier::external_type_specification]
#[verifier::external_body]
pub struct ExJinjaError(minijinja::Error);

/// Copying a template value (`minijinja::Value::clone`, derived): the
/// copy is the same value.
pub assume_specification[ <minijinja::Value as Clone>::clone ](v: &minijinja::Value) -> (r: minijinja::Value)
    ensures
        r == *v,
;

/// The attribute `name` of a template value (`Value::get_attr`). Nothing
/// is claimed of it: it depends on what the value holds, which is not
/// visible here.
#[verifier::external_body]
fn get_attr(v: &minijinja::Value, name: &str) -> Result<minijinja::Value, minijinja::Error> {
    v.get_attr(name)
}

/// Whether a template value is undefined (`Value::is_undefined`). Nothing
/// is claimed of it, for the same reason.
#[verifier::external_body]
fn is_undefined(v: &minijinja::Value) -> bool {
    v.is_undefined()
}

/// One step of looking up a dotted variable: what the template engine
/// gave for the part `part` (`got`), and whether that value is undefined,
/// become the value to look the next part up in, or the error that ends
/// the lookup. An engine error is passed on; an undefined value is an
/// error naming `part` at `origin`.
pub fn lookup_step(
    got: Result<minijinja::Value, minijinja::Error>,
    undefined: bool,
    part: &String,
    origin: &Origin,
) -> (r: Result<minijinja::Value, RaptorError>)
    ensures
        match got {
            Err(e) => r matches Err(RaptorError::MinijinjaError { err, .. }) && err == e,
            Ok(v) => if undefined {
                r matches Err(RaptorError::UndefinedVarError(n, o)) && n@ == part@ && o == *origin
            } else {
                r == Ok::<minijinja::Value, RaptorError>(v)
            },
        },
{
    match got {
        Err(e) => Err(template_error(e)),
        Ok(v) => if undefined {
            Err(RaptorError::UndefinedVarError(part.clone(), origin.clone()))
        } else {
            Ok(v)
        },
    }
}

impl IncludeArgValue {
    /// The value of the argument in the context `ctx`: a literal value as
    /// it is; a variable `a.b.c` by looking up `a` in `ctx`, then `b` in
    /// that, and so on, each step decided by `lookup_step`. A part that is
    /// undefined is an error naming it, and so is an error of the template
    /// engine. What the engine gives for each part is not stated: a
    /// template value is opaque here, and an object's attributes are
    /// computed by code of its own.
    pub fn resolve(self, ctx: &minijinja::Value) -> (r: Result<minijinja::Value, RaptorError>)
        requires
            self matches IncludeArgValue::Lookup(l) ==> l.path@.len() > 0,
        ensures
            (self matches IncludeArgValue::Value(v) ==> r == Ok::<
                minijinja::Value,
                RaptorError,
            >(v)),
            (self matches IncludeArgValue::Lookup(l) ==> (r is Ok || r matches Err(
                RaptorError::MinijinjaError { .. },
            ) || (r matches Err(RaptorError::UndefinedVarError(n, o)) && o == l.origin && exists|
                i: int,
            | 0 <= i < l.path@.len() && l.path@[i]@ == n@))),
    {
        let ghost me = self;
        match self {
            IncludeArgValue::Lookup(lookup) => {
                let parts = &lookup.path;
                let mut val = ctx.clone();
                let mut i: usize = 0;
                while i < parts.len()
                    invariant
                        i <= parts@.len(),
                        parts@ == lookup.path@,
                        me == self,
                        self == IncludeArgValue::Lookup(lookup),
                    decreases parts@.len() - i,
                {
                    let got = get_attr(&val, parts[i].as_str());
                    let undefined = match &got {
                        Ok(v) => is_undefined(v),
                        Err(_) => false,
                    };
                    match lookup_step(got, undefined, &parts[i], &lookup.origin) {
                        Ok(v) => {
                            val = v;
                        },
                        Err(e) => {
                            proof {
                                if e is UndefinedVarError {
                                    assert(lookup.path@[i as int]@ == e->UndefinedVarError_0@);
                                }
                            }
                            return Err(e);
                        },
                    }
                    i = i + 1;
                }
                Ok(val)
            },
            IncludeArgValue::Value(v) => Ok(v),
        }
    }
}

/// Every argument names a variable by at least one part.
pub open spec fn lookups_named(args: Seq<IncludeArg>) -> bool {
    forall|i: int|
        0 <= i < args.len() ==> ((#[trigger] args[i]).value matches IncludeArgValue::Lookup(l)
            ==> l.path@.len() > 0)
}

/// Every argument is a literal value.
pub open spec fn all_literal(args: Seq<IncludeArg>) -> bool {
    forall|i: int| 0 <= i < args.len() ==> (#[trigger] args[i]).value is Value
}

/// The values carry each argument's name, in order, and each literal's
/// own value.
pub open spec fn values_match(values: Seq<(String, minijinja::Value)>, args: Seq<IncludeArg>) -> bool {
    &&& values.len() == args.len()
    &&& forall|i: int| 0 <= i < args.len() ==> (#[trigger] values[i]).0@ == args[i].name@
    &&& forall|i: int|
        0 <= i < args.len() ==> ((#[trigger] args[i]).value matches IncludeArgValue::Value(x)
            ==> values[i].1 == x)
}

/// Argument `a` looks up a variable at `o` with `n` among its parts.
pub open spec fn names_part(a: IncludeArg, n: Seq<char>, o: crate::dsl::Origin) -> bool {
    match a.value {
        IncludeArgValue::Lookup(l) => l.origin == o && l.path@.map_values(|p: String| p@).contains(n),
        IncludeArgValue::Value(_) => false,
    }
}

/// An undefined variable named by some part of a looked-up argument, at
/// that argument's origin.
pub open spec fn undefined_in(args: Seq<IncludeArg>, n: Seq<char>, o: crate::dsl::Origin) -> bool {
    exists|i: int| 0 <= i < args.len() && #[trigger] names_part(args[i], n, o)
}

/// A copy of an argument value.
fn copy_value(v: &IncludeArgValue) -> (r: IncludeArgValue)
    ensures
        match (r, *v) {
            (IncludeArgValue::Lookup(a), IncludeArgValue::Lookup(b)) => a.path@ == b.path@
                && a.origin == b.origin,
            (IncludeArgValue::Value(a), IncludeArgValue::Value(b)) => a == b,
            _ => false,
        },
{
    match v {
        IncludeArgValue::Lookup(l) => IncludeArgValue::Lookup(
            Lookup { path: clone_strings(l.path.as_slice()), origin: l.origin.clone() },
        ),
        IncludeArgValue::Value(x) => IncludeArgValue::Value(x.clone()),
    }
}

/// The values of all arguments in the context `ctx`, each with its name,
/// in order; the first argument that fails makes the whole fail.
pub fn resolve_args(args: &[IncludeArg], ctx: &minijinja::Value) -> (r: Result<
    Vec<(String, minijinja::Value)>,
    RaptorError,
>)
    requires
        lookups_named(args@),
    ensures
        all_literal(args@) ==> r is Ok,
        r matches Err(e) ==> (e is MinijinjaError || (e matches RaptorError::UndefinedVarError(n, o)
            && undefined_in(args@, n@, o))),
        r matches Ok(v) ==> values_match(v@, args@),
{
    let mut res: Vec<(String, minijinja::Value)> = Vec::new();
    let mut i: usize = 0;
    while i < args.len()
        invariant
            i <= args@.len(),
            lookups_named(args@),
            res@.len() == i,
            forall|j: int| 0 <= j < i ==> (#[trigger] res@[j]).0@ == args@[j].name@,
            forall|j: int|
                0 <= j < i ==> ((#[trigger] args@[j]).value matches IncludeArgValue::Value(x)
                    ==> res@[j].1 == x),
        decreases args@.len() - i,
    {
        let value = copy_value(&args[i].value);
        assert(args@[i as int].value matches IncludeArgValue::Lookup(l) ==> l.path@.len() > 0);
        match value.resolve(ctx) {
            Ok(v) => {
                res.push((args[i].name.clone(), v));
            },
            Err(e) => {
                proof {
                    assert(args@[i as int].value is Lookup);
                    if e is UndefinedVarError {
                        let n = e->UndefinedVarError_0;
                        let o = e->UndefinedVarError_1;
                        let l = args@[i as int].value->Lookup_0;
                        let k = choose|k: int| 0 <= k < value->Lookup_0.path@.len()
                            && value->Lookup_0.path@[k]@ == n@;
                        assert(l.path@.map_values(|p: String| p@)[k] == n@);
                        assert(names_part(args@[i as int], n@, o));
                        assert(undefined_in(args@, n@, o));
                    }
                }
                return Err(e);
            },
        }
        i = i + 1;
    }
    Ok(res)
}

} // verus!
