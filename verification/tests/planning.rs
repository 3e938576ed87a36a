use std::collections::BTreeMap;

use raptor::dsl::{
    Chown, IncludeArg, IncludeArgValue, InstCopy, InstEnv, InstEnvAssign, InstMkdir, InstRender,
    Instruction, Lookup, Origin, Statement,
};
use raptor::error::{template_error, template_error_with, RaptorError};
use raptor::executor::{statement_action, SandboxAction};
use raptor::jinja::{lookup_step, resolve_args};
use raptor::layer::LayerInfo;
use raptor::loader::{check_include_depth, explain, Explanation};
use raptor::make::RunTarget;
use raptor::planner::{BuildTarget, Job, Planner};
use raptor::syntax::{parse_chmod, unescape};

fn origin() -> Origin {
    Origin::make("dir/prog.rapt", 3..5)
}

fn ctx() -> minijinja::Value {
    let mut inner = BTreeMap::new();
    inner.insert("b".to_string(), minijinja::Value::from("deep"));
    let mut outer = BTreeMap::new();
    outer.insert("a".to_string(), minijinja::Value::from(inner));
    minijinja::Value::from(outer)
}

#[test]
fn chmod_octal() {
    assert_eq!(parse_chmod("755"), Some(0o755));
    assert_eq!(parse_chmod("+644"), Some(0o644));
    assert_eq!(parse_chmod("8"), None);
    assert_eq!(parse_chmod(""), None);
    assert_eq!(parse_chmod("+"), None);
    assert_eq!(parse_chmod("37777777777"), Some(u32::MAX));
    assert_eq!(parse_chmod("40000000000"), None);
}

#[test]
fn string_escapes() {
    assert_eq!(unescape("\\t"), Some('\t'));
    assert_eq!(unescape("\\n"), Some('\n'));
    assert_eq!(unescape("\\x"), None);
}

#[test]
fn include_depth() {
    let origins: Vec<Origin> = (0..19).map(|i| Origin::make("f", i..i)).collect();
    assert!(check_include_depth(&origins).is_ok());
    let origins: Vec<Origin> = (0..20).map(|i| Origin::make("f", i..i)).collect();
    match check_include_depth(&origins) {
        Err(RaptorError::ScriptError(msg, o)) => {
            assert_eq!(msg, "Too many nested includes");
            assert_eq!(o.span, 19..19);
        }
        _ => panic!("expected a script error"),
    }
}

#[test]
fn explanations() {
    let origins = vec![Origin::make("a", 0..1), Origin::make("b", 2..3)];
    let err = RaptorError::ScriptError("x".into(), origin());
    match explain(&err, &origins) {
        Explanation::AtOrigin { stack, at, title } => {
            assert_eq!(stack.len(), 2);
            assert_eq!(at, origin());
            assert_eq!(title, "Script Error");
        }
        _ => panic!("expected a place"),
    }
    let err = RaptorError::PackageNotFound("pkg".into(), origin());
    match explain(&err, &origins) {
        Explanation::AtOrigin { title, .. } => assert_eq!(title, "Package not found: $pkg"),
        _ => panic!("expected a place"),
    }
    let err = RaptorError::SandboxRequestError(2);
    match explain(&err, &origins) {
        Explanation::AtOrigin { stack, at, title } => {
            assert_eq!(stack.len(), 1);
            assert_eq!(at.path, "b");
            assert_eq!(title, "Error while executing instruction");
        }
        _ => panic!("expected a place"),
    }
    assert!(matches!(explain(&RaptorError::SandboxRequestError(2), &[]), Explanation::Unexplained));
    assert!(matches!(explain(&RaptorError::ParseError("p".into()), &[]), Explanation::Parse));
    assert!(matches!(explain(&RaptorError::RootRequired, &[]), Explanation::Unexpected));
}

#[test]
fn resolving_arguments() {
    let args = vec![
        IncludeArg::lookup("x", &["a".to_string(), "b".to_string()], origin()),
        IncludeArg::make("y", IncludeArgValue::Value(minijinja::Value::from(7))),
    ];
    let values = resolve_args(&args, &ctx()).unwrap();
    assert_eq!(values[0].0, "x");
    assert_eq!(values[0].1, minijinja::Value::from("deep"));
    assert_eq!(values[1].1, minijinja::Value::from(7));

    let missing = vec![IncludeArg::lookup("x", &["a".to_string(), "zz".to_string()], origin())];
    match resolve_args(&missing, &ctx()) {
        Err(RaptorError::UndefinedVarError(name, o)) => {
            assert_eq!(name, "zz");
            assert_eq!(o, origin());
        }
        other => panic!("expected an undefined variable, got {other:?}"),
    }
    let unknown = IncludeArgValue::Lookup(Lookup::new(vec!["nope".into()], origin()));
    assert!(matches!(unknown.resolve(&ctx()), Err(RaptorError::UndefinedVarError(ref n, _)) if n == "nope"));
}

#[test]
fn statement_actions() {
    let stmt = Statement {
        inst: Instruction::Copy(InstCopy {
            srcs: vec!["file".into()],
            dest: "/x".into(),
            chmod: Some(0o600),
            chown: Some(Chown::user("root")),
        }),
        origin: origin(),
    };
    match statement_action(&stmt, &ctx()).unwrap() {
        SandboxAction::CopyFile { src, dest, chown, chmod } => {
            assert_eq!(src, "dir/file");
            assert_eq!(dest, "/x");
            assert_eq!(chmod, Some(0o600));
            assert_eq!(chown, Some(Chown::user("root")));
        }
        _ => panic!("expected a copy"),
    }

    let stmt = Statement {
        inst: Instruction::Env(InstEnv {
            env: vec![InstEnvAssign::new("A", "1"), InstEnvAssign::new("B", "2")],
        }),
        origin: origin(),
    };
    match statement_action(&stmt, &ctx()).unwrap() {
        SandboxAction::SetEnv(vars) => assert_eq!(
            vars,
            vec![("A".to_string(), "1".to_string()), ("B".to_string(), "2".to_string())]
        ),
        _ => panic!("expected variables"),
    }

    let stmt = Statement {
        inst: Instruction::Mkdir(InstMkdir { dest: "/d".into(), chmod: None, chown: None, parents: true }),
        origin: origin(),
    };
    assert!(matches!(
        statement_action(&stmt, &ctx()).unwrap(),
        SandboxAction::Mkdir { parents: true, .. }
    ));

    let stmt = Statement {
        inst: Instruction::Render(InstRender {
            src: "t.j2".into(),
            dest: "/t".into(),
            chmod: None,
            chown: None,
            args: vec![IncludeArg::lookup("v", &["a".to_string()], origin())],
        }),
        origin: origin(),
    };
    match statement_action(&stmt, &ctx()).unwrap() {
        SandboxAction::Render { src, values, .. } => {
            assert_eq!(src, "dir/t.j2");
            assert_eq!(values.len(), 1);
        }
        _ => panic!("expected a render"),
    }

    let stmt = Statement { inst: Instruction::workdir("/w"), origin: Origin::make("/", 0..0) };
    assert!(matches!(statement_action(&stmt, &ctx()).unwrap(), SandboxAction::Chdir(ref d) if d == "/w"));
}

#[test]
fn render_with_literal_arguments() {
    let args = vec![
        IncludeArg::make("x", IncludeArgValue::Value(minijinja::Value::from(7))),
        IncludeArg::make("y", IncludeArgValue::Value(minijinja::Value::from("z"))),
    ];
    let stmt = Statement {
        inst: Instruction::render("t.j2", "/t", args),
        origin: origin(),
    };
    match statement_action(&stmt, &minijinja::Value::UNDEFINED).unwrap() {
        SandboxAction::Render { src, dest, values, .. } => {
            assert_eq!(src, "dir/t.j2");
            assert_eq!(dest, "/t");
            assert_eq!(values.len(), 2);
            assert_eq!(values[0].0, "x");
            assert_eq!(values[0].1, minijinja::Value::from(7));
            assert_eq!(values[1].0, "y");
            assert_eq!(values[1].1, minijinja::Value::from("z"));
        }
        _ => panic!("expected a render"),
    }
    let stmt = Statement {
        inst: Instruction::render("t.j2", "/t", vec![]),
        origin: Origin::make("/", 0..0),
    };
    assert!(matches!(
        statement_action(&stmt, &minijinja::Value::UNDEFINED),
        Err(RaptorError::BadPathNoParent(ref p)) if p == "/"
    ));
}

fn stack(items: &[(&str, u64, bool)]) -> Vec<(BuildTarget, LayerInfo)> {
    items
        .iter()
        .map(|(name, hash, docker)| {
            let target = if *docker {
                BuildTarget::DockerSource(name.to_string())
            } else {
                let prog = raptor::program::Program::new(
                    vec![],
                    minijinja::Value::UNDEFINED,
                    format!("{name}.rapt"),
                );
                BuildTarget::Program(std::sync::Arc::new(prog))
            };
            (target, LayerInfo::new(name.to_string(), *hash))
        })
        .collect()
}

fn run_target() -> RunTarget {
    RunTarget {
        target: "app".into(),
        cache: vec![],
        input: vec!["data".into()],
        output: None,
        entrypoint: vec![],
        state_dir: None,
        args: vec![],
        env: vec![],
    }
}

#[test]
fn planning_builds_and_runs() {
    let mut planner = Planner::new();
    let top = planner.add_build_job(stack(&[("debian", 1, true), ("base", 2, false), ("app", 3, false)]));
    assert_eq!(top, Some(3));
    assert_eq!(planner.deps(1), Some(&vec![]));
    assert_eq!(planner.deps(2), Some(&vec![1]));
    assert_eq!(planner.deps(3), Some(&vec![2]));
    match planner.job(3) {
        Some(Job::Build(b)) => {
            assert_eq!(b.layers, vec!["layers/debian-0000000000000001".to_string(), "layers/base-0000000000000002".to_string()]);
            assert_eq!(b.layerinfo.hash_value(), 3);
        }
        _ => panic!("expected a build job"),
    }

    planner.add_run_job(
        "job",
        run_target(),
        100,
        stack(&[("base", 2, false), ("app", 3, false)]),
        vec![stack(&[("data", 4, false)])],
    );
    assert_eq!(planner.deps(100), Some(&vec![3, 4]));
    assert!(matches!(planner.job(100), Some(Job::Run { name, .. }) if name == "job"));
    assert_eq!(planner.add_build_job(vec![]), None);
}

#[test]
fn explain_template_errors() {
    let origins = vec![Origin::make("a", 0..1), Origin::make("b", 2..3)];
    let bad = template_error(minijinja::Error::new(
        minijinja::ErrorKind::BadInclude,
        "missing",
    ));
    match explain(&bad, &origins) {
        Explanation::AtOrigin { stack, at, title } => {
            assert_eq!(stack.len(), 1);
            assert_eq!(at.path, "b");
            assert_eq!(title, "Error while loading source file");
        }
        _ => panic!("expected a place"),
    }
    assert!(matches!(explain(&bad, &[]), Explanation::Unexplained));
    let other = template_error(minijinja::Error::new(
        minijinja::ErrorKind::SyntaxError,
        "bad",
    ));
    assert!(matches!(explain(&other, &origins), Explanation::Template { ref stack } if stack.len() == 2));
}

#[test]
fn lookup_steps() {
    let part = "a".to_string();
    let found = lookup_step(Ok(minijinja::Value::from(3)), false, &part, &origin());
    assert_eq!(found.unwrap(), minijinja::Value::from(3));
    match lookup_step(Ok(minijinja::Value::UNDEFINED), true, &part, &origin()) {
        Err(RaptorError::UndefinedVarError(n, o)) => {
            assert_eq!(n, "a");
            assert_eq!(o.path, "dir/prog.rapt");
        }
        _ => panic!("expected an undefined variable"),
    }
    let failed = lookup_step(
        Err(minijinja::Error::new(minijinja::ErrorKind::BadInclude, "gone")),
        false,
        &part,
        &origin(),
    );
    assert!(matches!(failed, Err(RaptorError::MinijinjaError { bad_include: true, .. })));
    let failed = lookup_step(
        Err(minijinja::Error::new(minijinja::ErrorKind::InvalidOperation, "no")),
        false,
        &part,
        &origin(),
    );
    assert!(matches!(failed, Err(RaptorError::MinijinjaError { bad_include: false, .. })));
}

#[test]
fn template_errors_keep_their_kind() {
    let e = template_error_with(minijinja::Error::new(minijinja::ErrorKind::SyntaxError, "x"), true);
    assert!(matches!(e, RaptorError::MinijinjaError { bad_include: true, .. }));
    let e = template_error_with(minijinja::Error::new(minijinja::ErrorKind::BadInclude, "x"), false);
    assert!(matches!(e, RaptorError::MinijinjaError { bad_include: false, .. }));
    let e = template_error(minijinja::Error::new(minijinja::ErrorKind::BadInclude, "x"));
    assert!(matches!(e, RaptorError::MinijinjaError { bad_include: true, .. }));
}
