use std::sync::Arc;

use raptor::dsl::{FromSource, InstFrom, Instruction, Origin};
use raptor::planner::{below, Below, BuildTarget};
use raptor::program::{Item, Program};
use raptor::stats::BuildTargetStats;

fn program(path: &str, from: Option<FromSource>) -> BuildTarget {
    let code = match from {
        Some(f) => vec![Item::statement(Instruction::From(InstFrom { from: f }), Origin::make(path, 0..0))],
        None => vec![],
    };
    BuildTarget::Program(Arc::new(Program::new(code, minijinja::Value::UNDEFINED, path.into())))
}

#[test]
fn stats_link_layers() {
    let mut stats = BuildTargetStats::new();
    let stack = vec![
        BuildTarget::DockerSource("library/debian:trixie".into()),
        program("dir/base.rapt", Some(FromSource::Docker("debian:trixie".into()))),
        program("dir/app.rapt", Some(FromSource::Raptor("base".into()))),
    ];
    assert!(stats.merge_named(stack));
    assert!(stats.roots.get("docker://library/debian:trixie").is_some());
    assert_eq!(stats.map.get("base").map(String::as_str), Some("docker://library/debian:trixie"));
    assert_eq!(stats.map.get("app").map(String::as_str), Some("base"));
    assert_eq!(stats.rmap.get("base"), Some(&vec!["app".to_string()]));
    assert!(stats.targets.get("app").is_some());
    assert_eq!(stats.targets.entries().len(), 3);
}

#[test]
fn stats_roots_and_repeats() {
    let mut stats = BuildTargetStats::new();
    assert!(stats.merge_named(vec![program("solo.rapt", None)]));
    assert!(stats.merge_named(vec![
        program("a.rapt", Some(FromSource::Raptor("solo".into()))),
        program("a.rapt", Some(FromSource::Raptor("solo".into()))),
    ]));
    assert!(stats.roots.get("solo").is_some());
    assert_eq!(stats.rmap.get("solo"), Some(&vec!["a".to_string()]));
    assert!(!stats.merge_named(vec![program("/", None)]));
}

#[test]
fn below_a_program() {

    let docker = Program::new(
        vec![Item::statement(
            Instruction::From(InstFrom { from: FromSource::Docker("debian".into()) }),
            Origin::make("x.rapt", 0..0),
        )],
        minijinja::Value::UNDEFINED,
        "x.rapt".into(),
    );
    assert!(matches!(below(&docker), Below::Image(ref n) if n == "library/debian"));
    let raptor = Program::new(
        vec![Item::statement(
            Instruction::From(InstFrom { from: FromSource::Raptor("base".into()) }),
            Origin::make("x.rapt", 0..0),
        )],
        minijinja::Value::UNDEFINED,
        "x.rapt".into(),
    );
    assert!(matches!(below(&raptor), Below::Program(ref n, _) if n == "base"));
    let empty = Program::new(vec![], minijinja::Value::UNDEFINED, "x.rapt".into());
    assert!(matches!(below(&empty), Below::Nothing));
}
