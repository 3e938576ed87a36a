use raptor::error::RaptorError;
use raptor::make::{
    add_links, cli_mounts, find_group, find_job, job_env, job_mounts, job_runner, log_level,
    newest, oldest, up_to_date, GroupTarget, Link, LogLevel, Make, MakeTarget, Raptor, RunTarget,
};
use raptor::resolver::Resolver;

fn strings(v: &[&str]) -> Vec<String> {
    v.iter().map(|s| s.to_string()).collect()
}

fn job() -> RunTarget {
    RunTarget {
        target: "prog".to_string(),
        cache: strings(&["/c"]),
        input: vec![],
        output: Some("out.iso".into()),
        entrypoint: vec![],
        state_dir: None,
        args: strings(&["go"]),
        env: vec![("K".into(), "V".into()), ("A".into(), "b=c".into())],
    }
}

fn make() -> Make {
    Make {
        raptor: Raptor {
            link: vec![
                ("lib".into(), Link::parse("libdir")),
                ("lib".into(), Link::parse("otherdir")),
            ],
        },
        run: vec![("build".into(), job())],
        group: vec![("all".into(), GroupTarget { run: strings(&["build"]) })],
    }
}

#[test]
fn make_target_parse() {
    assert_eq!("%all".parse::<MakeTarget>().unwrap(), MakeTarget::Group("all".into()));
    assert_eq!("job".parse::<MakeTarget>().unwrap(), MakeTarget::Job("job".into()));
    assert_eq!(MakeTarget::parse("%"), MakeTarget::Group(String::new()));
    assert_eq!(MakeTarget::parse(""), MakeTarget::Job(String::new()));
}

#[test]
fn link_parse() {
    let link: Link = "some/path".parse().unwrap();
    assert_eq!(link.source, "some/path");
}

#[test]
fn job_env_settings() {
    assert_eq!(job_env(&job().env), strings(&["K=V", "A=b=c"]));
}

#[test]
fn job_mounts_lists() {
    let m = job_mounts(&job());
    assert_eq!(m.get("cache"), Some(&strings(&["/c"])));
    assert_eq!(m.get("input"), Some(&vec![]));
    assert_eq!(m.get("output"), Some(&strings(&["out.iso"])));
    assert_eq!(m.get("other"), None);
}

#[test]
fn job_runner_settings() {
    let runner = job_runner(&job());
    assert_eq!(runner.work_dir("/tmp/x"), "/tmp/x/work");
}

#[test]
fn cli_mount_options() {
    let m = cli_mounts(
        &strings(&["a", "1", "b", "2", "a", "3", "dangling"]),
        &strings(&["/cache"]),
        &[],
        &Some("o".into()),
    );
    assert_eq!(m.get("a"), Some(&strings(&["1", "3"])));
    assert_eq!(m.get("b"), Some(&strings(&["2"])));
    assert_eq!(m.get("dangling"), None);
    assert_eq!(m.get("cache"), Some(&strings(&["/cache"])));
    assert_eq!(m.get("input"), None);
    assert_eq!(m.get("output"), Some(&strings(&["o"])));
}

#[test]
fn links_are_added() {
    let mut resolver = Resolver::new("base".into());
    add_links(&make(), &mut resolver);
    assert_eq!(resolver.get_package("lib").map(String::as_str), Some("otherdir"));
}

#[test]
fn lookup_jobs_and_groups() {
    let mk = make();
    assert_eq!(find_job(&mk, "build").unwrap().args, strings(&["go"]));
    assert!(matches!(find_job(&mk, "nope"), Err(RaptorError::UnknownJob(ref n)) if n == "nope"));
    assert_eq!(find_group(&mk, "all").unwrap().run, strings(&["build"]));
    assert!(matches!(find_group(&mk, "x"), Err(RaptorError::UnknownJob(ref n)) if n == "x"));
}

#[test]
fn times() {
    assert_eq!(newest(&[]), 0);
    assert_eq!(newest(&[5, 9, 2]), 9);
    assert_eq!(oldest(&[]), 0);
    assert_eq!(oldest(&[5, 9, 2]), 2);
    assert!(up_to_date(&[3, 4], &[4, 7]));
    assert!(!up_to_date(&[3, 8], &[4, 7]));
    assert!(!up_to_date(&[3], &[]));
    assert!(up_to_date(&[], &[]));
}

#[test]
fn log_levels() {
    assert_eq!(log_level(0, 0), LogLevel::Info);
    assert_eq!(log_level(1, 0), LogLevel::Debug);
    assert_eq!(log_level(5, 0), LogLevel::Trace);
    assert_eq!(log_level(0, 1), LogLevel::Warn);
    assert_eq!(log_level(0, 2), LogLevel::Error);
    assert_eq!(log_level(1, 4), LogLevel::Off);
    assert_eq!(log_level(255, 255), LogLevel::Info);
}
