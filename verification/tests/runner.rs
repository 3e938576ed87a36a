use raptor::dsl::{InstCmd, InstCopy, InstEntrypoint, InstMount, Instruction, MountOptions, MountType, Origin};
use raptor::error::RaptorError;
use raptor::mounts::MountPrep;
use raptor::nspawn::{BindMode, BindMount, ConsoleMode, SpawnBuilder};
use raptor::program::{Item, Program};
use raptor::runner::{root_dir, split_env, AddEnvironment, Runner};

fn strings(v: &[&str]) -> Vec<String> {
    v.iter().map(|s| s.to_string()).collect()
}

fn program(items: Vec<Instruction>) -> Program {
    let code = items
        .into_iter()
        .map(|i| Item::statement(i, Origin::make("dir/prog.rapt", 0..0)))
        .collect();
    Program::new(code, minijinja::Value::UNDEFINED, "dir/prog.rapt".to_string())
}

#[test]
fn env_split_at_first_equals() {
    assert_eq!(split_env("A=b=c"), ("A", "b=c"));
    assert_eq!(split_env("NOVALUE"), ("NOVALUE", ""));
    assert_eq!(split_env("=x"), ("", "x"));
}

#[test]
fn add_environment_sets_each() {
    let sb = SpawnBuilder::new().add_environment(&strings(&["B=2", "A=1", "C"]));
    let env = sb.environment();
    assert_eq!(
        env,
        &vec![
            ("A".to_string(), "1".to_string()),
            ("B".to_string(), "2".to_string()),
            ("C".to_string(), "".to_string()),
        ]
    );
}

#[test]
fn command_defaults_to_shell() {
    let prog = program(vec![Instruction::Cmd(InstCmd { cmd: strings(&["echo hi"]) })]);
    let runner = Runner::new();
    assert_eq!(runner.command(&prog).unwrap(), strings(&["/bin/sh", "-c", "echo hi"]));
}

#[test]
fn command_prefers_given_entrypoint_and_args() {
    let prog = program(vec![
        Instruction::Entrypoint(InstEntrypoint { entrypoint: strings(&["/init"]) }),
        Instruction::Cmd(InstCmd { cmd: strings(&["x"]) }),
        Instruction::Cmd(InstCmd { cmd: strings(&["y"]) }),
    ]);
    let mut runner = Runner::new();
    assert_eq!(runner.command(&prog).unwrap(), strings(&["/init", "x"]));
    runner.with_args(&strings(&["a", "b"]));
    assert_eq!(runner.command(&prog).unwrap(), strings(&["/init", "a", "b"]));
    runner.with_entrypoint(&strings(&["/bin/bash"]));
    assert_eq!(runner.command(&prog).unwrap(), strings(&["/bin/bash", "a", "b"]));
}

#[test]
fn command_missing() {
    let prog = program(vec![]);
    let runner = Runner::new();
    assert!(matches!(runner.command(&prog), Err(RaptorError::NoCommandSpecified)));
}

#[test]
fn work_and_root_dirs() {
    let mut runner = Runner::new();
    assert_eq!(runner.work_dir("/tmp/t"), "/tmp/t/work");
    runner.with_state_dir("/state".to_string());
    assert_eq!(runner.work_dir("/tmp/t"), "/state");
    assert_eq!(root_dir("/tmp/t"), "/tmp/t/root");
}

#[test]
fn spawn_plan_builds_container() {
    let prog = program(vec![
        Instruction::Cmd(InstCmd { cmd: strings(&["make"]) }),
        Instruction::Mount(InstMount {
            opts: MountOptions { mtype: MountType::Simple, readonly: false, optional: false },
            name: "cache".into(),
            dest: "/cache".into(),
        }),
    ]);
    let mut runner = Runner::new();
    runner.add_mount("cache", "/host/cache".to_string());
    runner.with_env(&strings(&["X=1"]));
    let plan = runner
        .spawn_plan(&prog, &strings(&["layers/a"]), "/tmp/t", ConsoleMode::Pipe, 0, &[])
        .unwrap();
    let args = plan.builder.build_with_uuid(0);
    let expected = strings(&[
        "systemd-nspawn",
        "-q",
        "--suppress-sync=true",
        "--console",
        "pipe",
        "--settings",
        "false",
        "--link-journal",
        "no",
        "--resolv-conf",
        "off",
        "--timezone",
        "off",
        "--overlay",
        "layers/a:/tmp/t/work:/",
        "--bind",
        "/dev/kvm",
        "--bind",
        "/host/cache:/cache",
        "--machine",
        "raptor-00000000-0000-0000-0000-000000000000",
        "--uuid",
        "00000000-0000-0000-0000-000000000000",
        "-D",
        "/tmp/t/root",
        "--setenv",
        "X=1",
        "--background=",
        "--no-pager",
        "/bin/sh",
        "-c",
        "make",
    ]);
    assert_eq!(args, expected);
    assert!(matches!(&plan.prep[0], MountPrep::CreateDir(d) if d == "/host/cache"));
}

#[test]
fn spawn_plan_without_command() {
    let prog = program(vec![Instruction::Copy(InstCopy {
        srcs: strings(&["a"]),
        dest: "b".into(),
        chmod: None,
        chown: None,
    })]);
    let runner = Runner::new();
    let res = runner.spawn_plan(&prog, &[], "/tmp/t", ConsoleMode::Pipe, 0, &[]);
    assert!(matches!(res, Err(RaptorError::NoCommandSpecified)));
}

#[test]
fn fresh_uuid_is_version_four() {
    let args = SpawnBuilder::new().build();
    let at = args.iter().position(|a| a == "--uuid").expect("a --uuid argument");
    let uuid: Vec<char> = args[at + 1].chars().collect();
    assert_eq!(uuid.len(), 36);
    assert_eq!(uuid[14], '4');
    assert!(matches!(uuid[19], '8' | '9' | 'a' | 'b'));
    assert_eq!(args[at - 1], format!("raptor-{}", args[at + 1]));
}

#[test]
fn bind_mount_text() {
    assert_eq!(BindMount::new("/a", "/b").to_string(), "/a:/b");
    assert_eq!(BindMount::new("/a", "/a").to_string(), "/a");
    assert_eq!(BindMount::new("/a", "/a//").to_string(), "/a");
    assert_eq!(BindMount::new("/a", "/a").with_mode(BindMode::Idmap).to_string(), "/a:/a:idmap");
}
