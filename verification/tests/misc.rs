use raptor::cache::Cacher;
use raptor::dsl::{InstCopy, InstRender, Instruction, Origin, Statement};
use raptor::envmap::EnvMap;
use raptor::error::RaptorError;
use raptor::escape::{blacklisted, escape};
use raptor::image::image_name;
use raptor::jobs::{
    batch_done, BatchEvent, BatchJobController, BatchStep, JobController, JobState, JobStats,
    Received,
};
use raptor::names::NameLists;
use raptor::nspawn::SpawnBuilder;
use raptor::program::{Item, Program};
use raptor::sandbox::sandbox_setup;
use raptor::span::{context_lines, index_to_line_remainder, line_number_to_span};

fn strings(v: &[&str]) -> Vec<String> {
    v.iter().map(|s| s.to_string()).collect()
}

#[test]
fn escape_values() {
    assert_eq!(escape(""), "\"\"");
    assert_eq!(escape("plain-word_1.0"), "plain-word_1.0");
    assert_eq!(escape("a b"), "\"a b\"");
    assert_eq!(escape("say \"hi\"\n"), "\"say \\\"hi\\\"\\n\"");
    assert!(blacklisted(' '));
    assert!(!blacklisted('/'));
}

#[test]
fn spans() {
    let text = "one\ntwo\r\nthree";
    assert_eq!(line_number_to_span(text, 0), 0..0);
    assert_eq!(line_number_to_span(text, 1), 0..4);
    assert_eq!(line_number_to_span(text, 2), 4..8);
    assert_eq!(context_lines(text, 5..6, 1), 3..9);
    assert_eq!(context_lines(text, 5..6, 0), 5..6);
    assert!(index_to_line_remainder(text, 1000).is_none());
}

#[test]
fn envmap_set_then_get() {
    let env = EnvMap::new().insert("B", "1").insert("A", "2").insert("B", "3");
    assert_eq!(env.get("B").map(String::as_str), Some("3"));
    assert_eq!(env.get("A").map(String::as_str), Some("2"));
    assert_eq!(env.get("C"), None);
    assert_eq!(env.entries().len(), 2);
    assert_eq!(env.entries()[0].0, "A");
}

#[test]
fn namelists_add_then_get() {
    let mut m = NameLists::new();
    m.add("x", "1".into());
    m.ensure("y");
    m.add("x", "2".into());
    assert_eq!(m.get("x"), Some(&strings(&["1", "2"])));
    assert_eq!(m.get("y"), Some(&vec![]));
    assert_eq!(m.entries().len(), 2);
}

#[test]
fn job_controller_states() {
    let mut ctrl = BatchJobController::new();
    ctrl.add_job(1);
    ctrl.add_job(2);
    ctrl.add_job(3);
    ctrl.end_job(2);
    ctrl.fail_job(3);
    assert_eq!(ctrl.job_state(1), JobState::Running);
    assert_eq!(ctrl.job_state(4), JobState::Planned);
    assert_eq!(ctrl.job_state(2), JobState::Completed);
    assert_eq!(ctrl.job_state(3), JobState::Failed);
    let stats = raptor::jobs::job_stats(&[1, 2, 3], &ctrl);
    assert_eq!(stats.sum(), 3);
    assert!(!stats.complete());
    let done = JobStats { planned: 0, running: 0, completed: 2, failed: 1 };
    assert!(done.complete());
}

#[test]
fn docker_image_names() {
    assert_eq!(image_name("debian:trixie"), "library/debian:trixie");
    assert_eq!(image_name("user/app"), "user/app");
}

#[test]
fn cache_sources_and_hash_statements() {
    let origin = Origin::make("dir/prog.rapt", 0..0);
    let copy = Instruction::Copy(InstCopy {
        srcs: strings(&["b.txt", "a.txt"]),
        dest: "/x".into(),
        chmod: None,
        chown: None,
    });
    let render = Instruction::render("a.txt", "/y", vec![]);
    let code = vec![
        Item::statement(copy.clone(), origin.clone()),
        Item::statement(render, origin.clone()),
    ];
    let prog = Program::new(code, minijinja::Value::UNDEFINED, "dir/prog.rapt".into());
    assert_eq!(Cacher::sources(&prog).unwrap(), strings(&["dir/a.txt", "dir/b.txt"]));
    let stmt = Statement { inst: copy, origin: origin.clone() };
    assert!(Cacher::include_in_build_hash(&stmt));
    let stmt = Statement { inst: Instruction::Cmd(raptor::dsl::InstCmd { cmd: vec![] }), origin };
    assert!(!Cacher::include_in_build_hash(&stmt));
}

#[test]
fn cache_sources_in_order_once() {
    let origin = Origin::make("dir/prog.rapt", 0..0);
    let copy = Instruction::Copy(InstCopy {
        srcs: strings(&["c.txt", "b.txt", "a.txt", "b.txt"]),
        dest: "/x".into(),
        chmod: None,
        chown: None,
    });
    let render = Instruction::render("a.txt", "/y", vec![]);
    let code = vec![
        Item::statement(copy, origin.clone()),
        Item::statement(render, origin.clone()),
    ];
    let prog = Program::new(code, minijinja::Value::UNDEFINED, "dir/prog.rapt".into());
    assert_eq!(
        Cacher::sources(&prog).unwrap(),
        strings(&["dir/a.txt", "dir/b.txt", "dir/c.txt"])
    );
}

#[test]
fn cache_sources_without_directory() {
    let origin = Origin::make("/", 0..0);
    let render = Instruction::Render(InstRender {
        src: "t".into(),
        dest: "/y".into(),
        chmod: None,
        chown: None,
        args: vec![],
    });
    let prog = Program::new(
        vec![Item::statement(render, origin)],
        minijinja::Value::UNDEFINED,
        "/".into(),
    );
    assert!(matches!(Cacher::sources(&prog), Err(RaptorError::BadPathNoParent(ref p)) if p == "/"));
}

#[test]
fn sandbox_paths() {
    let setup = sandbox_setup(SpawnBuilder::new(), &strings(&["l1"]), "/root", "/tmp/t", "/tmp/c", 1);
    assert_eq!(setup.root, "/tmp/t/root");
    assert_eq!(setup.ext_socket, "/tmp/c/raptor");
    assert_eq!(setup.ext_client, "/tmp/c/falcon");
    assert_eq!(setup.mount, "/root/raptor-00000000000000000000000000000001");
    let env = setup.builder.environment();
    assert_eq!(env[0].0, "FALCON_SOCKET");
    assert_eq!(env[0].1, "/raptor-00000000000000000000000000000001/raptor");
}

#[test]
fn batch_events() {
    let mut ctrl = BatchJobController::new();
    assert!(!batch_done(&[1, 2], &ctrl));
    assert_eq!(ctrl.handle(Received::Event(BatchEvent::JobBegin(1))), BatchStep::ReadMore);
    assert_eq!(ctrl.job_state(1), JobState::Running);
    assert_eq!(ctrl.handle(Received::Event(BatchEvent::JobEnd(1, true))), BatchStep::ReadMore);
    assert_eq!(ctrl.handle(Received::Event(BatchEvent::JobEnd(2, false))), BatchStep::ReadMore);
    assert_eq!(ctrl.job_state(1), JobState::Completed);
    assert_eq!(ctrl.job_state(2), JobState::Failed);
    assert_eq!(ctrl.handle(Received::Empty), BatchStep::Pause);
    assert_eq!(ctrl.handle(Received::Disconnected), BatchStep::Finish);
    assert!(batch_done(&[1, 2], &ctrl));
    assert!(batch_done(&[], &ctrl));
}
