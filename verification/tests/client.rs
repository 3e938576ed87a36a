use raptor::client::{
    create_file_request, frame, frame_length, run_request, run_result, shell_command, Account,
    Request,
};
use raptor::dsl::Chown;
use raptor::error::RaptorError;

fn strings(v: &[&str]) -> Vec<String> {
    v.iter().map(|s| s.to_string()).collect()
}

#[test]
fn framing() {
    let f = frame(b"hello");
    assert_eq!(f, vec![0, 0, 0, 5, b'h', b'e', b'l', b'l', b'o']);
    assert_eq!(frame_length([0, 0, 1, 2]), 258);
    assert_eq!(frame_length([f[0], f[1], f[2], f[3]]), 5);
    assert_eq!(frame(&[]), vec![0, 0, 0, 0]);
}

#[test]
fn requests() {
    match create_file_request("/etc/x", &Some(Chown::new("u", "g")), Some(0o644)) {
        Request::CreateFile { path, user: Some(Account::Name(u)), group: Some(Account::Name(g)), mode } => {
            assert_eq!(path, "/etc/x");
            assert_eq!(u, "u");
            assert_eq!(g, "g");
            assert_eq!(mode, Some(0o644));
        }
        other => panic!("unexpected {other:?}"),
    }
    assert!(matches!(
        create_file_request("/x", &None, None),
        Request::CreateFile { user: None, group: None, mode: None, .. }
    ));
    match run_request(&strings(&["ls", "-l"])) {
        Request::Run { arg0, argv } => {
            assert_eq!(arg0, "ls");
            assert_eq!(argv, strings(&["ls", "-l"]));
        }
        other => panic!("unexpected {other:?}"),
    }
    assert_eq!(shell_command(&strings(&["echo hi"])), strings(&["/bin/sh", "-c", "echo hi"]));
    assert!(run_result(0).is_ok());
    assert!(matches!(run_result(3), Err(RaptorError::SandboxRunError(3))));
}
