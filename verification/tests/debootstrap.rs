use raptor::debootstrap::{parse_u64, replace_marker, split_words, Progress, ProgressAction};

#[test]
fn words_and_numbers() {
    assert_eq!(split_words("  12\t 34  SIZEDEBS "), vec!["12", "34", "SIZEDEBS"]);
    assert_eq!(split_words(""), Vec::<String>::new());
    assert_eq!(parse_u64("42"), Some(42));
    assert_eq!(parse_u64("+7"), Some(7));
    assert_eq!(parse_u64("x"), None);
    assert_eq!(parse_u64("18446744073709551615"), Some(u64::MAX));
    assert_eq!(parse_u64("18446744073709551616"), None);
    assert_eq!(replace_marker("a %s b %s", "X"), "a X b %s");
    assert_eq!(replace_marker("none", "X"), "none");
}

#[test]
fn progress_lines() {
    let mut p = Progress::new();
    assert!(matches!(p.line("no separator"), ProgressAction::Nothing));
    assert!(matches!(p.line("IA: libc"), ProgressAction::Nothing));
    assert!(matches!(p.line("IA: 2.0"), ProgressAction::Nothing));
    match p.line("IF: Retrieving %s %s") {
        ProgressAction::StepMessage(m) => assert_eq!(m, "Retrieving libc 2.0"),
        _ => panic!("expected a message"),
    }
    match p.line("IF: Done %s") {
        ProgressAction::StepMessage(m) => assert_eq!(m, "Done %s"),
        _ => panic!("expected a message"),
    }
    assert!(matches!(p.line("P: 0 10 SIZEDEBS"), ProgressAction::Nothing));
    match p.line("P: 1 10 SIZEDEBS") {
        ProgressAction::Progress { total_length, total_position, length, position } => {
            assert_eq!(total_length, Some(40));
            assert_eq!(total_position, 1);
            assert_eq!(length, 10);
            assert_eq!(position, 1);
        }
        _ => panic!("expected progress"),
    }
    match p.line("P: 3 10 UNPACKREQ") {
        ProgressAction::Progress { total_length: None, total_position, .. } => assert_eq!(total_position, 23),
        _ => panic!("expected progress"),
    }
    match p.line("P: 4 10") {
        ProgressAction::Progress { total_position, .. } => assert_eq!(total_position, 24),
        _ => panic!("expected progress"),
    }
    assert!(matches!(p.line("P: 4 10 INSTCORE"), ProgressAction::Nothing));
    assert!(matches!(p.line("P: 4"), ProgressAction::Nothing));
    assert!(matches!(p.line("I: VALIDATING"), ProgressAction::Validating { length: 10 }));
    assert!(matches!(p.line("PF: Installing"), ProgressAction::TotalMessage(ref m) if m == "Installing"));
    assert!(matches!(p.line("X: boom"), ProgressAction::Error(ref m) if m == "boom"));
}
