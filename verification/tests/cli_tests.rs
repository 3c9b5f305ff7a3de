use ciri::cli::{run, Invocation};

fn cli_args(v: &[&str]) -> Vec<String> {
    v.iter().map(|s| s.to_string()).collect()
}

#[test]
fn rejects_bad_target_and_unknown_game() {
    assert_eq!(run(vec!["Cyberpunk".into(), "--target".into(), "8k".into()]).unwrap_err().1, 2);
    assert_eq!(run(vec!["Spreadsheet Deluxe".into()]).unwrap_err().1, 3);
}

#[test]
fn help_version_and_list() {
    assert!(matches!(run(Vec::new()), Ok(Invocation::Help)));
    assert!(matches!(run(cli_args(&["bg3", "-h"])), Ok(Invocation::Help)));
    assert!(matches!(run(cli_args(&["--version", "--list"])), Ok(Invocation::Version)));
    assert!(matches!(run(cli_args(&["--list", "bg3"])), Ok(Invocation::List)));
}

#[test]
fn refusal_messages() {
    let e = run(cli_args(&["Cyberpunk", "--target", "8K"])).unwrap_err();
    assert_eq!(e, ("unsupported target '8k'".to_string(), 2));
    let e = run(cli_args(&["Cyberpunk", "--target"])).unwrap_err();
    assert_eq!(e, ("--target requires 720p, 1080p, 1440p, or 4k".to_string(), 2));
    let e = run(cli_args(&["--fast", "bg3"])).unwrap_err();
    assert_eq!(e, ("unknown option '--fast'".to_string(), 2));
    let e = run(cli_args(&["--json"])).unwrap_err();
    assert_eq!(e, ("provide a game title; try --list".to_string(), 2));
    let e = run(cli_args(&["Spreadsheet", "Deluxe"])).unwrap_err();
    assert_eq!(
        e,
        ("no close match for 'Spreadsheet Deluxe' in the offline catalog; try --list".to_string(), 3)
    );
}

#[test]
fn assessment_request() {
    match run(cli_args(&["Cyberpunk", "2077", "--target", "1440P", "--explain"])) {
        Ok(Invocation::Assess { game, resolver_confidence, target, explain }) => {
            assert_eq!(game.id, "cyberpunk-2077");
            assert_eq!(resolver_confidence, 100);
            assert_eq!(target, "1440p");
            assert!(explain);
        }
        _ => panic!("expected an assessment"),
    }
    match run(cli_args(&["bg3"])) {
        Ok(Invocation::Assess { game, target, explain, .. }) => {
            assert_eq!(game.id, "baldurs-gate-3");
            assert_eq!(target, "1080p");
            assert!(!explain);
        }
        _ => panic!("expected an assessment"),
    }
}
