use gnil_app::launch::{launch_argument, split_words, terminal_candidates, terminal_report, SpawnOutcome};

#[test]
fn launch_argument_skips_options_and_reads_file_urls() {
    assert_eq!(launch_argument(&vec!["--flag".into(), "/tmp".into(), "/other".into()]), Some("/tmp".to_owned()));
    assert_eq!(launch_argument(&vec!["file:///tmp/a%20b".into()]), Some("/tmp/a b".to_owned()));
    assert_eq!(launch_argument(&vec!["file://not a url".into(), "/tmp".into()]), None);
    assert_eq!(launch_argument(&vec!["-v".into()]), None);
    assert_eq!(launch_argument(&Vec::new()), None);
}

#[test]
fn words_split_at_any_white_space() {
    assert_eq!(split_words("  foot\t--server  -e "), vec!["foot".to_owned(), "--server".to_owned(), "-e".to_owned()]);
    assert!(split_words(" \n ").is_empty());
}

#[test]
fn configured_terminal_comes_first() {
    let candidates = terminal_candidates(&Some("kitty --single-instance".into()));
    assert_eq!(candidates.len(), 8);
    assert_eq!(candidates[0], ("kitty".to_owned(), vec!["--single-instance".to_owned()]));
    assert_eq!(candidates[1], ("xdg-terminal-exec".to_owned(), Vec::new()));
    assert_eq!(candidates[7].0, "konsole");
    assert_eq!(terminal_candidates(&None).len(), 7);
    assert_eq!(terminal_candidates(&Some("   ".into())).len(), 7);
}

#[test]
fn terminal_report_follows_the_first_decisive_outcome() {
    assert_eq!(
        terminal_report(&[SpawnOutcome::NotFound("a".into()), SpawnOutcome::Spawned]),
        Ok("Opened terminal in this folder".to_owned())
    );
    assert_eq!(
        terminal_report(&[SpawnOutcome::Failed("denied".into()), SpawnOutcome::Spawned]),
        Err("Could not open a terminal: denied".to_owned())
    );
    assert_eq!(
        terminal_report(&[SpawnOutcome::NotFound("a".into()), SpawnOutcome::NotFound("b".into())]),
        Err("Could not open a terminal: b".to_owned())
    );
    assert_eq!(terminal_report(&[]), Err("No terminal command is configured".to_owned()));
}
