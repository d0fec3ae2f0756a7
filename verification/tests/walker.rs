use tag_rename::fields::FieldName;
use tag_rename::fields::MediaTags;
use tag_rename::format::parse_format;
use tag_rename::outcome::ProcessError;
use tag_rename::outcome::RenameOutcome;
use tag_rename::outcome::outcome_of_error;
use tag_rename::outcome::outcome_of_rename;
use tag_rename::outcome::should_report;
use tag_rename::walker::dir_rename_name;
use tag_rename::walker::is_media_extension;
use tag_rename::walker::parse_file;

fn tags(
    track: Option<&str>,
    title: Option<&str>,
    artist: Option<&str>,
    year: Option<&str>,
    album: Option<&str>,
) -> MediaTags {
    MediaTags {
        track: track.map(|s| s.to_string()),
        title: title.map(|s| s.to_string()),
        artist: artist.map(|s| s.to_string()),
        year: year.map(|s| s.to_string()),
        album: album.map(|s| s.to_string()),
    }
}

#[test]
fn recognized_media_extensions() {
    assert!(is_media_extension("mp3"));
    assert!(is_media_extension("flac"));
    assert!(!is_media_extension("txt"));
    assert!(!is_media_extension("ogg"));
    assert!(!is_media_extension(""));
}

#[test]
fn a_text_file_is_skipped_in_a_scan_but_reported_at_top_level() {
    let tokens = parse_format("%n - %t");
    let decision = parse_file("txt", None, &tokens);
    let error = match decision {
        Err(e) => e,
        Ok(_) => panic!("a txt file must not render"),
    };
    assert!(matches!(error, ProcessError::UnsupportedFormat));
    let outcome = outcome_of_error("notes.txt".to_string(), error);
    match &outcome {
        RenameOutcome::Skipped { reason } => assert_eq!(reason, "not a music file"),
        _ => panic!("an unsupported format must be skipped"),
    }
    assert!(!should_report(&outcome, false));
    assert!(should_report(&outcome, true));
}

#[test]
fn an_unreadable_tag_block_fails_the_file() {
    let tokens = parse_format("%n - %t");
    let decision = parse_file("mp3", None, &tokens);
    assert!(matches!(decision, Err(ProcessError::CorruptOrUnreadable)));
}

#[test]
fn a_complete_file_renders_its_new_name() {
    let tokens = parse_format("%n - %t");
    let t = tags(Some("4"), Some("Tune"), None, None, None);
    let decision = parse_file("mp3", Some(&t), &tokens);
    assert_eq!(decision.unwrap(), "04-Tune.mp3");
}

#[test]
fn one_incomplete_file_does_not_stop_the_scan() {
    let tokens = parse_format("%n - %t");
    let complete = tags(Some("1"), Some("Full"), None, None, None);
    let incomplete = tags(Some("2"), None, None, None, None);
    let entries: Vec<(&str, &MediaTags)> = vec![
        ("a.mp3", &incomplete),
        ("b.mp3", &complete),
    ];
    let mut outcomes: Vec<RenameOutcome> = Vec::new();
    for (name, t) in entries {
        let outcome = match parse_file("mp3", Some(t), &tokens) {
            Ok(new_name) => outcome_of_rename(name.to_string(), new_name, None),
            Err(e) => outcome_of_error(name.to_string(), e),
        };
        outcomes.push(outcome);
    }
    assert_eq!(outcomes.len(), 2);
    match &outcomes[0] {
        RenameOutcome::Failed { old_name, error } => {
            assert_eq!(old_name, "a.mp3");
            assert!(matches!(error, ProcessError::MissingField(FieldName::Title)));
        }
        _ => panic!("the incomplete file must fail with its missing field"),
    }
    match &outcomes[1] {
        RenameOutcome::Success { old_name, new_name } => {
            assert_eq!(old_name, "b.mp3");
            assert_eq!(new_name, "01-Full.mp3");
        }
        _ => panic!("the complete file must succeed"),
    }
}

#[test]
fn directory_rename_uses_year_and_album() {
    let t = tags(None, None, None, Some("1998"), Some("Example"));
    assert_eq!(dir_rename_name(&t).unwrap(), "1998 - Example");
}

#[test]
fn directory_rename_requires_the_year_first() {
    let t = tags(None, None, None, None, Some("Example"));
    assert!(matches!(
        dir_rename_name(&t),
        Err(ProcessError::MissingField(FieldName::Year))
    ));
    let t = tags(None, None, None, None, None);
    assert!(matches!(
        dir_rename_name(&t),
        Err(ProcessError::MissingField(FieldName::Year))
    ));
}

#[test]
fn directory_rename_requires_the_album() {
    let t = tags(None, None, None, Some("1998"), None);
    assert!(matches!(
        dir_rename_name(&t),
        Err(ProcessError::MissingField(FieldName::Album))
    ));
}

#[test]
fn a_failed_filesystem_rename_carries_its_cause() {
    let outcome = outcome_of_rename(
        "a.mp3".to_string(),
        "01-X.mp3".to_string(),
        Some("destination exists".to_string()),
    );
    match &outcome {
        RenameOutcome::Failed { old_name, error } => {
            assert_eq!(old_name, "a.mp3");
            match error {
                ProcessError::RenameIoFailure(msg) => assert_eq!(msg, "destination exists"),
                _ => panic!("the cause must be kept"),
            }
        }
        _ => panic!("an io error must fail the entry"),
    }
    assert!(should_report(&outcome, false));
}

#[test]
fn every_error_but_an_unsupported_format_is_a_failure() {
    let outcome = outcome_of_error("x".to_string(), ProcessError::PathNotFound);
    assert!(matches!(outcome, RenameOutcome::Failed { .. }));
    let outcome = outcome_of_error("x".to_string(), ProcessError::CorruptOrUnreadable);
    assert!(matches!(outcome, RenameOutcome::Failed { .. }));
    let outcome = outcome_of_error(
        "x".to_string(),
        ProcessError::MissingField(FieldName::Album),
    );
    assert!(matches!(outcome, RenameOutcome::Failed { .. }));
}

#[test]
fn successful_outcomes_are_always_reported() {
    let outcome = outcome_of_rename("a.mp3".to_string(), "01-X.mp3".to_string(), None);
    assert!(matches!(outcome, RenameOutcome::Success { .. }));
    assert!(should_report(&outcome, false));
    assert!(should_report(&outcome, true));
}
