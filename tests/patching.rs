use hexpatch::backup::backup_file_name;
use hexpatch::engine::{
    apply, patch_buffer, plan_patch, prepare_patterns, scan, Patch, PatchError, PatternRole,
};
use hexpatch::pattern::{hex_digit, is_whitespace, parse_pattern, MalformedToken, MatchToken};
use hexpatch::session::{Action, Event, Outcome, Session};

use MatchToken::{Literal, Wildcard};

#[test]
fn parse_literals_and_wildcard() {
    assert_eq!(parse_pattern("20 ??"), Ok(vec![Literal(0x20), Wildcard]));
}

#[test]
fn parse_is_case_insensitive_and_ignores_spacing() {
    assert_eq!(
        parse_pattern("  aB\t\n 0f   FF\u{3000}c3 "),
        Ok(vec![Literal(0xab), Literal(0x0f), Literal(0xff), Literal(0xc3)])
    );
}

#[test]
fn parse_empty_and_blank_give_no_tokens() {
    assert_eq!(parse_pattern(""), Ok(vec![]));
    assert_eq!(parse_pattern("   \t "), Ok(vec![]));
}

#[test]
fn parse_reports_malformed_token_and_position() {
    assert_eq!(
        parse_pattern("ZZ"),
        Err(MalformedToken { index: 0, token: "ZZ".to_string() })
    );
    assert_eq!(
        parse_pattern("00 11 1G 22"),
        Err(MalformedToken { index: 2, token: "1G".to_string() })
    );
}

#[test]
fn parse_refuses_other_token_shapes() {
    for bad in ["F", "+F", "123", "?", "???", "?0", "0x"] {
        match parse_pattern(bad) {
            Err(e) => {
                assert_eq!(e.index, 0);
                assert_eq!(e.token, bad);
            }
            Ok(v) => panic!("{bad:?} parsed as {v:?}"),
        }
    }
}

#[test]
fn hex_digits_and_whitespace() {
    assert_eq!(hex_digit('0'), Some(0));
    assert_eq!(hex_digit('9'), Some(9));
    assert_eq!(hex_digit('a'), Some(10));
    assert_eq!(hex_digit('F'), Some(15));
    assert_eq!(hex_digit('G'), None);
    assert!(is_whitespace(' '));
    assert!(is_whitespace('\u{a0}'));
    assert!(!is_whitespace('x'));
}

#[test]
fn wildcards_match_at_start() {
    let buf = [7u8, 8, 9, 10];
    assert_eq!(scan(&buf, &[Wildcard, Wildcard, Wildcard]), Some(0));
    assert_eq!(scan(&buf, &[Wildcard; 4]), Some(0));
    assert_eq!(scan(&buf, &[Wildcard; 5]), None);
}

#[test]
fn single_occurrence_is_found() {
    let buf = [1u8, 2, 3, 4, 5, 6];
    assert_eq!(scan(&buf, &[Literal(4), Literal(5)]), Some(3));
    assert_eq!(scan(&buf, &[Literal(1)]), Some(0));
    assert_eq!(scan(&buf, &[Literal(6)]), Some(5));
}

#[test]
fn earliest_of_two_occurrences_is_found() {
    let buf = [0xaau8, 0xbb, 0x01, 0xaa, 0xbb];
    assert_eq!(scan(&buf, &[Literal(0xaa), Literal(0xbb)]), Some(0));
    assert_eq!(scan(&buf, &[Wildcard, Literal(0xbb)]), Some(0));
}

#[test]
fn literal_zero_is_not_a_wildcard() {
    let buf = [5u8, 0, 6];
    assert_eq!(scan(&buf, &[Literal(0)]), Some(1));
    assert_eq!(scan(&[5u8, 6], &[Literal(0)]), None);
}

#[test]
fn pattern_longer_than_buffer_matches_nowhere() {
    assert_eq!(scan(&[1u8, 2], &[Literal(1), Literal(2), Literal(3)]), None);
    assert_eq!(scan(&[], &[Wildcard]), None);
}

#[test]
fn apply_overwrites_span_and_keeps_bytes_under_wildcards() {
    let buf = [1u8, 2, 3, 4];
    assert_eq!(apply(&buf, 1, &[Literal(9), Wildcard]), Ok(vec![1, 9, 3, 4]));
    assert_eq!(apply(&buf, 2, &[Literal(7), Literal(8)]), Ok(vec![1, 2, 7, 8]));
}

#[test]
fn apply_past_the_end_is_refused() {
    let buf = [1u8, 2, 3];
    assert_eq!(
        apply(&buf, 2, &[Literal(0), Literal(0)]),
        Err(PatchError::ReplacementOutOfBounds { offset: 2, len: 2, buffer_len: 3 })
    );
    assert_eq!(
        apply(&buf, usize::MAX, &[Literal(0)]),
        Err(PatchError::ReplacementOutOfBounds { offset: usize::MAX, len: 1, buffer_len: 3 })
    );
}

#[test]
fn rescan_finds_replacement_at_same_offset() {
    let buf = [0x10u8, 0x20, 0x30, 0x40];
    let rep = [Literal(0xff), Literal(0xee)];
    let patched = apply(&buf, 1, &rep).unwrap();
    assert_eq!(scan(&patched, &rep), Some(1));
}

#[test]
fn scenario_wildcard_search_and_literal_replacement() {
    let buf = [0x10u8, 0x20, 0x30, 0x40];
    assert_eq!(
        patch_buffer(&buf, "20 ??", "FF EE"),
        Ok(Some(Patch { offset: 1, bytes: vec![0x10, 0xff, 0xee, 0x40] }))
    );
}

#[test]
fn plan_refuses_empty_and_unequal_patterns() {
    let buf = [1u8, 2, 3];
    assert_eq!(
        plan_patch(&buf, &[], &[Literal(1)]),
        Err(PatchError::EmptyPattern { role: PatternRole::Search })
    );
    assert_eq!(
        plan_patch(&buf, &[Literal(1)], &[]),
        Err(PatchError::EmptyPattern { role: PatternRole::Replace })
    );
    assert_eq!(
        plan_patch(&buf, &[Literal(1)], &[Literal(1), Literal(2)]),
        Err(PatchError::LengthMismatch { search_len: 1, replace_len: 2 })
    );
    assert_eq!(plan_patch(&buf, &[Literal(9)], &[Literal(1)]), Ok(None));
}

#[test]
fn prepare_reports_errors_in_order() {
    assert_eq!(
        prepare_patterns("ZZ", "QQ"),
        Err(PatchError::MalformedPattern {
            role: PatternRole::Search,
            error: MalformedToken { index: 0, token: "ZZ".to_string() },
        })
    );
    assert_eq!(
        prepare_patterns("00", "ZZ"),
        Err(PatchError::MalformedPattern {
            role: PatternRole::Replace,
            error: MalformedToken { index: 0, token: "ZZ".to_string() },
        })
    );
    assert_eq!(
        prepare_patterns(" ", "00"),
        Err(PatchError::EmptyPattern { role: PatternRole::Search })
    );
    assert_eq!(
        prepare_patterns("00", ""),
        Err(PatchError::EmptyPattern { role: PatternRole::Replace })
    );
    assert_eq!(
        prepare_patterns("00 11", "22"),
        Err(PatchError::LengthMismatch { search_len: 2, replace_len: 1 })
    );
    assert_eq!(
        prepare_patterns("00 ??", "22 33"),
        Ok((vec![Literal(0), Wildcard], vec![Literal(0x22), Literal(0x33)]))
    );
}

#[test]
fn backup_names() {
    assert_eq!(backup_file_name("data.bin"), "data_original.bin");
    assert_eq!(backup_file_name("data"), "data_original");
    assert_eq!(backup_file_name("a.tar.gz"), "a.tar_original.gz");
    assert_eq!(backup_file_name(".bashrc"), ".bashrc_original");
    assert_eq!(backup_file_name("foo."), "foo_original.");
    assert_eq!(backup_file_name(""), "_original");
}

/// The two files a session touches, held in memory: (input, backup).
struct Files {
    input: Option<Vec<u8>>,
    backup: Option<Vec<u8>>,
}

/// Runs a session to its end, carrying out each action on `files`.
fn run(files: &mut Files, search: &str, replace: &str) -> (Outcome, Vec<&'static str>) {
    let (mut session, mut action) = Session::start(search, replace);
    let mut done = Vec::new();
    loop {
        let ev = match action {
            Action::ReadInput => {
                done.push("read");
                match &files.input {
                    Some(d) => Event::Read(d.clone()),
                    None => Event::ReadFailed,
                }
            }
            Action::ProbeBackup => {
                done.push("probe");
                if files.backup.is_some() {
                    Event::BackupTaken
                } else {
                    Event::BackupFree
                }
            }
            Action::RenameInputToBackup => {
                done.push("rename");
                files.backup = files.input.take();
                Event::Renamed
            }
            Action::WriteInput(bytes) => {
                done.push("write");
                files.input = Some(bytes);
                Event::Written
            }
            Action::Finish(outcome) => return (outcome, done),
        };
        let (s, a) = session.step(ev);
        session = s;
        action = a;
    }
}

#[test]
fn patch_then_restore_gives_original() {
    let original = vec![0x10u8, 0x20, 0x30, 0x40, 0x20];
    let mut files = Files { input: Some(original.clone()), backup: None };
    let (outcome, done) = run(&mut files, "20 ??", "FF EE");
    assert_eq!(outcome, Outcome::Patched { offset: 1 });
    assert_eq!(done, vec!["read", "probe", "rename", "write"]);
    assert_eq!(files.input, Some(vec![0x10, 0xff, 0xee, 0x40, 0x20]));
    assert_eq!(files.backup, Some(original.clone()));
    files.input = files.backup.take();
    assert_eq!(files.input, Some(original));
}

#[test]
fn no_match_touches_nothing() {
    let original = vec![1u8, 2];
    let mut files = Files { input: Some(original.clone()), backup: None };
    let (outcome, done) = run(&mut files, "01 02 03", "04 05 06");
    assert_eq!(outcome, Outcome::NoMatch);
    assert_eq!(done, vec!["read"]);
    assert_eq!(files.input, Some(original));
    assert_eq!(files.backup, None);
}

#[test]
fn malformed_pattern_is_refused_before_any_file_access() {
    for (search, replace, role) in
        [("ZZ", "00", PatternRole::Search), ("00", "ZZ", PatternRole::Replace)]
    {
        let mut files = Files { input: Some(vec![0u8]), backup: None };
        let (outcome, done) = run(&mut files, search, replace);
        assert_eq!(
            outcome,
            Outcome::Rejected(PatchError::MalformedPattern {
                role,
                error: MalformedToken { index: 0, token: "ZZ".to_string() },
            })
        );
        assert!(done.is_empty());
        assert_eq!(files.input, Some(vec![0u8]));
        assert_eq!(files.backup, None);
    }
}

#[test]
fn second_run_keeps_first_backup() {
    let original = vec![0xaau8, 0xbb];
    let mut files = Files { input: Some(original.clone()), backup: None };
    let (first, _) = run(&mut files, "??", "00");
    assert_eq!(first, Outcome::Patched { offset: 0 });
    let patched_once = files.input.clone();
    let (second, done) = run(&mut files, "??", "00");
    assert_eq!(second, Outcome::BackupExists);
    assert_eq!(done, vec!["read", "probe"]);
    assert_eq!(files.backup, Some(original));
    assert_eq!(files.input, patched_once);
}

#[test]
fn failures_are_reported_by_step() {
    let (s, _) = Session::start("00", "11");
    let (_, a) = s.step(Event::ReadFailed);
    assert!(matches!(a, Action::Finish(Outcome::ReadFailed)));

    let probe = Session::AwaitingProbe { offset: 0, bytes: vec![0x11] };
    let (rename, a) = probe.step(Event::BackupFree);
    assert!(matches!(a, Action::RenameInputToBackup));
    let (_, a) = rename.step(Event::RenameFailed);
    assert!(matches!(a, Action::Finish(Outcome::RenameFailed)));

    let write = Session::AwaitingWrite { offset: 3 };
    let (_, a) = write.step(Event::WriteFailed);
    assert!(matches!(a, Action::Finish(Outcome::WriteFailed)));
}

#[test]
fn unexpected_event_ends_session() {
    let (s, a) = Session::start("00", "11");
    assert!(matches!(a, Action::ReadInput));
    let (s, a) = s.step(Event::Written);
    assert!(matches!(s, Session::Finished));
    assert!(matches!(a, Action::Finish(Outcome::OutOfOrder)));
}
