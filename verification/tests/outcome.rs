use idk::outcome::{Change, Message, Outcome, Report};
use idk::tag_field::TagField;

#[test]
fn summarizes_counts_with_optional_skip_label() {
    let mut report = Report::new(TagField::Genre, false);
    report.record("a", Ok(Outcome::Unchanged));
    report.record("b", Ok(Outcome::Skipped));
    let lines = report.record("c", Err("boom".into()));

    assert_eq!(
        report.summary(Some("no artist")),
        "0 updated, 1 unchanged, 1 skipped (no artist), 1 failed"
    );
    assert_eq!(report.summary(None), "0 updated, 1 unchanged, 1 failed");
    assert!(report.any_failed());
    assert!(matches!(&lines[..], [Message::Error(line)] if line == "error: c: boom"));
}

#[test]
fn dry_run_summary_says_would_be_updated() {
    let report = Report::new(TagField::Genre, true);
    assert_eq!(
        report.summary(None),
        "0 would be updated, 0 unchanged, 0 failed"
    );
}

#[test]
fn dry_run_prints_one_line_per_change() {
    let mut report = Report::new(TagField::Genre, true);
    let lines = report.record(
        "a.mp3",
        Ok(Outcome::Updated(vec![
            Change {
                field: TagField::Genre,
                old: Some("Pop".into()),
                new: Some("Rock".into()),
            },
            Change {
                field: TagField::Album,
                old: None,
                new: Some("Album".into()),
            },
            Change {
                field: TagField::Genre,
                old: Some("Rock".into()),
                new: None,
            },
        ])),
    );
    let printed: Vec<&str> = lines
        .iter()
        .map(|line| match line {
            Message::Output(text) => text.as_str(),
            Message::Error(text) => panic!("unexpected error line {text}"),
        })
        .collect();
    assert_eq!(
        printed,
        [
            "a.mp3: genre \"Pop\" -> \"Rock\"",
            "a.mp3: album (none) -> \"Album\"",
            "a.mp3: genre \"Rock\" -> (none)",
        ]
    );
    assert_eq!(report.summary(None), "1 would be updated, 0 unchanged, 0 failed");
    assert!(!report.any_failed());
}

#[test]
fn real_runs_print_nothing_per_update() {
    let mut report = Report::new(TagField::Genre, false);
    let lines = report.record(
        "a.mp3",
        Ok(Outcome::Updated(vec![Change {
            field: TagField::Genre,
            old: None,
            new: Some("Rock".into()),
        }])),
    );
    assert!(lines.is_empty());
    assert!(report.can_record());
    assert_eq!(report.summary(Some("none")), "1 updated, 0 unchanged, 0 skipped (none), 0 failed");
}
