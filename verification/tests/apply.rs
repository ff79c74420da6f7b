use std::collections::HashSet;

use id3::{Tag, TagLike, Version};
use idk::apply::{parse, plan_apply, reject_duplicate_paths, Edit, Edits};
use idk::outcome::{Outcome, Plan};
use idk::tag_field::TagField;

fn keys(edits: &Edits) -> HashSet<&str> {
    edits.skipped_keys.iter().map(String::as_str).collect()
}

fn apply(tag: Option<Tag>, edits: &[Edit]) -> (Option<Tag>, Outcome) {
    let plan: Plan = plan_apply(tag, &edits.to_vec());
    plan.into_outcome()
}

#[test]
fn parses_edits_and_skips_non_field_keys() {
    let edits = parse(
        r#"[{"path": "a.mp3", "version": "2.4",
             "tags": {"genre": "Rock", "comment": null, "TENC": "x", "date#2": "1999",
                      "txxx:Source": "CD"}},
            {"path": "b.mp3", "tags": {"TENC": "y"}}]"#,
    )
    .unwrap();

    assert_eq!(
        edits.entries,
        [
            (
                "a.mp3".to_owned(),
                vec![
                    (TagField::Genre, Some("Rock".into())),
                    (TagField::Comment, None),
                    (TagField::Txxx("Source".into()), Some("CD".into())),
                ]
            ),
            ("b.mp3".to_owned(), vec![]),
        ]
    );
    assert_eq!(keys(&edits), HashSet::from(["TENC", "date#2"]));
    assert_eq!(edits.skipped_keys, ["TENC", "date#2"]);
}

#[test]
fn reports_every_structural_problem() {
    let errors = parse(
        r#"[{"tags": {}}, {"path": 3, "tags": []}, "x",
            {"path": "a", "tags": {"genre": 1, "artist": "A", "TPE1": "B"}}]"#,
    )
    .unwrap_err();

    assert_eq!(
        errors,
        [
            "[0]: missing \"path\"",
            "[1].path: expected a non-empty string",
            "[1].tags: expected an object",
            "[2]: expected an object",
            "[3].tags.genre: expected a string or null",
            "[3].tags.TPE1: artist is given more than once",
        ]
    );
    assert!(parse("{}").unwrap_err()[0].starts_with("expected a JSON array"));
    assert!(parse("[").unwrap_err()[0].starts_with("invalid JSON"));
}

#[test]
fn rejects_the_same_file_twice_under_any_spelling() {
    let entries = vec![
        ("/music/a.mp3".to_owned(), "/music/a.mp3".to_owned()),
        ("/music/./a.mp3".to_owned(), "/music/a.mp3".to_owned()),
    ];

    assert_eq!(
        reject_duplicate_paths(&entries).unwrap_err(),
        ["[1].path: /music/./a.mp3 is already edited by [0]"]
    );
}

#[test]
fn repeated_paths_name_the_latest_earlier_entry() {
    let entries = vec![
        ("a".to_owned(), "k".to_owned()),
        ("b".to_owned(), "other".to_owned()),
        ("./a".to_owned(), "k".to_owned()),
        ("././a".to_owned(), "k".to_owned()),
    ];
    assert_eq!(
        reject_duplicate_paths(&entries).unwrap_err(),
        [
            "[2].path: ./a is already edited by [0]",
            "[3].path: ././a is already edited by [2]",
        ]
    );
    assert_eq!(reject_duplicate_paths(&entries[..2].to_vec()), Ok(()));
}

#[test]
fn writes_changed_values_and_clears_nulls() {
    let mut tag = Tag::with_version(Version::Id3v24);
    tag.set_genre("Pop");
    tag.set_artist("Artist");
    tag.set_text("TENC", "Encoder");

    let (written, outcome) = apply(
        Some(tag),
        &[
            (TagField::Genre, Some("Rock".into())),
            (TagField::Artist, None),
            (TagField::Album, None),
        ],
    );

    let Outcome::Updated(changes) = outcome else {
        panic!("expected update");
    };
    assert_eq!(changes.len(), 2);
    let tag = written.unwrap();
    assert_eq!(tag.genre(), Some("Rock"));
    assert_eq!(tag.artist(), None);
    assert!(tag.get("TENC").is_some());
}

#[test]
fn shown_multi_values_are_not_rewritten() {
    let mut tag = Tag::with_version(Version::Id3v24);
    tag.set_genre("Rock\0Pop");

    let (written, outcome) = apply(Some(tag), &[(TagField::Genre, Some("Rock; Pop".into()))]);

    assert_eq!(outcome, Outcome::Unchanged);
    assert!(written.is_none());
}

#[test]
fn untagged_files_get_a_tag_only_when_setting_values() {
    let (written, outcome) = apply(None, &[(TagField::Genre, None)]);
    assert_eq!(outcome, Outcome::Unchanged);
    assert!(written.is_none());

    let (written, outcome) = apply(None, &[(TagField::Genre, Some("Rock".into()))]);
    assert!(matches!(outcome, Outcome::Updated(_)));
    let tag = written.unwrap();
    assert_eq!(tag.genre(), Some("Rock"));
    assert_eq!(tag.version(), Version::Id3v24);
}

#[test]
fn skipped_keys_are_sorted_and_listed_once() {
    let edits = parse(
        r#"[{"path": "a", "tags": {"TENC": "1", "APIC": "2"}},
            {"path": "b", "tags": {"TENC": "3", "COMM:note": "4"}}]"#,
    )
    .unwrap();
    assert_eq!(edits.skipped_keys, ["APIC", "COMM:note", "TENC"]);
}

#[test]
fn empty_paths_and_non_array_documents_are_rejected() {
    assert_eq!(
        parse(r#"[{"path": "", "tags": {}}]"#).unwrap_err(),
        ["[0].path: expected a non-empty string"]
    );
    assert_eq!(
        parse(r#"[{"path": "a"}]"#).unwrap_err(),
        ["[0]: missing \"tags\""]
    );
    assert_eq!(
        parse("3").unwrap_err(),
        ["expected a JSON array of {\"path\", \"tags\"} objects, as printed by `idk show --json`"]
    );
    assert!(parse("[]").unwrap().entries.is_empty());
}

#[test]
fn unedited_show_output_is_a_no_op() {
    let mut tag = Tag::with_version(Version::Id3v24);
    tag.set_genre("Rock\0Pop");
    tag.set_artist("Artist");
    tag.set_text("TDRC", "2021");
    tag.set_text("TENC", "Encoder");
    let shown = idk::show::read_tags(Some(&tag), &vec![], false);
    let edits: Vec<Edit> = shown
        .entries
        .iter()
        .filter_map(|(key, value)| key.parse::<TagField>().ok().map(|f| (f, Some(value.clone()))))
        .collect();
    assert_eq!(edits.len(), 3);

    let (written, outcome) = apply(Some(tag), &edits);

    assert_eq!(outcome, Outcome::Unchanged);
    assert!(written.is_none());
}
