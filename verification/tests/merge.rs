use id3::{Frame, Tag, TagLike, Version};
use idk::cli::{InputArgs, MergeArgs, RunOptions, WriteOptions};
use idk::config::{Config, Merge, MergeSpec, Tags};
use idk::merge::{normalize, plan_merge, rule as merge_rule, Rule};
use idk::outcome::{Change, Outcome, Plan};
use idk::tag_field::TagField;

fn rule(from: &[&str], to: &str) -> Rule {
    let from: Vec<String> = from.iter().map(|v| v.to_string()).collect();
    Rule::new(&from, to)
}

fn merge(tag: Option<Tag>, field: TagField, rule: &Rule) -> (Option<Tag>, Outcome) {
    let plan: Plan = plan_merge(tag, &field, rule);
    plan.into_outcome()
}

fn v24(build: impl FnOnce(&mut Tag)) -> Tag {
    let mut tag = Tag::with_version(Version::Id3v24);
    build(&mut tag);
    tag
}

#[test]
fn matches_case_and_whitespace_insensitively() {
    let rule = rule(&["Heavy Metal", "metal"], "Rock");
    assert!(rule.matches(Some("heavy metal")));
    assert!(rule.matches(Some("  METAL ")));
    assert!(!rule.matches(Some("Metalcore")));
    assert!(!rule.matches(None));
}

#[test]
fn empty_source_matches_missing_and_blank_values() {
    let rule = rule(&[""], "Unknown");
    assert!(rule.matches(None));
    assert!(rule.matches(Some("  ")));
    assert!(!rule.matches(Some("Rock")));
}

#[test]
fn replaces_matching_genre_and_preserves_other_frames() {
    let tag = v24(|tag| {
        tag.set_genre("Heavy Metal");
        tag.set_artist("Artist");
        tag.set_text("TENC", "Encoder");
    });
    let before: Vec<Frame> = tag.frames().filter(|f| f.id() != "TCON").cloned().collect();

    let (after, outcome) = merge(Some(tag), TagField::Genre, &rule(&["heavy metal"], "Rock"));

    assert_eq!(
        outcome,
        Outcome::Updated(vec![Change {
            field: TagField::Genre,
            old: Some("Heavy Metal".into()),
            new: Some("Rock".into()),
        }])
    );
    let after = after.unwrap();
    assert_eq!(after.genre(), Some("Rock"));
    let rest: Vec<Frame> = after.frames().filter(|f| f.id() != "TCON").cloned().collect();
    assert_eq!(rest, before);
}

#[test]
fn resolves_numeric_genre_references() {
    let tag = v24(|tag| tag.set_genre("(9)"));

    let (after, outcome) = merge(Some(tag), TagField::Genre, &rule(&["Metal"], "Rock"));

    assert!(matches!(outcome, Outcome::Updated(_)));
    assert_eq!(after.unwrap().genre(), Some("Rock"));
}

#[test]
fn artists_change_only_tpe1() {
    let tag = v24(|tag| {
        tag.set_artist("beatles");
        tag.set_album_artist("beatles");
    });

    let (after, _) = merge(Some(tag), TagField::Artist, &rule(&["Beatles"], "The Beatles"));

    let tag = after.unwrap();
    assert_eq!(tag.artist(), Some("The Beatles"));
    assert_eq!(tag.album_artist(), Some("beatles"));
}

#[test]
fn leaves_non_matching_and_already_merged_files_untouched() {
    for genre in ["Jazz", "Rock"] {
        let tag = v24(|tag| tag.set_genre(genre));

        let (after, outcome) = merge(Some(tag), TagField::Genre, &rule(&["Metal", "rock"], "Rock"));

        assert_eq!(outcome, Outcome::Unchanged, "{genre}");
        assert!(after.is_none());
    }
}

#[test]
fn fills_missing_values_when_empty_source_is_listed() {
    let tagged = v24(|tag| tag.set_artist("Artist"));
    let (after, _) = merge(Some(tagged), TagField::Genre, &rule(&[""], "Unknown"));
    assert_eq!(after.unwrap().genre(), Some("Unknown"));

    let (after, _) = merge(None, TagField::Genre, &rule(&[""], "Unknown"));
    let tag = after.unwrap();
    assert_eq!(tag.genre(), Some("Unknown"));
    assert_eq!(tag.version(), Version::Id3v24);
}

#[test]
fn untagged_file_without_empty_source_is_unchanged() {
    let (after, outcome) = merge(None, TagField::Genre, &rule(&["Metal"], "Rock"));
    assert_eq!(outcome, Outcome::Unchanged);
    assert!(after.is_none());
}

#[test]
fn normalizes_by_trimming_and_lowercasing() {
    assert_eq!(normalize("  Heavy METAL\t"), "heavy metal");
    assert_eq!(normalize(""), "");
}

fn args(from: &[&str], to: Option<&str>, config: Option<&str>) -> MergeArgs {
    MergeArgs {
        from: from.iter().map(|v| v.to_string()).collect(),
        to: to.map(str::to_owned),
        config: config.map(str::to_owned),
        input: InputArgs {
            files: vec![],
            recursive: false,
            files_from: None,
        },
        run: RunOptions {
            jobs: Some(2),
            quiet: true,
        },
        write: WriteOptions { dry_run: false },
    }
}

#[test]
fn rules_come_from_arguments_or_config() {
    let from_args = merge_rule(&args(&["Metal"], Some("Rock"), None), "genres", None).unwrap();
    assert!(from_args.matches(Some("metal")));
    assert_eq!(from_args.to_value(), "Rock");

    let config = Config {
        tags: Tags {
            merge: Some(Merge {
                genres: Some(MergeSpec {
                    from: vec!["Heavy Metal".into()],
                    to: "Metal".into(),
                }),
                artists: None,
            }),
            copy: None,
        },
    };
    let from_config = merge_rule(&args(&[], None, Some("idk.yaml")), "genres", Some(&config)).unwrap();
    assert!(from_config.matches(Some("HEAVY METAL")));
    assert_eq!(from_config.to_value(), "Metal");

    let err = merge_rule(&args(&[], None, Some("idk.yaml")), "artists", Some(&config)).unwrap_err();
    assert_eq!(err.text(), "idk.yaml: missing `tags.merge.artists`");
}
