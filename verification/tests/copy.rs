use id3::frame::{Comment, ExtendedText};
use id3::{Frame, Tag, TagLike, Version};
use idk::cli::{CopyTagsArgs, InputArgs, RunOptions, WriteOptions};
use idk::config::{Config, CopySpec, Tags};
use idk::copy::{copy_fields, copy_result, plan_copy, skipped_label, FieldsError};
use idk::outcome::{Change, Message, Outcome, Plan, Report};
use idk::tag_field::TagField;

fn rich_tag(version: Version) -> Tag {
    let mut tag = Tag::with_version(version);
    tag.set_artist("Lead Artist");
    tag.set_album_artist("Old Album Artist");
    tag.set_title("Title");
    tag.set_album("Album");
    tag.add_frame(Comment {
        lang: "eng".into(),
        description: "".into(),
        text: "a comment".into(),
    });
    tag.add_frame(ExtendedText {
        description: "custom".into(),
        value: "value".into(),
    });
    tag
}

fn frames_except(tag: &Tag, id: &str) -> Vec<Frame> {
    tag.frames().filter(|f| f.id() != id).cloned().collect()
}

fn copy(tag: Option<Tag>, from: TagField, to: TagField) -> (Option<Tag>, Outcome) {
    let plan: Plan = plan_copy(tag, &from, &to);
    plan.into_outcome()
}

#[test]
fn copies_artist_to_album_artist_and_preserves_everything_else() {
    let before = rich_tag(Version::Id3v24);

    let (after, outcome) = copy(Some(before.clone()), TagField::Artist, TagField::AlbumArtist);

    let after = after.unwrap();
    assert_eq!(
        outcome,
        Outcome::Updated(vec![Change {
            field: TagField::AlbumArtist,
            old: Some("Old Album Artist".into()),
            new: Some("Lead Artist".into()),
        }])
    );
    assert_eq!(after.album_artist(), Some("Lead Artist"));
    assert_eq!(frames_except(&after, "TPE2"), frames_except(&before, "TPE2"));
    assert_eq!(after.version(), Version::Id3v24);
}

#[test]
fn copy_copies_album_artist_to_artist() {
    let (after, outcome) = copy(
        Some(rich_tag(Version::Id3v23)),
        TagField::AlbumArtist,
        TagField::Artist,
    );

    let after = after.unwrap();
    assert!(matches!(outcome, Outcome::Updated(_)));
    assert_eq!(after.artist(), Some("Old Album Artist"));
    assert_eq!(after.version(), Version::Id3v23);
}

#[test]
fn creates_missing_destination() {
    let mut tag = Tag::new();
    tag.set_artist("Lead Artist");

    let (after, outcome) = copy(Some(tag), TagField::Artist, TagField::AlbumArtist);

    assert!(matches!(outcome, Outcome::Updated(_)));
    assert_eq!(after.unwrap().album_artist(), Some("Lead Artist"));
}

#[test]
fn skips_without_writing_when_values_match() {
    let mut tag = Tag::new();
    tag.set_artist("Same");
    tag.set_album_artist("Same");

    let (after, outcome) = copy(Some(tag), TagField::Artist, TagField::AlbumArtist);

    assert_eq!(outcome, Outcome::Unchanged);
    assert!(after.is_none());
}

#[test]
fn reports_empty_source_without_writing() {
    let mut tag = Tag::new();
    tag.set_album_artist("Album Artist");

    let (after, outcome) = copy(Some(tag), TagField::Artist, TagField::AlbumArtist);

    assert_eq!(outcome, Outcome::Skipped);
    assert!(after.is_none());
}

#[test]
fn reports_untagged_file_as_empty_source() {
    let (after, outcome) = copy(None, TagField::Artist, TagField::AlbumArtist);

    assert_eq!(outcome, Outcome::Skipped);
    assert!(after.is_none());
}

#[test]
fn dry_run_reports_change_without_writing() {
    let (_, outcome) = copy(
        Some(rich_tag(Version::Id3v24)),
        TagField::Artist,
        TagField::AlbumArtist,
    );
    assert_eq!(
        outcome,
        Outcome::Updated(vec![Change {
            field: TagField::AlbumArtist,
            old: Some("Old Album Artist".into()),
            new: Some("Lead Artist".into()),
        }])
    );
    let mut report = Report::new(TagField::AlbumArtist, true);
    let lines = report.record("song.mp3", Ok(outcome));
    assert!(matches!(
        &lines[..],
        [Message::Output(line)] if line == "song.mp3: albumartist \"Old Album Artist\" -> \"Lead Artist\""
    ));
}

fn args(from: Option<TagField>, to: Option<TagField>, config: Option<&str>) -> CopyTagsArgs {
    CopyTagsArgs {
        from,
        to,
        config: config.map(str::to_owned),
        fail_on_empty: false,
        input: InputArgs {
            files: vec!["a.mp3".into()],
            recursive: false,
            files_from: None,
        },
        run: RunOptions {
            jobs: None,
            quiet: false,
        },
        write: WriteOptions { dry_run: false },
    }
}

#[test]
fn fields_come_from_arguments_or_config_and_must_differ() {
    let chosen = copy_fields(&args(Some(TagField::Artist), Some(TagField::AlbumArtist), None), None);
    assert!(matches!(chosen, Ok((TagField::Artist, TagField::AlbumArtist))));

    let same = copy_fields(&args(Some(TagField::Artist), Some(TagField::Artist), None), None);
    assert!(matches!(same, Err(FieldsError::Same(m)) if m == "--from and --to must name different tags"));

    let config = Config {
        tags: Tags {
            merge: None,
            copy: Some(CopySpec {
                from: TagField::Title,
                to: TagField::Album,
            }),
        },
    };
    let chosen = copy_fields(&args(None, None, Some("idk.yaml")), Some(&config));
    assert!(matches!(chosen, Ok((TagField::Title, TagField::Album))));

    let empty = Config {
        tags: Tags {
            merge: None,
            copy: None,
        },
    };
    match copy_fields(&args(None, None, Some("idk.yaml")), Some(&empty)) {
        Err(FieldsError::Config(err)) => assert_eq!(err.text(), "idk.yaml: missing `tags.copy`"),
        other => panic!("unexpected {other:?}"),
    }
}

#[test]
fn empty_sources_fail_only_when_asked() {
    assert_eq!(
        copy_result(Outcome::Skipped, &TagField::Artist, true),
        Err("no artist value".to_owned())
    );
    assert_eq!(
        copy_result(Outcome::Skipped, &TagField::Artist, false),
        Ok(Outcome::Skipped)
    );
    assert_eq!(
        copy_result(Outcome::Unchanged, &TagField::Artist, true),
        Ok(Outcome::Unchanged)
    );
    assert_eq!(skipped_label(&TagField::AlbumArtist), "no albumartist");
}
