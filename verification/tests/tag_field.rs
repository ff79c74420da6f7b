use id3::frame::{Comment, ExtendedText};
use id3::{Tag, TagLike, Version};
use idk::field_help::{case_insensitive, named_table, parse_assignment, tag_name_pattern, TagFieldParser};
use idk::id3_tag::{FrameBody, FrameData};
use idk::tag_field::{year_of, TagField};

fn parse(s: &str) -> Result<TagField, String> {
    s.parse()
}

#[test]
fn parses_names_aliases_and_frame_ids_case_insensitively() {
    assert_eq!(parse("artist"), Ok(TagField::Artist));
    assert_eq!(parse("TPE1"), Ok(TagField::Artist));
    assert_eq!(parse("Album-Artist"), Ok(TagField::AlbumArtist));
    assert_eq!(parse("track"), Ok(TagField::TrackNumber));
    assert_eq!(parse("TYER"), Ok(TagField::Date));
    assert_eq!(parse("comm"), Ok(TagField::Comment));
}

#[test]
fn parses_txxx_preserving_description_case() {
    assert_eq!(
        parse("TXXX:MusicBrainz Album Id"),
        Ok(TagField::Txxx("MusicBrainz Album Id".into()))
    );
    assert!(parse("txxx:").is_err());
}

#[test]
fn rejects_unknown_names() {
    assert!(parse("artists")
        .unwrap_err()
        .starts_with("unknown tag 'artists'; expected one of: artist,"));
    assert!(parse("").is_err());
}

#[test]
fn displays_canonical_names() {
    assert_eq!(TagField::AlbumArtist.name(), "albumartist");
    assert_eq!(TagField::Txxx("custom".into()).name(), "txxx:custom");
    for named in named_table() {
        assert_eq!(parse(&named.field.name()), Ok(named.field.clone()));
    }
}

#[test]
fn round_trips_every_field() {
    let fields = named_table()
        .into_iter()
        .map(|named| named.field)
        .chain([TagField::Txxx("custom".into())]);
    for field in fields {
        let mut tag = Tag::with_version(Version::Id3v24);
        field.write(&mut tag, "2021-06-01 value");
        assert_eq!(
            field.read(&tag).as_deref(),
            Some("2021-06-01 value"),
            "{}",
            field.name()
        );
    }
}

#[test]
fn maps_frames_back_to_fields() {
    fn frame(id: &str, body: FrameBody) -> FrameData {
        FrameData {
            id: id.to_owned(),
            body,
        }
    }
    let frames = [
        frame("TIT2", FrameBody::Text("t".into())),
        frame(
            "TXXX",
            FrameBody::ExtendedText {
                description: "custom".into(),
                value: "x".into(),
            },
        ),
        frame(
            "COMM",
            FrameBody::Comment {
                lang: "eng".into(),
                description: "".into(),
                text: "c".into(),
            },
        ),
        frame(
            "COMM",
            FrameBody::Comment {
                lang: "eng".into(),
                description: "note".into(),
                text: "n".into(),
            },
        ),
        frame("TYER", FrameBody::Text("1999".into())),
        frame("TENC", FrameBody::Text("encoder".into())),
    ];

    let fields: Vec<_> = frames.iter().map(TagField::of_frame).collect();

    assert_eq!(
        fields,
        [
            Some(TagField::Title),
            Some(TagField::Txxx("custom".into())),
            Some(TagField::Comment),
            None,
            Some(TagField::Date),
            None,
        ]
    );
}

#[test]
fn date_uses_tdrc_on_v24_and_tyer_on_v23() {
    let mut v24 = Tag::with_version(Version::Id3v24);
    v24.set_text("TYER", "1999");
    TagField::Date.write(&mut v24, "2021-06-01");
    assert_eq!(
        v24.get("TDRC").and_then(|f| f.content().text()),
        Some("2021-06-01")
    );
    assert!(v24.get("TYER").is_none());

    let mut v23 = Tag::with_version(Version::Id3v23);
    TagField::Date.write(&mut v23, "2021-06-01");
    assert_eq!(
        v23.get("TYER").and_then(|f| f.content().text()),
        Some("2021")
    );
    assert!(v23.get("TDRC").is_none());
    assert_eq!(TagField::Date.read(&v23).as_deref(), Some("2021"));
}

#[test]
fn comment_replaces_only_undescribed_comments() {
    let mut tag = Tag::new();
    tag.add_frame(Comment {
        lang: "deu".into(),
        description: "".into(),
        text: "alt".into(),
    });
    tag.add_frame(Comment {
        lang: "eng".into(),
        description: "note".into(),
        text: "keep".into(),
    });

    TagField::Comment.write(&mut tag, "new");

    let comments: Vec<_> = tag
        .comments()
        .map(|c| (c.description.as_str(), c.text.as_str()))
        .collect();
    assert_eq!(comments, [("note", "keep"), ("", "new")]);
}

#[test]
fn remove_is_scoped_like_write() {
    let mut tag = Tag::with_version(Version::Id3v24);
    tag.set_text("TDRC", "2021");
    tag.set_text("TYER", "2021");
    tag.add_frame(Comment {
        lang: "eng".into(),
        description: "".into(),
        text: "plain".into(),
    });
    tag.add_frame(Comment {
        lang: "eng".into(),
        description: "note".into(),
        text: "keep".into(),
    });
    TagField::Txxx("drop".into()).write(&mut tag, "x");
    TagField::Txxx("keep".into()).write(&mut tag, "y");
    tag.set_title("Title");

    for field in [
        TagField::Date,
        TagField::Comment,
        TagField::Txxx("drop".into()),
        TagField::Title,
    ] {
        field.remove(&mut tag);
        assert_eq!(field.read(&tag), None, "{}", field.name());
    }

    let ids: Vec<_> = tag.frames().map(|f| f.id().to_owned()).collect();
    assert_eq!(ids, ["COMM", "TXXX"]);
    assert_eq!(tag.comments().next().unwrap().description, "note");
    assert_eq!(
        TagField::Txxx("keep".into()).read(&tag).as_deref(),
        Some("y")
    );
}

#[test]
fn txxx_is_scoped_to_its_description() {
    let mut tag = Tag::new();
    tag.add_frame(ExtendedText {
        description: "other".into(),
        value: "keep".into(),
    });

    TagField::Txxx("custom".into()).write(&mut tag, "one");
    TagField::Txxx("custom".into()).write(&mut tag, "two");

    assert_eq!(
        TagField::Txxx("custom".into()).read(&tag).as_deref(),
        Some("two")
    );
    assert_eq!(
        TagField::Txxx("other".into()).read(&tag).as_deref(),
        Some("keep")
    );
    assert_eq!(tag.extended_texts().count(), 2);
}

#[test]
fn assignments_split_on_the_first_equals_sign() {
    assert_eq!(
        parse_assignment("albumartist=Various Artists"),
        Ok((TagField::AlbumArtist, "Various Artists".to_owned()))
    );
    assert_eq!(
        parse_assignment("comment=a=b"),
        Ok((TagField::Comment, "a=b".to_owned()))
    );
    assert_eq!(parse_assignment("genre"), Err("expected FIELD=VALUE".to_owned()));
    assert_eq!(
        parse_assignment("TCON="),
        Err("empty value for 'genre'; use `idk clear tags --field genre` to remove it".to_owned())
    );
    assert!(parse_assignment("genres=Rock").unwrap_err().starts_with("unknown tag 'genres'"));
}

#[test]
fn help_texts_name_their_frames() {
    let table = named_table();
    assert_eq!(table.len(), 10);
    assert_eq!(table[0].help(), "Lead artist (TPE1)");
    assert_eq!(table[6].help(), "Recording date (TDRC on v2.4, TYER on v2.3)");
    assert_eq!(table[9].help(), "Comment (COMM)");
    let names = TagFieldParser.valid_names();
    assert_eq!(names.first().map(String::as_str), Some("artist"));
    assert_eq!(names.last().map(String::as_str), Some("txxx:<description>"));
    assert_eq!(TagFieldParser.parse("TPE2"), Ok(TagField::AlbumArtist));
}

#[test]
fn schema_pattern_accepts_every_name_in_any_case() {
    assert_eq!(case_insensitive("ab-1:"), "[aA][bB]-1:");
    let pattern = tag_name_pattern();
    assert!(pattern.starts_with("^(?:[aA][rR][tT][iI][sS][tT]|[tT][pP][eE]1|"), "{pattern}");
    assert!(pattern.ends_with("|[tT][xX][xX][xX]:.+)$"), "{pattern}");
    let regex = regex::Regex::new(&pattern).unwrap();
    for name in ["artist", "ARTIST", "tpe1", "Album-Artist", "TYER", "txxx:Custom", "TXXX:x"] {
        assert!(regex.is_match(name), "{name}");
    }
    for name in ["artists", "txxx:", "tpe"] {
        assert!(!regex.is_match(name), "{name}");
    }
}

#[test]
fn year_keeps_only_a_leading_four_digit_year() {
    assert_eq!(year_of("2021-06-01"), "2021");
    assert_eq!(year_of("21"), "21");
    assert_eq!(year_of("abcd-01"), "abcd-01");
}
