use idk::json::JsonValue;
use idk::show::{render_json, show_json};
use id3::frame::{Comment, Private};
use id3::{Tag, TagLike, Version};
use idk::id3_tag::TagVersion;
use idk::show::{display_value, picture_summary, read_tags, render_text, unique_key, version_number, FileTags};
use idk::tag_field::TagField;

fn entry(key: &str, value: &str) -> (String, String) {
    (key.to_owned(), value.to_owned())
}

fn v24(build: impl FnOnce(&mut Tag)) -> Tag {
    let mut tag = Tag::with_version(Version::Id3v24);
    build(&mut tag);
    tag
}

#[test]
fn names_known_fields_and_keys_the_rest_by_frame_id() {
    let tag = v24(|tag| {
        tag.set_artist("Artist");
        tag.set_text("TENC", "Encoder");
        TagField::Txxx("custom".into()).write(tag, "x");
        tag.add_frame(Comment {
            lang: "eng".into(),
            description: "note".into(),
            text: "n".into(),
        });
    });

    let tags = read_tags(Some(&tag), &vec![], false);

    assert_eq!(tags.version, Some(TagVersion::Id3v24));
    assert_eq!(
        tags.entries,
        [
            entry("artist", "Artist"),
            entry("TENC", "Encoder"),
            entry("txxx:custom", "x"),
            entry("COMM:note", "n"),
        ]
    );
}

#[test]
fn filters_to_requested_fields() {
    let tag = v24(|tag| {
        tag.set_artist("Artist");
        tag.set_title("Title");
        tag.set_album("Album");
    });

    let tags = read_tags(Some(&tag), &vec![TagField::Album, TagField::Artist], false);

    assert_eq!(
        tags.entries,
        [entry("artist", "Artist"), entry("album", "Album")]
    );
}

#[test]
fn joins_multiple_values_and_disambiguates_duplicate_keys() {
    let tag = v24(|tag| {
        tag.set_text("TCON", "Rock\0Pop");
        tag.set_text("TDRC", "2021");
        tag.set_text("TYER", "2021");
    });

    let tags = read_tags(Some(&tag), &vec![], false);

    assert_eq!(
        tags.entries,
        [
            entry("genre", "Rock; Pop"),
            entry("date", "2021"),
            entry("date#2", "2021")
        ]
    );
}

#[test]
fn hides_private_copyright_and_encoder_frames_unless_verbose() {
    let tag = v24(|tag| {
        tag.set_artist("Artist");
        tag.add_frame(Private {
            owner_identifier: "www.amazon.com".into(),
            private_data: vec![0; 512],
        });
        tag.set_text("TCOP", "");
        tag.set_text("TSSE", "LAME 3.100");
    });

    let quiet = read_tags(Some(&tag), &vec![], false);
    assert_eq!(quiet.entries, [entry("artist", "Artist")]);

    let verbose = read_tags(Some(&tag), &vec![], true);
    assert_eq!(
        verbose.entries,
        [
            entry("artist", "Artist"),
            entry("PRIV", "www.amazon.com, 512 bytes"),
            entry("TCOP", ""),
            entry("TSSE", "LAME 3.100"),
        ]
    );
}

#[test]
fn untagged_file_has_no_version_or_entries() {
    let tags = read_tags(None, &vec![], false);

    assert_eq!(
        tags,
        FileTags {
            version: None,
            entries: vec![]
        }
    );
}

#[test]
fn summarizes_pictures() {
    let mut apic = vec![0u8];
    apic.extend_from_slice(b"image/png\0\x03\0");
    apic.extend_from_slice(&[0x89; 10]);
    assert_eq!(
        picture_summary("APIC", &apic),
        format!("image/png, {} bytes", apic.len())
    );

    let pic = [0u8, b'J', b'P', b'G', 3, 0, 0xFF];
    assert_eq!(picture_summary("PIC", &pic), "JPG, 7 bytes");
    assert_eq!(picture_summary("APIC", &[]), "picture, 0 bytes");
}

#[test]
fn pictures_without_a_mime_type_are_named_picture() {
    assert_eq!(picture_summary("APIC", &[0u8, 0, 1, 2]), "picture, 4 bytes");
    assert_eq!(picture_summary("PIC", &[0u8, b'P']), "P, 2 bytes");
    assert_eq!(picture_summary("APIC", &[0u8, b'a', b'b']), "ab, 3 bytes");
}

#[test]
fn repeated_keys_take_the_first_free_number() {
    let entries = vec![entry("date", "1"), entry("date#2", "2"), entry("date#4", "4")];
    assert_eq!(unique_key(&entries, "date".into()), "date#3");
    assert_eq!(unique_key(&entries, "genre".into()), "genre");
    assert_eq!(unique_key(&entries, "date#2".into()), "date#2#2");
}

#[test]
fn renders_readable_text() {
    let tags = FileTags {
        version: Some(TagVersion::Id3v23),
        entries: vec![entry("title", "T"), entry("artist", "A")],
    };
    assert_eq!(
        render_text("a.mp3", &tags),
        "a.mp3 (ID3v2.3)\n  title: T\n  artist: A\n"
    );
    let bare = FileTags {
        version: None,
        entries: vec![],
    };
    assert_eq!(render_text("b.mp3", &bare), "b.mp3 (no ID3v2 tag)\n");
    assert_eq!(version_number(TagVersion::Id3v22), "2.2");
    assert_eq!(version_number(TagVersion::Id3v24), "2.4");
}

#[test]
fn display_value_joins_nul_separated_values() {
    assert_eq!(display_value("a\0b\0c"), "a; b; c");
    assert_eq!(display_value("plain"), "plain");
    assert_eq!(display_value(""), "");
}

#[test]
fn renders_json_with_version_and_ordered_tags() {
    let tags = FileTags {
        version: Some(TagVersion::Id3v23),
        entries: vec![entry("title", "T"), entry("artist", "A")],
    };

    let value = render_json("a.mp3", &tags);

    let text = |s: &str| JsonValue::Text(s.to_owned());
    assert_eq!(
        value,
        JsonValue::Object(vec![
            ("path".to_owned(), text("a.mp3")),
            ("version".to_owned(), text("2.3")),
            (
                "tags".to_owned(),
                JsonValue::Object(vec![
                    ("title".to_owned(), text("T")),
                    ("artist".to_owned(), text("A")),
                ])
            ),
        ])
    );

    let bare = FileTags {
        version: None,
        entries: vec![],
    };
    let printed = show_json(&vec![("a.mp3".to_owned(), tags), ("b.mp3".to_owned(), bare)]);
    let parsed: serde_json::Value = serde_json::from_str(&printed).unwrap();
    assert_eq!(
        serde_json::to_string(&parsed).unwrap(),
        r#"[{"path":"a.mp3","version":"2.3","tags":{"title":"T","artist":"A"}},{"path":"b.mp3","version":null,"tags":{}}]"#
    );
    assert!(printed.starts_with("[\n  {\n    \"path\": \"a.mp3\","), "{printed}");
}
