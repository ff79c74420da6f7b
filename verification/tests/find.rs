use id3::{Tag, TagLike};
use idk::find::{parse_condition, Condition, Matcher, Operand};
use idk::tag_field::TagField;

#[test]
fn parses_every_operator() {
    let parse = |raw| parse_condition(raw, false).unwrap();
    assert!(matches!(
        parse("genre=Rock"),
        Condition::Compare { field: TagField::Genre, operand: Operand::Value(v), negate: false } if v == "Rock"
    ));
    assert!(matches!(
        parse("genre!="),
        Condition::Compare { operand: Operand::Value(v), negate: true, .. } if v.is_empty()
    ));
    assert!(matches!(
        parse("albumartist!=@artist"),
        Condition::Compare {
            field: TagField::AlbumArtist,
            operand: Operand::Field(TagField::Artist),
            negate: true
        }
    ));
    assert!(matches!(
        parse("title~^Live"),
        Condition::Matches { field: TagField::Title, regex } if regex.as_str() == "^Live"
    ));
    assert!(matches!(
        parse("comment=a=b"),
        Condition::Compare { operand: Operand::Value(v), .. } if v == "a=b"
    ));
}

#[test]
fn rejects_invalid_conditions() {
    let cases = [
        ("genre", "invalid condition 'genre': expected FIELD=VALUE"),
        ("title~(", "invalid condition 'title~(': bad regex"),
        (
            "genres=Rock",
            "invalid condition 'genres=Rock': unknown tag 'genres'",
        ),
        (
            "artist=@nope",
            "invalid condition 'artist=@nope': unknown tag 'nope'",
        ),
    ];
    for (raw, message) in cases {
        let err = Matcher::new(&vec![raw.to_owned()], &vec![], &vec![], false)
            .err()
            .unwrap();
        assert!(err.starts_with(message), "{err}");
    }
}

fn tag(build: impl FnOnce(&mut Tag)) -> Tag {
    let mut tag = Tag::new();
    build(&mut tag);
    tag
}

fn matcher(conditions: &[&str], missing: &[TagField], ignore_case: bool) -> Matcher {
    let conditions: Vec<String> = conditions.iter().map(|c| c.to_string()).collect();
    Matcher::new(&conditions, &missing.to_vec(), &vec![], ignore_case).unwrap()
}

#[test]
fn evaluates_all_conditions_together() {
    let tag = tag(|tag| {
        tag.set_artist("Artist");
        tag.set_album_artist("Various Artists");
        tag.set_genre("Rock");
    });

    assert!(matcher(&["genre=Rock", "albumartist!=@artist"], &[], false).matches(Some(&tag)));
    assert!(!matcher(&["genre=Rock", "albumartist=@artist"], &[], false).matches(Some(&tag)));
    assert!(!matcher(&["genre=rock"], &[], false).matches(Some(&tag)));
    assert!(matcher(&["genre=rock"], &[], true).matches(Some(&tag)));
    assert!(matcher(&["albumartist~^various"], &[], true).matches(Some(&tag)));
    assert!(!matcher(&["albumartist~^various"], &[], false).matches(Some(&tag)));
}

#[test]
fn missing_and_empty_fields_compare_as_empty() {
    let tag = tag(|tag| tag.set_artist("Artist"));

    assert!(matcher(&["genre="], &[], false).matches(Some(&tag)));
    assert!(matcher(&[], &[TagField::Genre], false).matches(Some(&tag)));
    assert!(!matcher(&[], &[TagField::Artist], false).matches(Some(&tag)));
    assert!(matcher(&[], &[TagField::Artist], false).matches(None));
    let present = Matcher::new(&vec![], &vec![], &vec![TagField::Artist], false).unwrap();
    assert!(present.matches(Some(&tag)));
    assert!(!present.matches(None));
}

#[test]
fn no_conditions_match_everything() {
    assert!(Matcher::new(&vec![], &vec![], &vec![], false).unwrap().matches(None));
}

#[test]
fn whitespace_only_values_count_as_missing() {
    let tag = tag(|tag| tag.set_genre("   "));
    assert!(matcher(&[], &[TagField::Genre], false).matches(Some(&tag)));
    assert!(matcher(&["genre~^\\s+$"], &[], false).matches(Some(&tag)));
}

#[test]
fn bad_regex_reports_the_regex_error() {
    let err = parse_condition("title~(", false).err().unwrap();
    assert!(err.starts_with("bad regex: "), "{err}");
    let err = parse_condition("nope~x", false).err().unwrap();
    assert!(err.starts_with("unknown tag 'nope'"), "{err}");
}

#[test]
fn negation_and_presence_are_complements() {
    let with = tag(|tag| tag.set_genre("Rock"));
    let without = tag(|tag| tag.set_artist("Artist"));
    for t in [Some(&with), Some(&without), None] {
        assert_ne!(
            matcher(&["genre=Rock"], &[], false).matches(t),
            matcher(&["genre!=Rock"], &[], false).matches(t)
        );
        let present = Matcher::new(&vec![], &vec![], &vec![TagField::Genre], false).unwrap();
        assert_ne!(matcher(&[], &[TagField::Genre], false).matches(t), present.matches(t));
        assert!(matcher(&["genre=@genre"], &[], false).matches(t));
    }
}
