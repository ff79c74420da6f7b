use id3::{Tag, TagLike, Version};
use idk::edit::{plan_clear, plan_set};
use idk::outcome::{Change, Outcome, Plan};
use idk::tag_field::TagField;

fn set(tag: Option<Tag>, assignments: &[(TagField, &str)]) -> (Option<Tag>, Outcome) {
    let assignments: Vec<_> = assignments
        .iter()
        .map(|(field, value)| (field.clone(), value.to_string()))
        .collect();
    let plan: Plan = plan_set(tag, &assignments);
    plan.into_outcome()
}

#[test]
fn sets_several_fields_and_reports_each_change() {
    let mut tag = Tag::with_version(Version::Id3v23);
    tag.set_genre("Pop");

    let (after, outcome) = set(
        Some(tag),
        &[
            (TagField::Genre, "Rock"),
            (TagField::AlbumArtist, "Various Artists"),
            (TagField::Txxx("Source".into()), "CD"),
        ],
    );

    let Outcome::Updated(changes) = outcome else {
        panic!("expected update, got {outcome:?}");
    };
    assert_eq!(
        changes,
        [
            Change {
                field: TagField::Genre,
                old: Some("Pop".into()),
                new: Some("Rock".into())
            },
            Change {
                field: TagField::AlbumArtist,
                old: None,
                new: Some("Various Artists".into())
            },
            Change {
                field: TagField::Txxx("Source".into()),
                old: None,
                new: Some("CD".into())
            },
        ]
    );
    let tag = after.unwrap();
    assert_eq!(tag.genre(), Some("Rock"));
    assert_eq!(tag.album_artist(), Some("Various Artists"));
    assert_eq!(tag.version(), Version::Id3v23);
}

#[test]
fn matching_values_leave_the_file_untouched() {
    let mut tag = Tag::with_version(Version::Id3v24);
    tag.set_genre("Rock");

    let (after, outcome) = set(Some(tag), &[(TagField::Genre, "Rock")]);
    assert_eq!(outcome, Outcome::Unchanged);
    assert!(after.is_none());
}

#[test]
fn creates_a_v24_tag_on_untagged_files() {
    let (after, _) = set(None, &[(TagField::Title, "Title")]);

    let tag = after.unwrap();
    assert_eq!(tag.title(), Some("Title"));
    assert_eq!(tag.version(), Version::Id3v24);
}

#[test]
fn clearing_removes_fields_and_leaves_others() {
    let mut tag = Tag::with_version(Version::Id3v24);
    tag.set_genre("Rock");
    tag.set_artist("Artist");
    let plan: Plan = plan_clear(Some(tag), &vec![TagField::Genre, TagField::Album]);
    let (after, outcome) = plan.into_outcome();
    assert_eq!(
        outcome,
        Outcome::Updated(vec![Change {
            field: TagField::Genre,
            old: Some("Rock".into()),
            new: None
        }])
    );
    let tag = after.unwrap();
    assert_eq!(tag.genre(), None);
    assert_eq!(tag.artist(), Some("Artist"));

    let untagged: Plan = plan_clear(None, &vec![TagField::Genre]);
    assert_eq!(untagged.into_outcome().1, Outcome::Unchanged);
}
