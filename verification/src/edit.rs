//! `idk set tags` and `idk clear tags`: write fixed values into fields, or remove them.

use crate::id3_tag::{clone_tag, new_v24_tag, tag_frames, tag_version, FrameView, TagVersion};
use crate::outcome::{diff_plan, field_names, Plan};
use crate::tag_field::{removed, written, FieldName, TagField};
use id3::Tag;
use vstd::prelude::*;

verus! {

/// The frames a plan starts from: the file's tag, or none for an untagged file.
pub open spec fn base_frames(tag: Option<Tag>) -> Seq<FrameView> {
    match tag {
        Some(t) => tag_frames(t),
        None => Seq::empty(),
    }
}

/// The version a plan starts from: the file's, or ID3v2.4 for an untagged file.
pub open spec fn base_version(tag: Option<Tag>) -> TagVersion {
    match tag {
        Some(t) => tag_version(t),
        None => TagVersion::Id3v24,
    }
}

/// The field/value pairs of a list of assignments.
pub open spec fn assignment_views(assignments: Seq<(TagField, String)>) -> Seq<(FieldName, Seq<char>)> {
    assignments.map_values(|a: (TagField, String)| (a.0@, a.1@))
}

/// The fields of a list of assignments.
pub open spec fn assignment_fields(assignments: Seq<(TagField, String)>) -> Seq<FieldName> {
    assignments.map_values(|a: (TagField, String)| a.0@)
}

/// The frames after writing every assignment in order.
pub open spec fn written_all(
    assignments: Seq<(FieldName, Seq<char>)>,
    frames: Seq<FrameView>,
    version: TagVersion,
) -> Seq<FrameView>
    decreases assignments.len(),
{
    if assignments.len() == 0 {
        frames
    } else {
        let (f, v) = assignments.last();
        written(f, written_all(assignments.drop_last(), frames, version), version, v)
    }
}

/// The frames after removing every field in order.
pub open spec fn removed_all(fields: Seq<FieldName>, frames: Seq<FrameView>) -> Seq<FrameView>
    decreases fields.len(),
{
    if fields.len() == 0 {
        frames
    } else {
        removed(fields.last(), removed_all(fields.drop_last(), frames))
    }
}

/// The tag a plan edits: the file's, or a new ID3v2.4 tag.
pub fn tag_or_new(tag: Option<Tag>) -> (r: Tag)
    ensures
        tag_frames(r) == base_frames(tag),
        tag_version(r) == base_version(tag),
{
    match tag {
        Some(t) => t,
        None => new_v24_tag(),
    }
}

/// Works out the effect of setting every field in `assignments` on a file's tag.
///
/// A file without a tag gets a new ID3v2.4 tag.
pub fn plan_set(tag: Option<Tag>, assignments: &Vec<(TagField, String)>) -> (r: Plan)
    ensures
        diff_plan(
            r,
            assignment_fields(assignments@),
            base_frames(tag),
            base_version(tag),
            written_all(assignment_views(assignments@), base_frames(tag), base_version(tag)),
            base_version(tag),
        ),
{
    let mut tag = tag_or_new(tag);
    let before = clone_tag(&tag);
    let ghost frames0 = tag_frames(before);
    let ghost version = tag_version(before);
    let mut fields: Vec<TagField> = Vec::new();
    let mut i: usize = 0;
    while i < assignments.len()
        invariant
            i <= assignments@.len(),
            tag_version(tag) == version,
            tag_frames(tag) == written_all(assignment_views(assignments@).take(i as int), frames0, version),
            fields@.len() == i,
            forall|j: int| 0 <= j < i ==> #[trigger] fields@[j]@ == assignments@[j].0@,
        decreases assignments@.len() - i,
    {
        let ghost views = assignment_views(assignments@);
        assert(views.take(i + 1).drop_last() =~= views.take(i as int));
        let (field, value) = (&assignments[i].0, &assignments[i].1);
        field.write(&mut tag, value.as_str());
        let copy = field.clone();
        fields.push(copy);
        i = i + 1;
    }
    assert(assignment_views(assignments@).take(assignments@.len() as int) =~= assignment_views(
        assignments@,
    ));
    assert(field_names(fields@) =~= assignment_fields(assignments@));
    Plan::from_diff(&fields, &before, tag)
}

/// Works out the effect of removing every field in `fields` from a file's tag.
///
/// An untagged file is unchanged; no tag is created.
pub fn plan_clear(tag: Option<Tag>, fields: &Vec<TagField>) -> (r: Plan)
    ensures
        match tag {
            None => r is Unchanged,
            Some(t) => diff_plan(
                r,
                field_names(fields@),
                tag_frames(t),
                tag_version(t),
                removed_all(field_names(fields@), tag_frames(t)),
                tag_version(t),
            ),
        },
{
    let mut tag = match tag {
        Some(t) => t,
        None => return Plan::Unchanged,
    };
    let before = clone_tag(&tag);
    let ghost frames0 = tag_frames(before);
    let mut i: usize = 0;
    while i < fields.len()
        invariant
            i <= fields@.len(),
            tag_version(tag) == tag_version(before),
            tag_frames(tag) == removed_all(field_names(fields@).take(i as int), frames0),
        decreases fields@.len() - i,
    {
        assert(field_names(fields@).take(i + 1).drop_last() =~= field_names(fields@).take(i as int));
        fields[i].remove(&mut tag);
        i = i + 1;
    }
    assert(field_names(fields@).take(fields@.len() as int) =~= field_names(fields@));
    Plan::from_diff(fields, &before, tag)
}

} // verus!
