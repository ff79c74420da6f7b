//! The ID3v2 tag as the library sees it: an ordered sequence of frames, read and
//! changed only through the `id3` crate.
//!
//! Verus cannot look inside `id3::Tag`, so its contents are named by
//! [`tag_frames`] and [`tag_version`], and every call into `id3` states over those
//! names what the crate's source does to the frames.

use id3::frame::{Comment, Content, ExtendedText};
use id3::{Frame, Tag, TagLike, Version};
use vstd::prelude::*;
use vstd::utf8::encode_utf8;

verus! {

#[verifier::external_type_specification]
#[verifier::external_body]
pub struct ExTag(Tag);

#[verifier::external_type_specification]
#[verifier::external_body]
pub struct ExFrame(Frame);

#[verifier::external_type_specification]
#[verifier::external_body]
pub struct ExVersion(Version);

/// The ID3v2 minor version of a tag.
#[derive(Clone, Copy, Debug, PartialEq, Eq, Structural)]
pub enum TagVersion {
    Id3v22,
    Id3v23,
    Id3v24,
}

/// What `id3` compares when it decides whether a new frame replaces an old one
/// (its private `Content::unique`): always equal, equal when the listed byte
/// strings are equal, or never equal.
pub enum UniqueKey {
    Same,
    Keys(Seq<Seq<u8>>),
    Never,
}

/// The decoded content of a frame, with the detail the library reads.
pub enum BodyView {
    Text(Seq<char>),
    Comment { lang: Seq<char>, description: Seq<char>, text: Seq<char> },
    ExtendedText { description: Seq<char>, value: Seq<char> },
    Private { owner: Seq<char>, data: Seq<u8> },
    Unknown { data: Seq<u8>, version: TagVersion },
    /// Any other content, by its `Display` text.
    Other { shown: Seq<char> },
}

/// One frame of a tag: its ID, its content, and (for [`BodyView::Other`]
/// content) the comparison key `id3` gives it.
pub struct FrameView {
    pub id: Seq<char>,
    pub body: BodyView,
    pub other_key: UniqueKey,
}

/// The frames of `tag`, in order (`Tag::frames`).
pub uninterp spec fn tag_frames(tag: Tag) -> Seq<FrameView>;

/// The version of `tag` (`Tag::version`).
pub uninterp spec fn tag_version(tag: Tag) -> TagVersion;

/// What `id3`'s TCON parser makes of a genre text: ID3v1 genre references such
/// as `(9)` resolved to their names.
pub uninterp spec fn tcon_resolved(text: Seq<char>) -> Seq<char>;

/// The comparison key of a frame.
pub open spec fn unique_of(f: FrameView) -> UniqueKey {
    match f.body {
        BodyView::Text(_) => UniqueKey::Same,
        BodyView::Comment { lang, description, .. } => UniqueKey::Keys(
            seq![encode_utf8(lang), encode_utf8(description)],
        ),
        BodyView::ExtendedText { description, .. } => UniqueKey::Keys(seq![encode_utf8(description)]),
        BodyView::Private { owner, data } => UniqueKey::Keys(seq![encode_utf8(owner), data]),
        BodyView::Unknown { .. } => UniqueKey::Never,
        BodyView::Other { .. } => f.other_key,
    }
}

/// Whether two comparison keys count as equal.
pub open spec fn keys_match(a: UniqueKey, b: UniqueKey) -> bool {
    match (a, b) {
        (UniqueKey::Same, UniqueKey::Same) => true,
        (UniqueKey::Keys(x), UniqueKey::Keys(y)) => x == y,
        _ => false,
    }
}

/// Whether adding `new` replaces `old` (`Frame::compare`, for new frames whose
/// ID is neither WCOM nor WOAR and which carry no text encoding).
pub open spec fn conflicts(old: FrameView, new: FrameView) -> bool {
    old.id == new.id && keys_match(unique_of(old), unique_of(new))
}

/// The index of the first frame satisfying `pred`, or the length when none does.
#[verifier::opaque]
pub open spec fn first_where(frames: Seq<FrameView>, pred: spec_fn(FrameView) -> bool) -> int {
    if exists|i: int| 0 <= i < frames.len() && pred(frames[i]) {
        choose|i: int|
            0 <= i < frames.len() && pred(frames[i]) && forall|j: int|
                0 <= j < i ==> !pred(#[trigger] frames[j])
    } else {
        frames.len() as int
    }
}

/// Frames with this ID.
pub open spec fn has_id(id: Seq<char>) -> spec_fn(FrameView) -> bool {
    |f: FrameView| f.id == id
}

/// Frames that adding `new` would replace.
pub open spec fn conflicts_with(new: FrameView) -> spec_fn(FrameView) -> bool {
    |f: FrameView| conflicts(f, new)
}

/// The frames after `TagLike::add_frame(new)`: the first conflicting frame is
/// removed and `new` is appended.
pub open spec fn add_result(frames: Seq<FrameView>, new: FrameView) -> Seq<FrameView> {
    let k = first_where(frames, conflicts_with(new));
    if k < frames.len() {
        frames.remove(k).push(new)
    } else {
        frames.push(new)
    }
}

/// A new text frame.
pub open spec fn text_frame(id: Seq<char>, text: Seq<char>) -> FrameView {
    FrameView { id, body: BodyView::Text(text), other_key: UniqueKey::Never }
}

/// Frames with another ID.
pub open spec fn other_id(id: Seq<char>) -> spec_fn(FrameView) -> bool {
    |f: FrameView| f.id != id
}

/// The frames after `TagLike::remove(id)`.
pub open spec fn without_id(frames: Seq<FrameView>, id: Seq<char>) -> Seq<FrameView> {
    frames.filter(other_id(id))
}

/// Whether `TagLike::remove_comment(Some(description), None)` keeps `f`.
pub open spec fn keeps_comment(f: FrameView, description: Seq<char>) -> bool {
    f.id != "COMM"@ || (f.body matches BodyView::Comment { description: d, .. } && d
        != description)
}

/// Whether `TagLike::remove_extended_text(Some(description), None)` keeps `f`.
pub open spec fn keeps_extended(f: FrameView, description: Seq<char>) -> bool {
    f.id != "TXXX"@ || (f.body matches BodyView::ExtendedText { description: d, .. } && d
        != description)
}

/// Frames that `remove_comment(Some(description), None)` keeps.
pub open spec fn comment_kept(description: Seq<char>) -> spec_fn(FrameView) -> bool {
    |f: FrameView| keeps_comment(f, description)
}

/// Frames that `remove_extended_text(Some(description), None)` keeps.
pub open spec fn extended_kept(description: Seq<char>) -> spec_fn(FrameView) -> bool {
    |f: FrameView| keeps_extended(f, description)
}

/// The frames after `TagLike::remove_comment(Some(description), None)`.
pub open spec fn without_comments(frames: Seq<FrameView>, description: Seq<char>) -> Seq<
    FrameView,
> {
    frames.filter(comment_kept(description))
}

/// The frames after `TagLike::remove_extended_text(Some(description), None)`.
pub open spec fn without_extended(frames: Seq<FrameView>, description: Seq<char>) -> Seq<
    FrameView,
> {
    frames.filter(extended_kept(description))
}

/// A frame's content as plain values, as the library reads it.
#[derive(Debug, Clone, PartialEq, Eq)]
pub enum FrameBody {
    Text(String),
    Comment { lang: String, description: String, text: String },
    ExtendedText { description: String, value: String },
    Private { owner: String, data: Vec<u8> },
    Unknown { data: Vec<u8>, version: TagVersion },
    Other { shown: String },
}

/// A frame of a tag as plain values.
#[derive(Debug, Clone, PartialEq, Eq)]
pub struct FrameData {
    pub id: String,
    pub body: FrameBody,
}

impl View for FrameBody {
    type V = BodyView;

    open spec fn view(&self) -> BodyView {
        match self {
            FrameBody::Text(s) => BodyView::Text(s@),
            FrameBody::Comment { lang, description, text } => BodyView::Comment {
                lang: lang@,
                description: description@,
                text: text@,
            },
            FrameBody::ExtendedText { description, value } => BodyView::ExtendedText {
                description: description@,
                value: value@,
            },
            FrameBody::Private { owner, data } => BodyView::Private { owner: owner@, data: data@ },
            FrameBody::Unknown { data, version } => BodyView::Unknown { data: data@, version: *version },
            FrameBody::Other { shown } => BodyView::Other { shown: shown@ },
        }
    }
}

impl View for FrameData {
    type V = (Seq<char>, BodyView);

    open spec fn view(&self) -> (Seq<char>, BodyView) {
        (self.id@, self.body@)
    }
}

/// The part of a frame that [`FrameData`] carries.
pub open spec fn data_of(f: FrameView) -> (Seq<char>, BodyView) {
    (f.id, f.body)
}

/// A frame the library adds to a tag.
pub enum NewFrame {
    Comment { lang: String, description: String, text: String },
    ExtendedText { description: String, value: String },
}

impl NewFrame {
    /// The frame `id3` builds from this value.
    pub open spec fn frame_view(&self) -> FrameView {
        match self {
            NewFrame::Comment { lang, description, text } => FrameView {
                id: "COMM"@,
                body: BodyView::Comment { lang: lang@, description: description@, text: text@ },
                other_key: UniqueKey::Never,
            },
            NewFrame::ExtendedText { description, value } => FrameView {
                id: "TXXX"@,
                body: BodyView::ExtendedText { description: description@, value: value@ },
                other_key: UniqueKey::Never,
            },
        }
    }
}

/// `Tag::with_version(Version::Id3v24)`: an empty ID3v2.4 tag.
#[verifier::external_body]
pub(crate) fn new_v24_tag() -> (tag: Tag)
    ensures
        tag_frames(tag) == Seq::<FrameView>::empty(),
        tag_version(tag) == TagVersion::Id3v24,
{
    Tag::with_version(Version::Id3v24)
}

/// Converts an `id3::Version` to its plain value.
#[verifier::external_body]
fn version_value(version: Version) -> TagVersion {
    match version {
        Version::Id3v22 => TagVersion::Id3v22,
        Version::Id3v23 => TagVersion::Id3v23,
        Version::Id3v24 => TagVersion::Id3v24,
    }
}

/// `Tag::version`.
#[verifier::external_body]
pub(crate) fn version_of(tag: &Tag) -> (v: TagVersion)
    ensures
        v == tag_version(*tag),
{
    version_value(tag.version())
}

/// `Tag::clone` (derived): the same frames and version.
#[verifier::external_body]
pub(crate) fn clone_tag(tag: &Tag) -> (copy: Tag)
    ensures
        tag_frames(copy) == tag_frames(*tag),
        tag_version(copy) == tag_version(*tag),
{
    tag.clone()
}

/// Converts one frame of `Tag::frames` to plain values.
#[verifier::external_body]
fn frame_data(frame: &Frame) -> FrameData {
    let body = match frame.content() {
        Content::Text(text) => FrameBody::Text(text.clone()),
        Content::Comment(c) => FrameBody::Comment {
            lang: c.lang.clone(),
            description: c.description.clone(),
            text: c.text.clone(),
        },
        Content::ExtendedText(e) => FrameBody::ExtendedText { description: e.description.clone(), value: e.value.clone() },
        Content::Private(p) => FrameBody::Private { owner: p.owner_identifier.clone(), data: p.private_data.clone() },
        Content::Unknown(u) => FrameBody::Unknown { data: u.data.clone(), version: version_value(u.version) },
        other => FrameBody::Other { shown: other.to_string() },
    };
    FrameData { id: frame.id().to_owned(), body }
}

/// `Tag::frames`, each frame converted to plain values.
#[verifier::external_body]
pub(crate) fn frames_data(tag: &Tag) -> (frames: Vec<FrameData>)
    ensures
        frames@.len() == tag_frames(*tag).len(),
        forall|i: int|
            0 <= i < frames@.len() ==> #[trigger] frames@[i]@ == data_of(tag_frames(*tag)[i]),
{
    tag.frames().map(frame_data).collect()
}

/// `TagLike::genre_parsed`: the first TCON frame's text with genre references
/// resolved, when that frame holds text.
#[verifier::external_body]
pub(crate) fn genre_parsed(tag: &Tag) -> (genre: Option<String>)
    ensures
        ({
            let frames = tag_frames(*tag);
            let k = first_where(frames, has_id("TCON"@));
            match genre {
                Some(g) => k < frames.len() && (frames[k].body matches BodyView::Text(t)
                    && g@ == tcon_resolved(t)),
                None => !(k < frames.len() && frames[k].body is Text),
            }
        }),
{
    tag.genre_parsed().map(|genre| genre.into_owned())
}

/// `TagLike::set_text`: replaces the first text frame with this ID, or appends one.
///
/// Only for IDs of four ASCII characters (`id3` asserts an ID of 3 or 4
/// bytes), outside the W (link) frames, which `id3` compares by content rather
/// than by ID alone.
#[verifier::external_body]
pub(crate) fn set_text(tag: &mut Tag, id: &str, text: &str)
    requires
        id@.len() == 4,
        forall|i: int| 0 <= i < 4 ==> (#[trigger] id@[i] as u32) < 0x80,
        id@[0] != 'W',
    ensures
        tag_frames(*final(tag)) == add_result(tag_frames(*old(tag)), text_frame(id@, text@)),
        tag_version(*final(tag)) == tag_version(*old(tag)),
{
    tag.set_text(id, text);
}

/// `TagLike::add_frame`: removes the first frame that compares equal to the new
/// one (same ID and key) and appends the new frame.
#[verifier::external_body]
pub(crate) fn add_frame(tag: &mut Tag, frame: NewFrame)
    ensures
        tag_frames(*final(tag)) == add_result(tag_frames(*old(tag)), frame.frame_view()),
        tag_version(*final(tag)) == tag_version(*old(tag)),
{
    match frame {
        NewFrame::Comment { lang, description, text } => tag.add_frame(Comment { lang, description, text }),
        NewFrame::ExtendedText { description, value } => tag.add_frame(ExtendedText { description, value }),
    };
}

/// `TagLike::remove`: drops every frame with this ID.
#[verifier::external_body]
pub(crate) fn remove_id(tag: &mut Tag, id: &str)
    ensures
        tag_frames(*final(tag)) == without_id(tag_frames(*old(tag)), id@),
        tag_version(*final(tag)) == tag_version(*old(tag)),
{
    tag.remove(id);
}

/// `TagLike::remove_comment(Some(description), None)`: drops the COMM frames
/// with this description (and COMM frames that hold no comment).
#[verifier::external_body]
pub(crate) fn remove_comment(tag: &mut Tag, description: &str)
    ensures
        tag_frames(*final(tag)) == without_comments(tag_frames(*old(tag)), description@),
        tag_version(*final(tag)) == tag_version(*old(tag)),
{
    tag.remove_comment(Some(description), None);
}

/// `TagLike::remove_extended_text(Some(description), None)`: drops the TXXX
/// frames with this description (and TXXX frames that hold no extended text).
#[verifier::external_body]
pub(crate) fn remove_extended_text(tag: &mut Tag, description: &str)
    ensures
        tag_frames(*final(tag)) == without_extended(tag_frames(*old(tag)), description@),
        tag_version(*final(tag)) == tag_version(*old(tag)),
{
    tag.remove_extended_text(Some(description), None);
}

} // verus!
