//! Tags idk can operate on, and their ID3v2 frame mapping.

use crate::id3_tag::{
    add_frame, add_result, has_id, data_of, first_where, frames_data, remove_comment, remove_extended_text,
    remove_id, set_text, tag_frames, tag_version, text_frame, version_of, without_comments,
    without_extended, without_id, BodyView, FrameBody, FrameData, FrameView, NewFrame, TagVersion,
    UniqueKey,
};
use crate::text::{ascii_lower, chars_of, to_ascii_lower};
use id3::Tag;
use vstd::prelude::*;

verus! {

/// A tag named by its common field name (as used by MusicBrainz Picard and mutagen).
///
/// Names are case-insensitive, and each field also accepts its ID3v2 frame ID.
#[derive(Debug, PartialEq, Eq)]
pub enum TagField {
    /// Lead artist (TPE1).
    Artist,
    /// Album artist (TPE2).
    AlbumArtist,
    /// Track title (TIT2).
    Title,
    /// Album title (TALB).
    Album,
    /// Track number, optionally `n/total` (TRCK).
    TrackNumber,
    /// Disc number, optionally `n/total` (TPOS).
    DiscNumber,
    /// Recording date: TDRC on ID3v2.4, TYER (year only) on ID3v2.3.
    Date,
    /// Genre (TCON).
    Genre,
    /// Composer (TCOM).
    Composer,
    /// Comment with an empty description (COMM).
    Comment,
    /// User-defined text frame with the given description (TXXX).
    Txxx(String),
}

/// A [`TagField`] as a mathematical value.
pub enum FieldName {
    Artist,
    AlbumArtist,
    Title,
    Album,
    TrackNumber,
    DiscNumber,
    Date,
    Genre,
    Composer,
    Comment,
    Txxx(Seq<char>),
}

impl View for TagField {
    type V = FieldName;

    open spec fn view(&self) -> FieldName {
        match self {
            TagField::Artist => FieldName::Artist,
            TagField::AlbumArtist => FieldName::AlbumArtist,
            TagField::Title => FieldName::Title,
            TagField::Album => FieldName::Album,
            TagField::TrackNumber => FieldName::TrackNumber,
            TagField::DiscNumber => FieldName::DiscNumber,
            TagField::Date => FieldName::Date,
            TagField::Genre => FieldName::Genre,
            TagField::Composer => FieldName::Composer,
            TagField::Comment => FieldName::Comment,
            TagField::Txxx(d) => FieldName::Txxx(d@),
        }
    }
}

/// Equal up to ASCII letter case (`str::eq_ignore_ascii_case`).
pub open spec fn ascii_eq_ci(a: Seq<char>, b: Seq<char>) -> bool {
    a.len() == b.len() && forall|i: int| 0 <= i < a.len() ==> ascii_lower(a[i]) == ascii_lower(b[i])
}

/// The fixed-name fields, in help order.
pub open spec fn named_fields() -> Seq<FieldName> {
    seq![
        FieldName::Artist,
        FieldName::AlbumArtist,
        FieldName::Title,
        FieldName::Album,
        FieldName::TrackNumber,
        FieldName::DiscNumber,
        FieldName::Date,
        FieldName::Genre,
        FieldName::Composer,
        FieldName::Comment,
    ]
}

/// The canonical name of a fixed-name field.
pub open spec fn canonical_name(f: FieldName) -> Seq<char> {
    match f {
        FieldName::Artist => "artist"@,
        FieldName::AlbumArtist => "albumartist"@,
        FieldName::Title => "title"@,
        FieldName::Album => "album"@,
        FieldName::TrackNumber => "tracknumber"@,
        FieldName::DiscNumber => "discnumber"@,
        FieldName::Date => "date"@,
        FieldName::Genre => "genre"@,
        FieldName::Composer => "composer"@,
        FieldName::Comment => "comment"@,
        FieldName::Txxx(d) => "txxx:"@ + d,
    }
}

/// Every name a fixed-name field accepts: its canonical name, then its aliases.
pub open spec fn names_of(f: FieldName) -> Seq<Seq<char>> {
    match f {
        FieldName::Artist => seq!["artist"@, "tpe1"@],
        FieldName::AlbumArtist => seq!["albumartist"@, "album-artist"@, "tpe2"@],
        FieldName::Title => seq!["title"@, "tit2"@],
        FieldName::Album => seq!["album"@, "talb"@],
        FieldName::TrackNumber => seq!["tracknumber"@, "track"@, "trck"@],
        FieldName::DiscNumber => seq!["discnumber"@, "disc"@, "tpos"@],
        FieldName::Date => seq!["date"@, "year"@, "tdrc"@, "tyer"@],
        FieldName::Genre => seq!["genre"@, "tcon"@],
        FieldName::Composer => seq!["composer"@, "tcom"@],
        FieldName::Comment => seq!["comment"@, "comm"@],
        FieldName::Txxx(_) => seq![],
    }
}

/// The single text frame storing a field; none for `date`, `comment` and `txxx`.
pub open spec fn frame_of(f: FieldName) -> Option<Seq<char>> {
    match f {
        FieldName::Artist => Some("TPE1"@),
        FieldName::AlbumArtist => Some("TPE2"@),
        FieldName::Title => Some("TIT2"@),
        FieldName::Album => Some("TALB"@),
        FieldName::TrackNumber => Some("TRCK"@),
        FieldName::DiscNumber => Some("TPOS"@),
        FieldName::Genre => Some("TCON"@),
        FieldName::Composer => Some("TCOM"@),
        _ => None,
    }
}

/// Whether `s` is one of the names of `f`, in any ASCII letter case.
pub open spec fn accepts_name(f: FieldName, s: Seq<char>) -> bool {
    exists|i: int| 0 <= i < names_of(f).len() && ascii_eq_ci(#[trigger] names_of(f)[i], s)
}

/// The field a name stands for: `txxx:<description>` (any case, non-empty
/// description kept as written), or a fixed field's name or alias in any case.
pub open spec fn parse_field(s: Seq<char>) -> Option<FieldName> {
    if s.len() > 5 && ascii_eq_ci(s.take(5), "txxx:"@) {
        Some(FieldName::Txxx(s.skip(5)))
    } else if accepts_name(FieldName::Artist, s) {
        Some(FieldName::Artist)
    } else if accepts_name(FieldName::AlbumArtist, s) {
        Some(FieldName::AlbumArtist)
    } else if accepts_name(FieldName::Title, s) {
        Some(FieldName::Title)
    } else if accepts_name(FieldName::Album, s) {
        Some(FieldName::Album)
    } else if accepts_name(FieldName::TrackNumber, s) {
        Some(FieldName::TrackNumber)
    } else if accepts_name(FieldName::DiscNumber, s) {
        Some(FieldName::DiscNumber)
    } else if accepts_name(FieldName::Date, s) {
        Some(FieldName::Date)
    } else if accepts_name(FieldName::Genre, s) {
        Some(FieldName::Genre)
    } else if accepts_name(FieldName::Composer, s) {
        Some(FieldName::Composer)
    } else if accepts_name(FieldName::Comment, s) {
        Some(FieldName::Comment)
    } else {
        None
    }
}

/// The names listed when a tag name is not recognised.
pub open spec fn expected_names() -> Seq<char> {
    "artist, albumartist, title, album, tracknumber, discnumber, date, genre, composer, comment, txxx:<description>"@
}

/// The error for an unrecognised tag name.
pub open spec fn unknown_tag_message(s: Seq<char>) -> Seq<char> {
    "unknown tag '"@ + s + "'; expected one of: "@ + expected_names()
}

/// Whether the characters `a` equal `b` up to ASCII letter case.
pub fn eq_ignore_ascii_case(a: &Vec<char>, b: &str) -> (r: bool)
    ensures
        r == ascii_eq_ci(a@, b@),
{
    let bc = chars_of(b);
    if a.len() != bc.len() {
        return false;
    }
    let mut i: usize = 0;
    while i < a.len()
        invariant
            a@.len() == bc@.len(),
            bc@ == b@,
            i <= a@.len(),
            forall|j: int| 0 <= j < i ==> ascii_lower(a@[j]) == ascii_lower(bc@[j]),
        decreases a@.len() - i,
    {
        if to_ascii_lower(a[i]) != to_ascii_lower(bc[i]) {
            assert(ascii_lower(a@[i as int]) != ascii_lower(bc@[i as int]));
            return false;
        }
        i = i + 1;
    }
    true
}

impl Clone for TagField {
    fn clone(&self) -> (r: Self)
        ensures
            r@ == self@,
    {
        match self {
            TagField::Artist => TagField::Artist,
            TagField::AlbumArtist => TagField::AlbumArtist,
            TagField::Title => TagField::Title,
            TagField::Album => TagField::Album,
            TagField::TrackNumber => TagField::TrackNumber,
            TagField::DiscNumber => TagField::DiscNumber,
            TagField::Date => TagField::Date,
            TagField::Genre => TagField::Genre,
            TagField::Composer => TagField::Composer,
            TagField::Comment => TagField::Comment,
            TagField::Txxx(d) => TagField::Txxx(d.clone()),
        }
    }
}

impl TagField {
    /// Whether two fields are the same field.
    pub fn same_as(&self, other: &TagField) -> (r: bool)
        ensures
            r == (self@ == other@),
    {
        match (self, other) {
            (TagField::Artist, TagField::Artist) => true,
            (TagField::AlbumArtist, TagField::AlbumArtist) => true,
            (TagField::Title, TagField::Title) => true,
            (TagField::Album, TagField::Album) => true,
            (TagField::TrackNumber, TagField::TrackNumber) => true,
            (TagField::DiscNumber, TagField::DiscNumber) => true,
            (TagField::Date, TagField::Date) => true,
            (TagField::Genre, TagField::Genre) => true,
            (TagField::Composer, TagField::Composer) => true,
            (TagField::Comment, TagField::Comment) => true,
            (TagField::Txxx(a), TagField::Txxx(b)) => *a == *b,
            _ => false,
        }
    }

    /// The names a fixed-name field accepts (canonical name first); empty for `txxx`.
    pub fn names(&self) -> (r: Vec<&'static str>)
        ensures
            r@.len() == names_of(self@).len(),
            forall|i: int| 0 <= i < r@.len() ==> #[trigger] r@[i]@ == names_of(self@)[i],
    {
        match self {
            TagField::Artist => vec!["artist", "tpe1"],
            TagField::AlbumArtist => vec!["albumartist", "album-artist", "tpe2"],
            TagField::Title => vec!["title", "tit2"],
            TagField::Album => vec!["album", "talb"],
            TagField::TrackNumber => vec!["tracknumber", "track", "trck"],
            TagField::DiscNumber => vec!["discnumber", "disc", "tpos"],
            TagField::Date => vec!["date", "year", "tdrc", "tyer"],
            TagField::Genre => vec!["genre", "tcon"],
            TagField::Composer => vec!["composer", "tcom"],
            TagField::Comment => vec!["comment", "comm"],
            TagField::Txxx(_) => vec![],
        }
    }

    /// The plain text frame backing this field, for fields stored in exactly one text frame.
    pub fn text_frame(&self) -> (r: Option<&'static str>)
        ensures
            r matches Some(id) ==> frame_of(self@) == Some(id@),
            r is None ==> frame_of(self@) is None,
    {
        match self {
            TagField::Artist => Some("TPE1"),
            TagField::AlbumArtist => Some("TPE2"),
            TagField::Title => Some("TIT2"),
            TagField::Album => Some("TALB"),
            TagField::TrackNumber => Some("TRCK"),
            TagField::DiscNumber => Some("TPOS"),
            TagField::Genre => Some("TCON"),
            TagField::Composer => Some("TCOM"),
            _ => None,
        }
    }

    /// Whether `s` is one of this field's names, in any ASCII letter case.
    pub fn accepts(&self, s: &Vec<char>) -> (r: bool)
        ensures
            r == accepts_name(self@, s@),
    {
        let names = self.names();
        let mut i: usize = 0;
        while i < names.len()
            invariant
                names@.len() == names_of(self@).len(),
                forall|k: int| 0 <= k < names@.len() ==> #[trigger] names@[k]@ == names_of(self@)[k],
                i <= names@.len(),
                forall|j: int| 0 <= j < i ==> !ascii_eq_ci(#[trigger] names_of(self@)[j], s@),
            decreases names@.len() - i,
        {
            if eq_ignore_ascii_case(s, names[i]) {
                assert(ascii_eq_ci(names_of(self@)[i as int], s@)) by {
                    assert(names@[i as int]@ == names_of(self@)[i as int]);
                }
                return true;
            }
            i = i + 1;
        }
        false
    }

    /// The canonical name: `albumartist`, `txxx:custom`, ...
    pub fn name(&self) -> (r: String)
        ensures
            r@ == canonical_name(self@),
    {
        match self {
            TagField::Txxx(d) => {
                let mut s = String::from_str("txxx:");
                s.append(d.as_str());
                s
            },
            TagField::Artist => String::from_str("artist"),
            TagField::AlbumArtist => String::from_str("albumartist"),
            TagField::Title => String::from_str("title"),
            TagField::Album => String::from_str("album"),
            TagField::TrackNumber => String::from_str("tracknumber"),
            TagField::DiscNumber => String::from_str("discnumber"),
            TagField::Date => String::from_str("date"),
            TagField::Genre => String::from_str("genre"),
            TagField::Composer => String::from_str("composer"),
            TagField::Comment => String::from_str("comment"),
        }
    }

    /// Parses a tag name as accepted on the command line and in config files.
    pub fn parse_name(s: &str) -> (r: Result<TagField, String>)
        ensures
            match r {
                Ok(f) => parse_field(s@) == Some(f@),
                Err(e) => parse_field(s@) is None && e@ == unknown_tag_message(s@),
            },
    {
        let cs = chars_of(s);
        if cs.len() > 5 {
            let head = chars_of(s.substring_char(0, 5));
            assert(head@ =~= cs@.take(5));
            if eq_ignore_ascii_case(&head, "txxx:") {
                let description = s.substring_char(5, cs.len());
                return Ok(TagField::Txxx(String::from_str(description)));
            }
        }
        let fields = vec![
            TagField::Artist,
            TagField::AlbumArtist,
            TagField::Title,
            TagField::Album,
            TagField::TrackNumber,
            TagField::DiscNumber,
            TagField::Date,
            TagField::Genre,
            TagField::Composer,
            TagField::Comment,
        ];
        let mut i: usize = 0;
        while i < fields.len()
            invariant
                fields.len() == 10,
                forall|k: int| 0 <= k < 10 ==> #[trigger] fields@[k]@ == named_fields()[k],
                i <= 10,
                forall|j: int| 0 <= j < i ==> !accepts_name(#[trigger] named_fields()[j], cs@),
                cs@ == s@,
                !(s@.len() > 5 && ascii_eq_ci(s@.take(5), "txxx:"@)),
            decreases 10 - i,
        {
            if fields[i].accepts(&cs) {
                let f = fields[i].clone();
                assert(parse_field(s@) == Some(f@)) by {
                    assert(forall|j: int| 0 <= j < i ==> !accepts_name(#[trigger] named_fields()[j], s@));
                    if i > 0 { assert(!accepts_name(named_fields()[0], s@)); }
                    if i > 1 { assert(!accepts_name(named_fields()[1], s@)); }
                    if i > 2 { assert(!accepts_name(named_fields()[2], s@)); }
                    if i > 3 { assert(!accepts_name(named_fields()[3], s@)); }
                    if i > 4 { assert(!accepts_name(named_fields()[4], s@)); }
                    if i > 5 { assert(!accepts_name(named_fields()[5], s@)); }
                    if i > 6 { assert(!accepts_name(named_fields()[6], s@)); }
                    if i > 7 { assert(!accepts_name(named_fields()[7], s@)); }
                    if i > 8 { assert(!accepts_name(named_fields()[8], s@)); }
                }
                return Ok(f);
            }
            i = i + 1;
        }
        assert(parse_field(s@) is None) by {
            assert(!accepts_name(named_fields()[0], s@));
            assert(!accepts_name(named_fields()[1], s@));
            assert(!accepts_name(named_fields()[2], s@));
            assert(!accepts_name(named_fields()[3], s@));
            assert(!accepts_name(named_fields()[4], s@));
            assert(!accepts_name(named_fields()[5], s@));
            assert(!accepts_name(named_fields()[6], s@));
            assert(!accepts_name(named_fields()[7], s@));
            assert(!accepts_name(named_fields()[8], s@));
            assert(!accepts_name(named_fields()[9], s@));
        }
        let mut msg = String::from_str("unknown tag '");
        msg.append(s);
        msg.append("'; expected one of: ");
        msg.append(
            "artist, albumartist, title, album, tracknumber, discnumber, date, genre, composer, comment, txxx:<description>",
        );
        Err(msg)
    }
}


/// An optional string as an optional character sequence.
pub open spec fn opt_view(o: Option<String>) -> Option<Seq<char>> {
    match o {
        Some(s) => Some(s@),
        None => None,
    }
}

/// The text of the first frame with this ID, when that frame holds text
/// (`tag.get(id)` then `content().text()`).
pub open spec fn text_of(frames: Seq<FrameView>, id: Seq<char>) -> Option<Seq<char>> {
    let k = first_where(frames, has_id(id));
    if k < frames.len() {
        match frames[k].body {
            BodyView::Text(t) => Some(t),
            _ => None,
        }
    } else {
        None
    }
}

/// Whether a frame holds a comment with an empty description.
pub open spec fn is_plain_comment(f: FrameView) -> bool {
    f.body matches BodyView::Comment { description, .. } && description.len() == 0
}

/// Whether a frame holds an extended text with this description.
pub open spec fn is_extended_with(f: FrameView, description: Seq<char>) -> bool {
    f.body matches BodyView::ExtendedText { description: d, .. } && d == description
}

/// Frames holding a comment with an empty description.
pub open spec fn plain_comment_pred() -> spec_fn(FrameView) -> bool {
    |f: FrameView| is_plain_comment(f)
}

/// Frames holding an extended text with this description.
pub open spec fn extended_pred(description: Seq<char>) -> spec_fn(FrameView) -> bool {
    |f: FrameView| is_extended_with(f, description)
}

/// The text of the first comment with an empty description (`tag.comments().find(..)`).
pub open spec fn plain_comment_of(frames: Seq<FrameView>) -> Option<Seq<char>> {
    let k = first_where(frames, plain_comment_pred());
    if k < frames.len() {
        match frames[k].body {
            BodyView::Comment { text, .. } => Some(text),
            _ => None,
        }
    } else {
        None
    }
}

/// The value of the first extended text with this description.
pub open spec fn extended_of(frames: Seq<FrameView>, description: Seq<char>) -> Option<Seq<char>> {
    let k = first_where(frames, extended_pred(description));
    if k < frames.len() {
        match frames[k].body {
            BodyView::ExtendedText { value, .. } => Some(value),
            _ => None,
        }
    } else {
        None
    }
}

/// `a`, or `b` when `a` is absent.
pub open spec fn or_else(a: Option<Seq<char>>, b: Option<Seq<char>>) -> Option<Seq<char>> {
    if a is Some {
        a
    } else {
        b
    }
}

/// The value of a field in a tag with these frames and version.
pub open spec fn field_value(field: FieldName, frames: Seq<FrameView>, version: TagVersion) -> Option<
    Seq<char>,
> {
    match field {
        FieldName::Date => if version == TagVersion::Id3v24 {
            or_else(text_of(frames, "TDRC"@), text_of(frames, "TYER"@))
        } else {
            or_else(text_of(frames, "TYER"@), text_of(frames, "TDRC"@))
        },
        FieldName::Comment => plain_comment_of(frames),
        FieldName::Txxx(d) => extended_of(frames, d),
        _ => match frame_of(field) {
            Some(id) => text_of(frames, id),
            None => None,
        },
    }
}

/// Whether a character is an ASCII digit.
pub open spec fn is_digit(c: char) -> bool {
    '0' <= c && c <= '9'
}

/// The leading four-digit year of a date such as `2021-06-01`, or the input unchanged.
pub open spec fn year_part(value: Seq<char>) -> Seq<char> {
    if value.len() >= 4 && forall|i: int| 0 <= i < 4 ==> is_digit(#[trigger] value[i]) {
        value.take(4)
    } else {
        value
    }
}

/// The comment frame a `comment` write adds.
pub open spec fn comment_frame(text: Seq<char>) -> FrameView {
    FrameView {
        id: "COMM"@,
        body: BodyView::Comment { lang: "eng"@, description: Seq::empty(), text },
        other_key: UniqueKey::Never,
    }
}

/// The extended text frame a `txxx:<description>` write adds.
pub open spec fn extended_frame(description: Seq<char>, value: Seq<char>) -> FrameView {
    FrameView {
        id: "TXXX"@,
        body: BodyView::ExtendedText { description, value },
        other_key: UniqueKey::Never,
    }
}

/// The frames after writing `value` into `field`.
pub open spec fn written(
    field: FieldName,
    frames: Seq<FrameView>,
    version: TagVersion,
    value: Seq<char>,
) -> Seq<FrameView> {
    match field {
        FieldName::Date => if version == TagVersion::Id3v24 {
            add_result(without_id(frames, "TYER"@), text_frame("TDRC"@, value))
        } else {
            add_result(without_id(frames, "TDRC"@), text_frame("TYER"@, year_part(value)))
        },
        FieldName::Comment => add_result(without_comments(frames, Seq::empty()), comment_frame(value)),
        FieldName::Txxx(d) => add_result(frames, extended_frame(d, value)),
        _ => match frame_of(field) {
            Some(id) => add_result(frames, text_frame(id, value)),
            None => frames,
        },
    }
}

/// The frames after removing `field`.
pub open spec fn removed(field: FieldName, frames: Seq<FrameView>) -> Seq<FrameView> {
    match field {
        FieldName::Date => without_id(without_id(frames, "TDRC"@), "TYER"@),
        FieldName::Comment => without_comments(frames, Seq::empty()),
        FieldName::Txxx(d) => without_extended(frames, d),
        _ => match frame_of(field) {
            Some(id) => without_id(frames, id),
            None => frames,
        },
    }
}

/// The field a frame belongs to, if it has a name.
pub open spec fn field_of_frame(id: Seq<char>, body: BodyView) -> Option<FieldName> {
    if id == "TDRC"@ || id == "TYER"@ {
        Some(FieldName::Date)
    } else if id == "COMM"@ {
        match body {
            BodyView::Comment { description, .. } => if description.len() == 0 {
                Some(FieldName::Comment)
            } else {
                None
            },
            _ => None,
        }
    } else if id == "TXXX"@ {
        match body {
            BodyView::ExtendedText { description, .. } => Some(FieldName::Txxx(description)),
            _ => None,
        }
    } else if id == "TPE1"@ {
        Some(FieldName::Artist)
    } else if id == "TPE2"@ {
        Some(FieldName::AlbumArtist)
    } else if id == "TIT2"@ {
        Some(FieldName::Title)
    } else if id == "TALB"@ {
        Some(FieldName::Album)
    } else if id == "TRCK"@ {
        Some(FieldName::TrackNumber)
    } else if id == "TPOS"@ {
        Some(FieldName::DiscNumber)
    } else if id == "TCON"@ {
        Some(FieldName::Genre)
    } else if id == "TCOM"@ {
        Some(FieldName::Composer)
    } else {
        None
    }
}

/// `first_where` is the least index satisfying the predicate.
pub proof fn lemma_first_where(frames: Seq<FrameView>, pred: spec_fn(FrameView) -> bool, k: int)
    requires
        0 <= k <= frames.len(),
        k < frames.len() ==> pred(frames[k]),
        forall|j: int| 0 <= j < k ==> !pred(#[trigger] frames[j]),
    ensures
        first_where(frames, pred) == k,
{
    reveal(first_where);
    if exists|i: int| 0 <= i < frames.len() && pred(frames[i]) {
        let c = choose|i: int|
            0 <= i < frames.len() && pred(frames[i]) && forall|j: int|
                0 <= j < i ==> !pred(#[trigger] frames[j]);
        let w = choose|i: int| 0 <= i < frames.len() && pred(frames[i]);
        if k == frames.len() {
            assert(!pred(frames[w]));
        }
        assert(exists|i: int|
            0 <= i < frames.len() && pred(frames[i]) && forall|j: int|
                0 <= j < i ==> !pred(#[trigger] frames[j])) by {
            assert(0 <= k < frames.len());
        }
        if c < k {
            assert(!pred(frames[c]));
        }
        if k < c {
            assert(!pred(frames[k]));
        }
    } else {
        if k < frames.len() {
            assert(pred(frames[k]));
        }
    }
}

/// Whether `frames` (as plain values) are the frames `view`.
pub open spec fn frames_match(frames: Seq<FrameData>, view: Seq<FrameView>) -> bool {
    frames.len() == view.len() && forall|i: int|
        0 <= i < frames.len() ==> #[trigger] frames[i]@ == data_of(view[i])
}

/// Compares a string with a literal.
pub fn str_eq(a: &String, b: &str) -> (r: bool)
    ensures
        r == (a@ == b@),
{
    *a == String::from_str(b)
}

/// The index of the first frame with this ID.
fn first_with_id(frames: &Vec<FrameData>, id: &str, Ghost(view): Ghost<Seq<FrameView>>) -> (k: usize)
    requires
        frames_match(frames@, view),
    ensures
        k == first_where(view, has_id(id@)),
{
    let ghost pred = has_id(id@);
    let mut i: usize = 0;
    while i < frames.len()
        invariant
            pred == has_id(id@),
            frames_match(frames@, view),
            i <= frames@.len(),
            forall|j: int| 0 <= j < i ==> !pred(#[trigger] view[j]),
        decreases frames@.len() - i,
    {
        assert(frames@[i as int]@ == data_of(view[i as int]));
        assert(frames@[i as int].id@ == view[i as int].id);
        if str_eq(&frames[i].id, id) {
            assert(pred(view[i as int]));
            proof { lemma_first_where(view, pred, i as int); }
            return i;
        }
        i = i + 1;
    }
    proof { lemma_first_where(view, pred, i as int); }
    i
}

/// The text of the first frame with this ID, when it holds text.
fn text_in(frames: &Vec<FrameData>, id: &str, Ghost(view): Ghost<Seq<FrameView>>) -> (r: Option<String>)
    requires
        frames_match(frames@, view),
    ensures
        opt_view(r) == text_of(view, id@),
{
    let k = first_with_id(frames, id, Ghost(view));
    if k < frames.len() {
        assert(frames@[k as int]@ == data_of(view[k as int]));
        match &frames[k].body {
            FrameBody::Text(t) => Some(t.clone()),
            _ => None,
        }
    } else {
        None
    }
}

/// The text of the first comment with an empty description.
fn plain_comment_in(frames: &Vec<FrameData>, Ghost(view): Ghost<Seq<FrameView>>) -> (r: Option<String>)
    requires
        frames_match(frames@, view),
    ensures
        opt_view(r) == plain_comment_of(view),
{
    let ghost pred = plain_comment_pred();
    let mut i: usize = 0;
    while i < frames.len()
        invariant
            pred == plain_comment_pred(),
            frames_match(frames@, view),
            i <= frames@.len(),
            forall|j: int| 0 <= j < i ==> !pred(#[trigger] view[j]),
        decreases frames@.len() - i,
    {
        assert(frames@[i as int]@ == data_of(view[i as int]));
        match &frames[i].body {
            FrameBody::Comment { description, text, .. } => {
                if description.unicode_len() == 0 {
                    proof { lemma_first_where(view, pred, i as int); }
                    return Some(text.clone());
                }
            },
            _ => {},
        }
        i = i + 1;
    }
    proof { lemma_first_where(view, pred, i as int); }
    None
}

/// The value of the first extended text with this description.
fn extended_in(frames: &Vec<FrameData>, description: &String, Ghost(view): Ghost<Seq<FrameView>>) -> (r:
    Option<String>)
    requires
        frames_match(frames@, view),
    ensures
        opt_view(r) == extended_of(view, description@),
{
    let ghost pred = extended_pred(description@);
    let mut i: usize = 0;
    while i < frames.len()
        invariant
            pred == extended_pred(description@),
            frames_match(frames@, view),
            i <= frames@.len(),
            forall|j: int| 0 <= j < i ==> !pred(#[trigger] view[j]),
        decreases frames@.len() - i,
    {
        assert(frames@[i as int]@ == data_of(view[i as int]));
        match &frames[i].body {
            FrameBody::ExtendedText { description: d, value } => {
                if *d == *description {
                    proof { lemma_first_where(view, pred, i as int); }
                    return Some(value.clone());
                }
            },
            _ => {},
        }
        i = i + 1;
    }
    proof { lemma_first_where(view, pred, i as int); }
    None
}

/// The recording date: TDRC first on ID3v2.4, TYER first otherwise.
fn read_date(frames: &Vec<FrameData>, version: TagVersion, Ghost(view): Ghost<Seq<FrameView>>) -> (r:
    Option<String>)
    requires
        frames_match(frames@, view),
    ensures
        opt_view(r) == field_value(FieldName::Date, view, version),
{
    let v24 = version == TagVersion::Id3v24;
    let first = if v24 { text_in(frames, "TDRC", Ghost(view)) } else { text_in(frames, "TYER", Ghost(view)) };
    match first {
        Some(t) => Some(t),
        None => if v24 { text_in(frames, "TYER", Ghost(view)) } else { text_in(frames, "TDRC", Ghost(view)) },
    }
}

/// The leading four-digit year of a date such as `2021-06-01`, or the input unchanged.
pub fn year_of(value: &str) -> (r: String)
    ensures
        r@ == year_part(value@),
{
    let cs = chars_of(value);
    if cs.len() >= 4 && '0' <= cs[0] && cs[0] <= '9' && '0' <= cs[1] && cs[1] <= '9' && '0' <= cs[2]
        && cs[2] <= '9' && '0' <= cs[3] && cs[3] <= '9' {
        assert(forall|i: int| 0 <= i < 4 ==> is_digit(#[trigger] value@[i]));
        String::from_str(value.substring_char(0, 4))
    } else {
        proof {
            if value@.len() >= 4 && forall|i: int| 0 <= i < 4 ==> is_digit(#[trigger] value@[i]) {
                assert(is_digit(value@[0]) && is_digit(value@[1]) && is_digit(value@[2]) && is_digit(value@[3]));
            }
        }
        String::from_str(value)
    }
}

impl TagField {
    /// The field a frame belongs to, if idk has a name for it.
    pub fn of_frame(frame: &FrameData) -> (r: Option<TagField>)
        ensures
            match r {
                Some(f) => field_of_frame(frame.id@, frame.body@) == Some(f@),
                None => field_of_frame(frame.id@, frame.body@) is None,
            },
    {
        let id = &frame.id;
        if str_eq(id, "TDRC") || str_eq(id, "TYER") {
            Some(TagField::Date)
        } else if str_eq(id, "COMM") {
            match &frame.body {
                FrameBody::Comment { description, .. } => if description.unicode_len() == 0 {
                    Some(TagField::Comment)
                } else {
                    None
                },
                _ => None,
            }
        } else if str_eq(id, "TXXX") {
            match &frame.body {
                FrameBody::ExtendedText { description, .. } => Some(TagField::Txxx(description.clone())),
                _ => None,
            }
        } else if str_eq(id, "TPE1") {
            Some(TagField::Artist)
        } else if str_eq(id, "TPE2") {
            Some(TagField::AlbumArtist)
        } else if str_eq(id, "TIT2") {
            Some(TagField::Title)
        } else if str_eq(id, "TALB") {
            Some(TagField::Album)
        } else if str_eq(id, "TRCK") {
            Some(TagField::TrackNumber)
        } else if str_eq(id, "TPOS") {
            Some(TagField::DiscNumber)
        } else if str_eq(id, "TCON") {
            Some(TagField::Genre)
        } else if str_eq(id, "TCOM") {
            Some(TagField::Composer)
        } else {
            None
        }
    }

    /// Reads this field's value from `tag`, if present.
    pub fn read(&self, tag: &Tag) -> (r: Option<String>)
        ensures
            opt_view(r) == field_value(self@, tag_frames(*tag), tag_version(*tag)),
    {
        let frames = frames_data(tag);
        let ghost view = tag_frames(*tag);
        assert(frames_match(frames@, view));
        self.read_frames(&frames, version_of(tag), Ghost(view))
    }

    /// Reads this field's value from a tag's frames.
    fn read_frames(&self, frames: &Vec<FrameData>, version: TagVersion, Ghost(view): Ghost<
        Seq<FrameView>,
    >) -> (r: Option<String>)
        requires
            frames_match(frames@, view),
        ensures
            opt_view(r) == field_value(self@, view, version),
    {
        match self {
            TagField::Date => read_date(frames, version, Ghost(view)),
            TagField::Comment => plain_comment_in(frames, Ghost(view)),
            TagField::Txxx(d) => extended_in(frames, d, Ghost(view)),
            _ => match self.text_frame() {
                Some(id) => text_in(frames, id, Ghost(view)),
                None => None,
            },
        }
    }

    /// Writes `value` into this field, replacing any existing value.
    pub fn write(&self, tag: &mut Tag, value: &str)
        ensures
            tag_frames(*final(tag)) == written(self@, tag_frames(*old(tag)), tag_version(*old(tag)), value@),
            tag_version(*final(tag)) == tag_version(*old(tag)),
    {
        proof {
            reveal_strlit("TDRC");
            reveal_strlit("TYER");
            reveal_strlit("TPE1");
            reveal_strlit("TPE2");
            reveal_strlit("TIT2");
            reveal_strlit("TALB");
            reveal_strlit("TRCK");
            reveal_strlit("TPOS");
            reveal_strlit("TCON");
            reveal_strlit("TCOM");
        }
        match self {
            TagField::Date => {
                if version_of(tag) == TagVersion::Id3v24 {
                    remove_id(tag, "TYER");
                    set_text(tag, "TDRC", value);
                } else {
                    // ID3v2.3 has no full date frame; TYER holds only the year.
                    remove_id(tag, "TDRC");
                    let year = year_of(value);
                    set_text(tag, "TYER", year.as_str());
                }
            },
            TagField::Comment => {
                proof {
                    reveal_strlit("");
                    assert(""@ =~= Seq::<char>::empty());
                }
                remove_comment(tag, "");
                let frame = NewFrame::Comment {
                    lang: String::from_str("eng"),
                    description: String::new(),
                    text: String::from_str(value),
                };
                proof {
                    assert(frame.frame_view().body == comment_frame(value@).body);
                }
                add_frame(tag, frame);
            },
            TagField::Txxx(description) => {
                let frame = NewFrame::ExtendedText {
                    description: description.clone(),
                    value: String::from_str(value),
                };
                add_frame(tag, frame);
            },
            _ => match self.text_frame() {
                Some(id) => set_text(tag, id, value),
                None => {},
            },
        }
    }

    /// Removes this field from `tag`.
    ///
    /// `date` removes both TDRC and TYER; `comment` removes only comments with an
    /// empty description; `txxx:<desc>` removes only that description.
    pub fn remove(&self, tag: &mut Tag)
        ensures
            tag_frames(*final(tag)) == removed(self@, tag_frames(*old(tag))),
            tag_version(*final(tag)) == tag_version(*old(tag)),
    {
        match self {
            TagField::Date => {
                remove_id(tag, "TDRC");
                remove_id(tag, "TYER");
            },
            TagField::Comment => {
                proof {
                    reveal_strlit("");
                    assert(""@ =~= Seq::<char>::empty());
                }
                remove_comment(tag, "");
            },
            TagField::Txxx(description) => remove_extended_text(tag, description.as_str()),
            _ => match self.text_frame() {
                Some(id) => remove_id(tag, id),
                None => {},
            },
        }
    }
}

} // verus!
