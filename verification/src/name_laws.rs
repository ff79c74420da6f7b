//! The documented field names and frames, and what parsing and `show` make of them.

use crate::id3_tag::{has_id, text_frame, BodyView, FrameView, TagVersion};
use crate::laws::law_names_ignore_letter_case;
use crate::show::{keys_of, nul_joined, shown_entries, verbose_only};
use crate::tag_field::{
    accepts_name, ascii_eq_ci, canonical_name, field_of_frame, field_value, frame_of,
    lemma_first_where, names_of, parse_field, FieldName,
};
use crate::text::ascii_lower;
use vstd::prelude::*;

verus! {

/// The documented names of each fixed-name field: its name, then its aliases
/// (frame IDs among them).
pub open spec fn documented_names() -> Seq<(FieldName, Seq<Seq<char>>)> {
    seq![
        (FieldName::Artist, seq!["artist"@, "tpe1"@]),
        (FieldName::AlbumArtist, seq!["albumartist"@, "album-artist"@, "tpe2"@]),
        (FieldName::Title, seq!["title"@, "tit2"@]),
        (FieldName::Album, seq!["album"@, "talb"@]),
        (FieldName::TrackNumber, seq!["tracknumber"@, "track"@, "trck"@]),
        (FieldName::DiscNumber, seq!["discnumber"@, "disc"@, "tpos"@]),
        (FieldName::Date, seq!["date"@, "year"@, "tdrc"@, "tyer"@]),
        (FieldName::Genre, seq!["genre"@, "tcon"@]),
        (FieldName::Composer, seq!["composer"@, "tcom"@]),
        (FieldName::Comment, seq!["comment"@, "comm"@]),
    ]
}

/// The documented fields stored in one text frame: the field, its name, and
/// the frame.
pub open spec fn documented_text_frames() -> Seq<(FieldName, Seq<char>, Seq<char>)> {
    seq![
        (FieldName::Artist, "artist"@, "TPE1"@),
        (FieldName::AlbumArtist, "albumartist"@, "TPE2"@),
        (FieldName::Title, "title"@, "TIT2"@),
        (FieldName::Album, "album"@, "TALB"@),
        (FieldName::TrackNumber, "tracknumber"@, "TRCK"@),
        (FieldName::DiscNumber, "discnumber"@, "TPOS"@),
        (FieldName::Genre, "genre"@, "TCON"@),
        (FieldName::Composer, "composer"@, "TCOM"@),
    ]
}

/// A name matches no name of `f` when each differs in length or (ignoring
/// ASCII case) at its first, second or last character.
proof fn lemma_not_a_name_of(f: FieldName, s: Seq<char>)
    requires
        s.len() > 1,
        forall|i: int|
            0 <= i < names_of(f).len() ==> (#[trigger] names_of(f)[i]).len() != s.len()
                || ascii_lower(names_of(f)[i][0]) != ascii_lower(s[0]) || ascii_lower(
                names_of(f)[i][1],
            ) != ascii_lower(s[1]) || ascii_lower(names_of(f)[i][s.len() - 1]) != ascii_lower(
                s[s.len() - 1],
            ),
    ensures
        !accepts_name(f, s),
{
}


/// A name that does not start with `tx` (in any case) is no `txxx:` name.
proof fn not_txxx(s: Seq<char>)
    requires
        s.len() > 1,
        ascii_lower(s[0]) != 't' || ascii_lower(s[1]) != 'x',
    ensures
        !(s.len() > 5 && ascii_eq_ci(s.take(5), "txxx:"@)),
{
    reveal_strlit("txxx:");
    if s.len() > 5 && ascii_eq_ci(s.take(5), "txxx:"@) {
        assert(ascii_lower(s.take(5)[0]) == ascii_lower("txxx:"@[0]));
        assert(ascii_lower(s.take(5)[1]) == ascii_lower("txxx:"@[1]));
    }
}

/// Each documented name, exactly as listed, parses to its field.
proof fn lemma_listed_name_parses(k: int, j: int)
    requires
        0 <= k < documented_names().len(),
        0 <= j < documented_names()[k].1.len(),
    ensures
        parse_field(documented_names()[k].1[j]) == Some(documented_names()[k].0),
{
    reveal_strlit("artist");
    reveal_strlit("tpe1");
    reveal_strlit("albumartist");
    reveal_strlit("album-artist");
    reveal_strlit("tpe2");
    reveal_strlit("title");
    reveal_strlit("tit2");
    reveal_strlit("album");
    reveal_strlit("talb");
    reveal_strlit("tracknumber");
    reveal_strlit("track");
    reveal_strlit("trck");
    reveal_strlit("discnumber");
    reveal_strlit("disc");
    reveal_strlit("tpos");
    reveal_strlit("date");
    reveal_strlit("year");
    reveal_strlit("tdrc");
    reveal_strlit("tyer");
    reveal_strlit("genre");
    reveal_strlit("tcon");
    reveal_strlit("composer");
    reveal_strlit("tcom");
    reveal_strlit("comment");
    reveal_strlit("comm");
    reveal_strlit("txxx:");
    if k == 0 && j == 0 {
        let s = "artist"@;
        assert(s == documented_names()[k].1[j]);
        assert(ascii_eq_ci(names_of(FieldName::Artist)[0], s));
        assert(accepts_name(FieldName::Artist, s));
        not_txxx(s);
    }
    if k == 0 && j == 1 {
        let s = "tpe1"@;
        assert(s == documented_names()[k].1[j]);
        assert(ascii_eq_ci(names_of(FieldName::Artist)[1], s));
        assert(accepts_name(FieldName::Artist, s));
        not_txxx(s);
    }
    if k == 1 && j == 0 {
        let s = "albumartist"@;
        assert(s == documented_names()[k].1[j]);
        assert(ascii_eq_ci(names_of(FieldName::AlbumArtist)[0], s));
        assert(accepts_name(FieldName::AlbumArtist, s));
        not_txxx(s);
        lemma_not_a_name_of(FieldName::Artist, s);
    }
    if k == 1 && j == 1 {
        let s = "album-artist"@;
        assert(s == documented_names()[k].1[j]);
        assert(ascii_eq_ci(names_of(FieldName::AlbumArtist)[1], s));
        assert(accepts_name(FieldName::AlbumArtist, s));
        not_txxx(s);
        lemma_not_a_name_of(FieldName::Artist, s);
    }
    if k == 1 && j == 2 {
        let s = "tpe2"@;
        assert(s == documented_names()[k].1[j]);
        assert(ascii_eq_ci(names_of(FieldName::AlbumArtist)[2], s));
        assert(accepts_name(FieldName::AlbumArtist, s));
        not_txxx(s);
        lemma_not_a_name_of(FieldName::Artist, s);
    }
    if k == 2 && j == 0 {
        let s = "title"@;
        assert(s == documented_names()[k].1[j]);
        assert(ascii_eq_ci(names_of(FieldName::Title)[0], s));
        assert(accepts_name(FieldName::Title, s));
        not_txxx(s);
        lemma_not_a_name_of(FieldName::Artist, s);
        lemma_not_a_name_of(FieldName::AlbumArtist, s);
    }
    if k == 2 && j == 1 {
        let s = "tit2"@;
        assert(s == documented_names()[k].1[j]);
        assert(ascii_eq_ci(names_of(FieldName::Title)[1], s));
        assert(accepts_name(FieldName::Title, s));
        not_txxx(s);
        lemma_not_a_name_of(FieldName::Artist, s);
        lemma_not_a_name_of(FieldName::AlbumArtist, s);
    }
    if k == 3 && j == 0 {
        let s = "album"@;
        assert(s == documented_names()[k].1[j]);
        assert(ascii_eq_ci(names_of(FieldName::Album)[0], s));
        assert(accepts_name(FieldName::Album, s));
        not_txxx(s);
        lemma_not_a_name_of(FieldName::Artist, s);
        lemma_not_a_name_of(FieldName::AlbumArtist, s);
        lemma_not_a_name_of(FieldName::Title, s);
    }
    if k == 3 && j == 1 {
        let s = "talb"@;
        assert(s == documented_names()[k].1[j]);
        assert(ascii_eq_ci(names_of(FieldName::Album)[1], s));
        assert(accepts_name(FieldName::Album, s));
        not_txxx(s);
        lemma_not_a_name_of(FieldName::Artist, s);
        lemma_not_a_name_of(FieldName::AlbumArtist, s);
        lemma_not_a_name_of(FieldName::Title, s);
    }
    if k == 4 && j == 0 {
        let s = "tracknumber"@;
        assert(s == documented_names()[k].1[j]);
        assert(ascii_eq_ci(names_of(FieldName::TrackNumber)[0], s));
        assert(accepts_name(FieldName::TrackNumber, s));
        not_txxx(s);
        lemma_not_a_name_of(FieldName::Artist, s);
        lemma_not_a_name_of(FieldName::AlbumArtist, s);
        lemma_not_a_name_of(FieldName::Title, s);
        lemma_not_a_name_of(FieldName::Album, s);
    }
    if k == 4 && j == 1 {
        let s = "track"@;
        assert(s == documented_names()[k].1[j]);
        assert(ascii_eq_ci(names_of(FieldName::TrackNumber)[1], s));
        assert(accepts_name(FieldName::TrackNumber, s));
        not_txxx(s);
        lemma_not_a_name_of(FieldName::Artist, s);
        lemma_not_a_name_of(FieldName::AlbumArtist, s);
        lemma_not_a_name_of(FieldName::Title, s);
        lemma_not_a_name_of(FieldName::Album, s);
    }
    if k == 4 && j == 2 {
        let s = "trck"@;
        assert(s == documented_names()[k].1[j]);
        assert(ascii_eq_ci(names_of(FieldName::TrackNumber)[2], s));
        assert(accepts_name(FieldName::TrackNumber, s));
        not_txxx(s);
        lemma_not_a_name_of(FieldName::Artist, s);
        lemma_not_a_name_of(FieldName::AlbumArtist, s);
        lemma_not_a_name_of(FieldName::Title, s);
        lemma_not_a_name_of(FieldName::Album, s);
    }
    if k == 5 && j == 0 {
        let s = "discnumber"@;
        assert(s == documented_names()[k].1[j]);
        assert(ascii_eq_ci(names_of(FieldName::DiscNumber)[0], s));
        assert(accepts_name(FieldName::DiscNumber, s));
        not_txxx(s);
        lemma_not_a_name_of(FieldName::Artist, s);
        lemma_not_a_name_of(FieldName::AlbumArtist, s);
        lemma_not_a_name_of(FieldName::Title, s);
        lemma_not_a_name_of(FieldName::Album, s);
        lemma_not_a_name_of(FieldName::TrackNumber, s);
    }
    if k == 5 && j == 1 {
        let s = "disc"@;
        assert(s == documented_names()[k].1[j]);
        assert(ascii_eq_ci(names_of(FieldName::DiscNumber)[1], s));
        assert(accepts_name(FieldName::DiscNumber, s));
        not_txxx(s);
        lemma_not_a_name_of(FieldName::Artist, s);
        lemma_not_a_name_of(FieldName::AlbumArtist, s);
        lemma_not_a_name_of(FieldName::Title, s);
        lemma_not_a_name_of(FieldName::Album, s);
        lemma_not_a_name_of(FieldName::TrackNumber, s);
    }
    if k == 5 && j == 2 {
        let s = "tpos"@;
        assert(s == documented_names()[k].1[j]);
        assert(ascii_eq_ci(names_of(FieldName::DiscNumber)[2], s));
        assert(accepts_name(FieldName::DiscNumber, s));
        not_txxx(s);
        lemma_not_a_name_of(FieldName::Artist, s);
        lemma_not_a_name_of(FieldName::AlbumArtist, s);
        lemma_not_a_name_of(FieldName::Title, s);
        lemma_not_a_name_of(FieldName::Album, s);
        lemma_not_a_name_of(FieldName::TrackNumber, s);
    }
    if k == 6 && j == 0 {
        let s = "date"@;
        assert(s == documented_names()[k].1[j]);
        assert(ascii_eq_ci(names_of(FieldName::Date)[0], s));
        assert(accepts_name(FieldName::Date, s));
        not_txxx(s);
        lemma_not_a_name_of(FieldName::Artist, s);
        lemma_not_a_name_of(FieldName::AlbumArtist, s);
        lemma_not_a_name_of(FieldName::Title, s);
        lemma_not_a_name_of(FieldName::Album, s);
        lemma_not_a_name_of(FieldName::TrackNumber, s);
        lemma_not_a_name_of(FieldName::DiscNumber, s);
    }
    if k == 6 && j == 1 {
        let s = "year"@;
        assert(s == documented_names()[k].1[j]);
        assert(ascii_eq_ci(names_of(FieldName::Date)[1], s));
        assert(accepts_name(FieldName::Date, s));
        not_txxx(s);
        lemma_not_a_name_of(FieldName::Artist, s);
        lemma_not_a_name_of(FieldName::AlbumArtist, s);
        lemma_not_a_name_of(FieldName::Title, s);
        lemma_not_a_name_of(FieldName::Album, s);
        lemma_not_a_name_of(FieldName::TrackNumber, s);
        lemma_not_a_name_of(FieldName::DiscNumber, s);
    }
    if k == 6 && j == 2 {
        let s = "tdrc"@;
        assert(s == documented_names()[k].1[j]);
        assert(ascii_eq_ci(names_of(FieldName::Date)[2], s));
        assert(accepts_name(FieldName::Date, s));
        not_txxx(s);
        lemma_not_a_name_of(FieldName::Artist, s);
        lemma_not_a_name_of(FieldName::AlbumArtist, s);
        lemma_not_a_name_of(FieldName::Title, s);
        lemma_not_a_name_of(FieldName::Album, s);
        lemma_not_a_name_of(FieldName::TrackNumber, s);
        lemma_not_a_name_of(FieldName::DiscNumber, s);
    }
    if k == 6 && j == 3 {
        let s = "tyer"@;
        assert(s == documented_names()[k].1[j]);
        assert(ascii_eq_ci(names_of(FieldName::Date)[3], s));
        assert(accepts_name(FieldName::Date, s));
        not_txxx(s);
        lemma_not_a_name_of(FieldName::Artist, s);
        lemma_not_a_name_of(FieldName::AlbumArtist, s);
        lemma_not_a_name_of(FieldName::Title, s);
        lemma_not_a_name_of(FieldName::Album, s);
        lemma_not_a_name_of(FieldName::TrackNumber, s);
        lemma_not_a_name_of(FieldName::DiscNumber, s);
    }
    if k == 7 && j == 0 {
        let s = "genre"@;
        assert(s == documented_names()[k].1[j]);
        assert(ascii_eq_ci(names_of(FieldName::Genre)[0], s));
        assert(accepts_name(FieldName::Genre, s));
        not_txxx(s);
        lemma_not_a_name_of(FieldName::Artist, s);
        lemma_not_a_name_of(FieldName::AlbumArtist, s);
        lemma_not_a_name_of(FieldName::Title, s);
        lemma_not_a_name_of(FieldName::Album, s);
        lemma_not_a_name_of(FieldName::TrackNumber, s);
        lemma_not_a_name_of(FieldName::DiscNumber, s);
        lemma_not_a_name_of(FieldName::Date, s);
    }
    if k == 7 && j == 1 {
        let s = "tcon"@;
        assert(s == documented_names()[k].1[j]);
        assert(ascii_eq_ci(names_of(FieldName::Genre)[1], s));
        assert(accepts_name(FieldName::Genre, s));
        not_txxx(s);
        lemma_not_a_name_of(FieldName::Artist, s);
        lemma_not_a_name_of(FieldName::AlbumArtist, s);
        lemma_not_a_name_of(FieldName::Title, s);
        lemma_not_a_name_of(FieldName::Album, s);
        lemma_not_a_name_of(FieldName::TrackNumber, s);
        lemma_not_a_name_of(FieldName::DiscNumber, s);
        lemma_not_a_name_of(FieldName::Date, s);
    }
    if k == 8 && j == 0 {
        let s = "composer"@;
        assert(s == documented_names()[k].1[j]);
        assert(ascii_eq_ci(names_of(FieldName::Composer)[0], s));
        assert(accepts_name(FieldName::Composer, s));
        not_txxx(s);
        lemma_not_a_name_of(FieldName::Artist, s);
        lemma_not_a_name_of(FieldName::AlbumArtist, s);
        lemma_not_a_name_of(FieldName::Title, s);
        lemma_not_a_name_of(FieldName::Album, s);
        lemma_not_a_name_of(FieldName::TrackNumber, s);
        lemma_not_a_name_of(FieldName::DiscNumber, s);
        lemma_not_a_name_of(FieldName::Date, s);
        lemma_not_a_name_of(FieldName::Genre, s);
    }
    if k == 8 && j == 1 {
        let s = "tcom"@;
        assert(s == documented_names()[k].1[j]);
        assert(ascii_eq_ci(names_of(FieldName::Composer)[1], s));
        assert(accepts_name(FieldName::Composer, s));
        not_txxx(s);
        lemma_not_a_name_of(FieldName::Artist, s);
        lemma_not_a_name_of(FieldName::AlbumArtist, s);
        lemma_not_a_name_of(FieldName::Title, s);
        lemma_not_a_name_of(FieldName::Album, s);
        lemma_not_a_name_of(FieldName::TrackNumber, s);
        lemma_not_a_name_of(FieldName::DiscNumber, s);
        lemma_not_a_name_of(FieldName::Date, s);
        lemma_not_a_name_of(FieldName::Genre, s);
    }
    if k == 9 && j == 0 {
        let s = "comment"@;
        assert(s == documented_names()[k].1[j]);
        assert(ascii_eq_ci(names_of(FieldName::Comment)[0], s));
        assert(accepts_name(FieldName::Comment, s));
        not_txxx(s);
        lemma_not_a_name_of(FieldName::Artist, s);
        lemma_not_a_name_of(FieldName::AlbumArtist, s);
        lemma_not_a_name_of(FieldName::Title, s);
        lemma_not_a_name_of(FieldName::Album, s);
        lemma_not_a_name_of(FieldName::TrackNumber, s);
        lemma_not_a_name_of(FieldName::DiscNumber, s);
        lemma_not_a_name_of(FieldName::Date, s);
        lemma_not_a_name_of(FieldName::Genre, s);
        lemma_not_a_name_of(FieldName::Composer, s);
    }
    if k == 9 && j == 1 {
        let s = "comm"@;
        assert(s == documented_names()[k].1[j]);
        assert(ascii_eq_ci(names_of(FieldName::Comment)[1], s));
        assert(accepts_name(FieldName::Comment, s));
        not_txxx(s);
        lemma_not_a_name_of(FieldName::Artist, s);
        lemma_not_a_name_of(FieldName::AlbumArtist, s);
        lemma_not_a_name_of(FieldName::Title, s);
        lemma_not_a_name_of(FieldName::Album, s);
        lemma_not_a_name_of(FieldName::TrackNumber, s);
        lemma_not_a_name_of(FieldName::DiscNumber, s);
        lemma_not_a_name_of(FieldName::Date, s);
        lemma_not_a_name_of(FieldName::Genre, s);
        lemma_not_a_name_of(FieldName::Composer, s);
    }
}

/// Every documented name of a field (its name, each alias and its frame ID),
/// written in any ASCII letter case, parses to that field.
pub proof fn law_documented_names_parse(k: int, j: int, s: Seq<char>)
    requires
        0 <= k < documented_names().len(),
        0 <= j < documented_names()[k].1.len(),
        ascii_eq_ci(s, documented_names()[k].1[j]),
    ensures
        parse_field(s) == Some(documented_names()[k].0),
{
    let name = documented_names()[k].1[j];
    lemma_listed_name_parses(k, j);
    assert(ascii_eq_ci(name, s)) by {
        assert forall|i: int| 0 <= i < name.len() implies ascii_lower(#[trigger] name[i])
            == ascii_lower(s[i]) by {
            assert(ascii_lower(s[i]) == ascii_lower(name[i]));
        }
    }
    law_names_ignore_letter_case(name, s);
}

/// `txxx:` in any ASCII letter case, followed by a description, names the user
/// text frame with that description, kept as written.
pub proof fn law_txxx_names_parse(s: Seq<char>)
    requires
        s.len() > 5,
        ascii_eq_ci(s.take(5), "txxx:"@),
    ensures
        parse_field(s) == Some(FieldName::Txxx(s.skip(5))),
{
}

/// The frames of a tag holding one text frame.
pub open spec fn one_text_frame(id: Seq<char>, text: Seq<char>) -> Seq<FrameView> {
    seq![text_frame(id, text)]
}

/// `idk show` of a tag holding one text frame that belongs to field `f`.
proof fn lemma_one_text_frame_shown(
    f: FieldName,
    name: Seq<char>,
    id: Seq<char>,
    text: Seq<char>,
    fields: Seq<FieldName>,
)
    requires
        field_of_frame(id, BodyView::Text(text)) == Some(f),
        canonical_name(f) == name,
        !verbose_only(id),
        fields.len() == 0 || fields.contains(f),
    ensures
        shown_entries(one_text_frame(id, text), fields, false) == seq![(name, nul_joined(text))],
{
    let frames = one_text_frame(id, text);
    assert(frames.drop_last() =~= Seq::<FrameView>::empty());
    assert(frames.last() == text_frame(id, text));
    assert(keys_of(Seq::empty()) =~= Seq::<Seq<char>>::empty());
    assert(shown_entries(frames.drop_last(), fields, false) == Seq::<(Seq<char>, Seq<char>)>::empty());
}

/// A field's one text frame, read as the field.
proof fn lemma_one_text_frame_read(f: FieldName, id: Seq<char>, text: Seq<char>, version: TagVersion)
    requires
        frame_of(f) == Some(id),
        !(f is Date || f is Comment || f is Txxx),
    ensures
        field_value(f, one_text_frame(id, text), version) == Some(text),
{
    lemma_first_where(one_text_frame(id, text), has_id(id), 0);
}

/// A field stored in one text frame reads that frame, and `idk show` lists
/// that frame under the field's name, also when only that field is asked for.
pub proof fn law_text_frames_show_by_field_name(k: int, text: Seq<char>, version: TagVersion)
    requires
        0 <= k < documented_text_frames().len(),
    ensures
        ({
            let (f, name, id) = documented_text_frames()[k];
            let frames = one_text_frame(id, text);
            &&& field_value(f, frames, version) == Some(text)
            &&& shown_entries(frames, Seq::empty(), false) == seq![(name, nul_joined(text))]
            &&& shown_entries(frames, seq![f], false) == seq![(name, nul_joined(text))]
        }),
{
    reveal_strlit("TPE1");
    reveal_strlit("TPE2");
    reveal_strlit("TIT2");
    reveal_strlit("TALB");
    reveal_strlit("TRCK");
    reveal_strlit("TPOS");
    reveal_strlit("TCON");
    reveal_strlit("TCOM");
    reveal_strlit("TDRC");
    reveal_strlit("TYER");
    reveal_strlit("COMM");
    reveal_strlit("TXXX");
    reveal_strlit("PRIV");
    reveal_strlit("TCOP");
    reveal_strlit("TSSE");
    reveal_strlit("artist");
    reveal_strlit("albumartist");
    reveal_strlit("title");
    reveal_strlit("album");
    reveal_strlit("tracknumber");
    reveal_strlit("discnumber");
    reveal_strlit("genre");
    reveal_strlit("composer");
    let (f, name, id) = documented_text_frames()[k];
    assert(seq![f][0] == f);
    if k == 0 {
        assert("TPE1"@[1] != "TDRC"@[1]);
        assert("TPE1"@[1] != "TYER"@[1]);
        assert("TPE1"@[0] != "COMM"@[0]);
        assert("TPE1"@[1] != "TXXX"@[1]);
        assert("TPE1"@[0] != "PRIV"@[0]);
        assert("TPE1"@[1] != "TCOP"@[1]);
        assert("TPE1"@[1] != "TSSE"@[1]);
        assert(f == FieldName::Artist && name == "artist"@ && id == "TPE1"@);
        lemma_one_text_frame_read(f, id, text, version);
        lemma_one_text_frame_shown(f, name, id, text, Seq::empty());
        lemma_one_text_frame_shown(f, name, id, text, seq![f]);
    }
    if k == 1 {
        assert("TPE2"@[1] != "TDRC"@[1]);
        assert("TPE2"@[1] != "TYER"@[1]);
        assert("TPE2"@[0] != "COMM"@[0]);
        assert("TPE2"@[1] != "TXXX"@[1]);
        assert("TPE2"@[3] != "TPE1"@[3]);
        assert("TPE2"@[0] != "PRIV"@[0]);
        assert("TPE2"@[1] != "TCOP"@[1]);
        assert("TPE2"@[1] != "TSSE"@[1]);
        assert(f == FieldName::AlbumArtist && name == "albumartist"@ && id == "TPE2"@);
        lemma_one_text_frame_read(f, id, text, version);
        lemma_one_text_frame_shown(f, name, id, text, Seq::empty());
        lemma_one_text_frame_shown(f, name, id, text, seq![f]);
    }
    if k == 2 {
        assert("TIT2"@[1] != "TDRC"@[1]);
        assert("TIT2"@[1] != "TYER"@[1]);
        assert("TIT2"@[0] != "COMM"@[0]);
        assert("TIT2"@[1] != "TXXX"@[1]);
        assert("TIT2"@[1] != "TPE1"@[1]);
        assert("TIT2"@[1] != "TPE2"@[1]);
        assert("TIT2"@[0] != "PRIV"@[0]);
        assert("TIT2"@[1] != "TCOP"@[1]);
        assert("TIT2"@[1] != "TSSE"@[1]);
        assert(f == FieldName::Title && name == "title"@ && id == "TIT2"@);
        lemma_one_text_frame_read(f, id, text, version);
        lemma_one_text_frame_shown(f, name, id, text, Seq::empty());
        lemma_one_text_frame_shown(f, name, id, text, seq![f]);
    }
    if k == 3 {
        assert("TALB"@[1] != "TDRC"@[1]);
        assert("TALB"@[1] != "TYER"@[1]);
        assert("TALB"@[0] != "COMM"@[0]);
        assert("TALB"@[1] != "TXXX"@[1]);
        assert("TALB"@[1] != "TPE1"@[1]);
        assert("TALB"@[1] != "TPE2"@[1]);
        assert("TALB"@[1] != "TIT2"@[1]);
        assert("TALB"@[0] != "PRIV"@[0]);
        assert("TALB"@[1] != "TCOP"@[1]);
        assert("TALB"@[1] != "TSSE"@[1]);
        assert(f == FieldName::Album && name == "album"@ && id == "TALB"@);
        lemma_one_text_frame_read(f, id, text, version);
        lemma_one_text_frame_shown(f, name, id, text, Seq::empty());
        lemma_one_text_frame_shown(f, name, id, text, seq![f]);
    }
    if k == 4 {
        assert("TRCK"@[1] != "TDRC"@[1]);
        assert("TRCK"@[1] != "TYER"@[1]);
        assert("TRCK"@[0] != "COMM"@[0]);
        assert("TRCK"@[1] != "TXXX"@[1]);
        assert("TRCK"@[1] != "TPE1"@[1]);
        assert("TRCK"@[1] != "TPE2"@[1]);
        assert("TRCK"@[1] != "TIT2"@[1]);
        assert("TRCK"@[1] != "TALB"@[1]);
        assert("TRCK"@[0] != "PRIV"@[0]);
        assert("TRCK"@[1] != "TCOP"@[1]);
        assert("TRCK"@[1] != "TSSE"@[1]);
        assert(f == FieldName::TrackNumber && name == "tracknumber"@ && id == "TRCK"@);
        lemma_one_text_frame_read(f, id, text, version);
        lemma_one_text_frame_shown(f, name, id, text, Seq::empty());
        lemma_one_text_frame_shown(f, name, id, text, seq![f]);
    }
    if k == 5 {
        assert("TPOS"@[1] != "TDRC"@[1]);
        assert("TPOS"@[1] != "TYER"@[1]);
        assert("TPOS"@[0] != "COMM"@[0]);
        assert("TPOS"@[1] != "TXXX"@[1]);
        assert("TPOS"@[2] != "TPE1"@[2]);
        assert("TPOS"@[2] != "TPE2"@[2]);
        assert("TPOS"@[1] != "TIT2"@[1]);
        assert("TPOS"@[1] != "TALB"@[1]);
        assert("TPOS"@[1] != "TRCK"@[1]);
        assert("TPOS"@[0] != "PRIV"@[0]);
        assert("TPOS"@[1] != "TCOP"@[1]);
        assert("TPOS"@[1] != "TSSE"@[1]);
        assert(f == FieldName::DiscNumber && name == "discnumber"@ && id == "TPOS"@);
        lemma_one_text_frame_read(f, id, text, version);
        lemma_one_text_frame_shown(f, name, id, text, Seq::empty());
        lemma_one_text_frame_shown(f, name, id, text, seq![f]);
    }
    if k == 6 {
        assert("TCON"@[1] != "TDRC"@[1]);
        assert("TCON"@[1] != "TYER"@[1]);
        assert("TCON"@[0] != "COMM"@[0]);
        assert("TCON"@[1] != "TXXX"@[1]);
        assert("TCON"@[1] != "TPE1"@[1]);
        assert("TCON"@[1] != "TPE2"@[1]);
        assert("TCON"@[1] != "TIT2"@[1]);
        assert("TCON"@[1] != "TALB"@[1]);
        assert("TCON"@[1] != "TRCK"@[1]);
        assert("TCON"@[1] != "TPOS"@[1]);
        assert("TCON"@[0] != "PRIV"@[0]);
        assert("TCON"@[3] != "TCOP"@[3]);
        assert("TCON"@[1] != "TSSE"@[1]);
        assert(f == FieldName::Genre && name == "genre"@ && id == "TCON"@);
        lemma_one_text_frame_read(f, id, text, version);
        lemma_one_text_frame_shown(f, name, id, text, Seq::empty());
        lemma_one_text_frame_shown(f, name, id, text, seq![f]);
    }
    if k == 7 {
        assert("TCOM"@[1] != "TDRC"@[1]);
        assert("TCOM"@[1] != "TYER"@[1]);
        assert("TCOM"@[0] != "COMM"@[0]);
        assert("TCOM"@[1] != "TXXX"@[1]);
        assert("TCOM"@[1] != "TPE1"@[1]);
        assert("TCOM"@[1] != "TPE2"@[1]);
        assert("TCOM"@[1] != "TIT2"@[1]);
        assert("TCOM"@[1] != "TALB"@[1]);
        assert("TCOM"@[1] != "TRCK"@[1]);
        assert("TCOM"@[1] != "TPOS"@[1]);
        assert("TCOM"@[3] != "TCON"@[3]);
        assert("TCOM"@[0] != "PRIV"@[0]);
        assert("TCOM"@[3] != "TCOP"@[3]);
        assert("TCOM"@[1] != "TSSE"@[1]);
        assert(f == FieldName::Composer && name == "composer"@ && id == "TCOM"@);
        lemma_one_text_frame_read(f, id, text, version);
        lemma_one_text_frame_shown(f, name, id, text, Seq::empty());
        lemma_one_text_frame_shown(f, name, id, text, seq![f]);
    }
}

/// The date reads TDRC on ID3v2.4 and TYER on older tags; `idk show` lists
/// either frame as `date`.
pub proof fn law_date_frames_show_as_date(text: Seq<char>)
    ensures
        field_value(FieldName::Date, one_text_frame("TDRC"@, text), TagVersion::Id3v24) == Some(text),
        field_value(FieldName::Date, one_text_frame("TYER"@, text), TagVersion::Id3v23) == Some(text),
        shown_entries(one_text_frame("TDRC"@, text), Seq::empty(), false) == seq![
            ("date"@, nul_joined(text)),
        ],
        shown_entries(one_text_frame("TYER"@, text), seq![FieldName::Date], false) == seq![
            ("date"@, nul_joined(text)),
        ],
{
    reveal_strlit("TDRC");
    reveal_strlit("TYER");
    reveal_strlit("PRIV");
    reveal_strlit("TCOP");
    reveal_strlit("TSSE");
    reveal_strlit("date");
    assert("TDRC"@[0] != "PRIV"@[0] && "TDRC"@[1] != "TCOP"@[1] && "TDRC"@[1] != "TSSE"@[1]);
    assert("TYER"@[0] != "PRIV"@[0] && "TYER"@[1] != "TCOP"@[1] && "TYER"@[1] != "TSSE"@[1]);
    let a = one_text_frame("TDRC"@, text);
    let b = one_text_frame("TYER"@, text);
    lemma_first_where(a, has_id("TDRC"@), 0);
    lemma_first_where(b, has_id("TYER"@), 0);
    assert(seq![FieldName::Date][0] == FieldName::Date);
    lemma_one_text_frame_shown(FieldName::Date, "date"@, "TDRC"@, text, Seq::empty());
    lemma_one_text_frame_shown(FieldName::Date, "date"@, "TYER"@, text, seq![FieldName::Date]);
}

} // verus!
