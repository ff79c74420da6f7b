//! What reading a field gives back after writing or removing it.

use crate::id3_tag::{
    add_result, comment_kept, conflicts, conflicts_with, extended_kept, other_id, first_where, has_id, keeps_comment, keeps_extended,
    keys_match, text_frame, unique_of, without_comments, without_extended, without_id, BodyView,
    FrameView, TagVersion, UniqueKey,
};
use crate::tag_field::{
    accepts_name, ascii_eq_ci, canonical_name, names_of, parse_field,
    comment_frame, extended_frame, extended_of, extended_pred, field_value, frame_of,
    is_extended_with, is_plain_comment, lemma_first_where, plain_comment_of, plain_comment_pred,
    removed, text_of, written, year_part, FieldName,
};
use crate::text::ascii_lower;
use vstd::prelude::*;
use vstd::utf8::{decode_utf8, encode_utf8, encode_utf8_decode_utf8};

verus! {

/// At most one frame has this ID, and that frame holds text (or other content
/// that `id3` replaces by ID alone).
pub open spec fn single_slot(frames: Seq<FrameView>, id: Seq<char>) -> bool {
    &&& forall|i: int, j: int|
        #![trigger frames[i], frames[j]]
        0 <= i < frames.len() && 0 <= j < frames.len() && frames[i].id == id && frames[j].id == id
            ==> i == j
    &&& forall|i: int|
        0 <= i < frames.len() && #[trigger] frames[i].id == id ==> unique_of(frames[i])
            == UniqueKey::Same
}

/// Comments with an empty description sit only in COMM frames.
pub open spec fn plain_comments_in_comm(frames: Seq<FrameView>) -> bool {
    forall|i: int| 0 <= i < frames.len() && is_plain_comment(#[trigger] frames[i]) ==> frames[i].id == "COMM"@
}

/// Every TXXX frame holds an extended text, extended texts with this
/// description sit only in TXXX frames, and there is at most one.
pub open spec fn single_extended(frames: Seq<FrameView>, description: Seq<char>) -> bool {
    &&& forall|i: int| 0 <= i < frames.len() && #[trigger] frames[i].id == "TXXX"@ ==> frames[i].body is ExtendedText
    &&& forall|i: int|
        0 <= i < frames.len() && is_extended_with(#[trigger] frames[i], description) ==> frames[i].id
            == "TXXX"@
    &&& forall|i: int, j: int|
        #![trigger frames[i], frames[j]]
        0 <= i < frames.len() && 0 <= j < frames.len() && is_extended_with(frames[i], description)
            && is_extended_with(frames[j], description) ==> i == j
}

/// The condition under which writing `field` and reading it back agree.
pub open spec fn reads_back(field: FieldName, frames: Seq<FrameView>, version: TagVersion) -> bool {
    match field {
        FieldName::Date => if version == TagVersion::Id3v24 {
            single_slot(frames, "TDRC"@)
        } else {
            single_slot(frames, "TYER"@)
        },
        FieldName::Comment => plain_comments_in_comm(frames),
        FieldName::Txxx(d) => single_extended(frames, d),
        _ => match frame_of(field) {
            Some(id) => single_slot(frames, id),
            None => true,
        },
    }
}

/// The condition under which a removed field reads as absent.
pub open spec fn reads_absent(field: FieldName, frames: Seq<FrameView>) -> bool {
    match field {
        FieldName::Comment => plain_comments_in_comm(frames),
        FieldName::Txxx(d) => forall|i: int|
            0 <= i < frames.len() && is_extended_with(#[trigger] frames[i], d) ==> frames[i].id
                == "TXXX"@,
        _ => true,
    }
}

/// What reading a field gives after writing `value`: the value itself, except
/// a date on a tag older than ID3v2.4, which keeps only its leading year.
pub open spec fn read_after_write(field: FieldName, version: TagVersion, value: Seq<char>) -> Seq<char> {
    match field {
        FieldName::Date => if version == TagVersion::Id3v24 {
            value
        } else {
            year_part(value)
        },
        _ => value,
    }
}

pub proof fn lemma_first_where_facts(frames: Seq<FrameView>, pred: spec_fn(FrameView) -> bool)
    ensures
        0 <= first_where(frames, pred) <= frames.len(),
        first_where(frames, pred) < frames.len() ==> pred(frames[first_where(frames, pred)]),
        forall|j: int| 0 <= j < first_where(frames, pred) ==> !pred(#[trigger] frames[j]),
{
    reveal(first_where);
    if exists|i: int| 0 <= i < frames.len() && pred(frames[i]) {
        let w = choose|i: int| 0 <= i < frames.len() && pred(frames[i]);
        lemma_least_exists(frames, pred, w);
    }
}

proof fn lemma_least_exists(frames: Seq<FrameView>, pred: spec_fn(FrameView) -> bool, w: int)
    requires
        0 <= w < frames.len(),
        pred(frames[w]),
    ensures
        exists|i: int|
            0 <= i < frames.len() && pred(frames[i]) && forall|j: int|
                0 <= j < i ==> !pred(#[trigger] frames[j]),
    decreases w,
{
    if exists|j: int| 0 <= j < w && pred(frames[j]) {
        let j = choose|j: int| 0 <= j < w && pred(frames[j]);
        lemma_least_exists(frames, pred, j);
    } else {
        assert(forall|j: int| 0 <= j < w ==> !pred(#[trigger] frames[j]));
    }
}

proof fn lemma_filter_subset(s: Seq<FrameView>, p: spec_fn(FrameView) -> bool, k: int)
    requires
        0 <= k < s.filter(p).len(),
    ensures
        exists|m: int| 0 <= m < s.len() && s[m] == #[trigger] s.filter(p)[k],
        p(s.filter(p)[k]),
{
    broadcast use Seq::lemma_filter_contains_rev, Seq::lemma_filter_pred;

    assert(s.filter(p).contains(s.filter(p)[k]));
    assert(s.contains(s.filter(p)[k]));
}

proof fn lemma_filter_single_slot(s: Seq<FrameView>, p: spec_fn(FrameView) -> bool, id: Seq<char>)
    requires
        single_slot(s, id),
    ensures
        single_slot(s.filter(p), id),
    decreases s.len(),
{
    reveal(Seq::filter);
    if s.len() > 0 {
        let rest = s.drop_last();
        assert(single_slot(rest, id)) by {
            assert forall|i: int, j: int|
                #![trigger rest[i], rest[j]]
                0 <= i < rest.len() && 0 <= j < rest.len() && rest[i].id == id && rest[j].id == id
                    implies i == j by {
                assert(s[i] == rest[i] && s[j] == rest[j]);
            }
        }
        lemma_filter_single_slot(rest, p, id);
        let sub = rest.filter(p);
        let out = s.filter(p);
        assert forall|k: int| 0 <= k < out.len() && #[trigger] out[k].id == id implies unique_of(out[k])
            == UniqueKey::Same by {
            lemma_filter_subset(s, p, k);
        }
        if p(s.last()) && s.last().id == id {
            assert forall|k: int| 0 <= k < sub.len() implies #[trigger] sub[k].id != id by {
                lemma_filter_subset(rest, p, k);
                let m = choose|m: int| 0 <= m < rest.len() && rest[m] == #[trigger] sub[k];
                assert(s[m] == rest[m]);
                assert(s[s.len() - 1] == s.last());
            }
            assert(out == sub.push(s.last()));
            assert forall|i: int, j: int|
                #![trigger out[i], out[j]]
                0 <= i < out.len() && 0 <= j < out.len() && out[i].id == id && out[j].id == id
                    implies i == j by {
                if i < sub.len() {
                    assert(out[i] == sub[i]);
                }
                if j < sub.len() {
                    assert(out[j] == sub[j]);
                }
            }
        } else if p(s.last()) {
            assert(out == sub.push(s.last()));
            assert forall|i: int, j: int|
                #![trigger out[i], out[j]]
                0 <= i < out.len() && 0 <= j < out.len() && out[i].id == id && out[j].id == id
                    implies i == j by {
                if i < sub.len() {
                    assert(out[i] == sub[i]);
                }
                if j < sub.len() {
                    assert(out[j] == sub[j]);
                }
            }
        }
    }
}

/// Appending a text frame into a single slot reads back its text.
proof fn lemma_add_text_reads_back(frames: Seq<FrameView>, id: Seq<char>, t: Seq<char>)
    requires
        single_slot(frames, id),
    ensures
        text_of(add_result(frames, text_frame(id, t)), id) == Some(t),
{
    let new = text_frame(id, t);
    let pred = conflicts_with(new);
    lemma_first_where_facts(frames, pred);
    let k = first_where(frames, pred);
    let out = add_result(frames, new);
    if k < frames.len() {
        assert(out == frames.remove(k).push(new));
        assert forall|j: int| 0 <= j < out.len() - 1 implies !(#[trigger] has_id(id)(out[j])) by {
            if j < k {
                assert(out[j] == frames[j]);
            } else {
                assert(out[j] == frames[j + 1]);
            }
        }
    } else {
        assert(out == frames.push(new));
        assert forall|j: int| 0 <= j < out.len() - 1 implies !(#[trigger] has_id(id)(out[j])) by {
            assert(out[j] == frames[j]);
            if frames[j].id == id {
                assert(pred(frames[j]));
            }
        }
    }
    lemma_first_where(out, has_id(id), out.len() - 1);
}

/// No frame with this ID is left after removing it.
proof fn lemma_text_absent(frames: Seq<FrameView>, id: Seq<char>)
    ensures
        text_of(without_id(frames, id), id) is None,
{
    broadcast use Seq::lemma_filter_pred;

    let out = without_id(frames, id);
    assert forall|j: int| 0 <= j < out.len() implies !(#[trigger] has_id(id)(out[j])) by {
        assert(other_id(id)(out[j]));
    }
    lemma_first_where(out, has_id(id), out.len() as int);
}

proof fn lemma_encode_injective(a: Seq<char>, b: Seq<char>)
    requires
        encode_utf8(a) == encode_utf8(b),
    ensures
        a == b,
{
    encode_utf8_decode_utf8(a);
    encode_utf8_decode_utf8(b);
}

/// Writing a field and reading it back gives the written value (a date on a
/// tag older than ID3v2.4 gives its leading year), provided the tag holds no
/// competing frame the write would not replace.
pub proof fn law_write_then_read(
    field: FieldName,
    frames: Seq<FrameView>,
    version: TagVersion,
    value: Seq<char>,
)
    requires
        frame_of(field) is Some || field is Date || field is Comment || field is Txxx,
        reads_back(field, frames, version),
    ensures
        field_value(field, written(field, frames, version, value), version) == Some(
            read_after_write(field, version, value),
        ),
{
    reveal_strlit("TDRC");
    reveal_strlit("TYER");
    match field {
        FieldName::Date => {
            if version == TagVersion::Id3v24 {
                assert("TDRC"@[3] != "TYER"@[3]);
                lemma_filter_single_slot(frames, other_id("TYER"@), "TDRC"@);
                lemma_add_text_reads_back(without_id(frames, "TYER"@), "TDRC"@, value);
            } else {
                lemma_filter_single_slot(frames, other_id("TDRC"@), "TYER"@);
                lemma_add_text_reads_back(without_id(frames, "TDRC"@), "TYER"@, year_part(value));
            }
        },
        FieldName::Comment => lemma_comment_reads_back(frames, value),
        FieldName::Txxx(d) => lemma_extended_reads_back(frames, d, value),
        _ => {
            let id = frame_of(field)->0;
            lemma_add_text_reads_back(frames, id, value);
        },
    }
}

proof fn lemma_no_plain_comment_left(frames: Seq<FrameView>)
    requires
        plain_comments_in_comm(frames),
    ensures
        forall|j: int|
            0 <= j < without_comments(frames, Seq::empty()).len() ==> !is_plain_comment(
                #[trigger] without_comments(frames, Seq::empty())[j],
            ),
{
    let p = comment_kept(Seq::empty());
    let kept = without_comments(frames, Seq::empty());
    assert forall|j: int| 0 <= j < kept.len() implies !is_plain_comment(#[trigger] kept[j]) by {
        lemma_filter_subset(frames, p, j);
        let m = choose|m: int| 0 <= m < frames.len() && frames[m] == #[trigger] kept[j];
        if is_plain_comment(kept[j]) {
            assert(is_plain_comment(frames[m]));
            assert(frames[m].id == "COMM"@);
            let d = frames[m].body->Comment_description;
            assert(d =~= Seq::<char>::empty());
            assert(!keeps_comment(frames[m], Seq::empty()));
        }
    }
}

proof fn lemma_comment_reads_back(frames: Seq<FrameView>, value: Seq<char>)
    requires
        plain_comments_in_comm(frames),
    ensures
        plain_comment_of(add_result(without_comments(frames, Seq::empty()), comment_frame(value)))
            == Some(value),
{
    let kept = without_comments(frames, Seq::empty());
    lemma_no_plain_comment_left(frames);
    let new = comment_frame(value);
    let pred = conflicts_with(new);
    lemma_first_where_facts(kept, pred);
    let k = first_where(kept, pred);
    let out = add_result(kept, new);
    if k < kept.len() {
        assert(out == kept.remove(k).push(new));
        assert forall|j: int| 0 <= j < out.len() - 1 implies !(#[trigger] plain_comment_pred()(out[j])) by {
            if j < k {
                assert(out[j] == kept[j]);
            } else {
                assert(out[j] == kept[j + 1]);
            }
        }
    } else {
        assert(out == kept.push(new));
        assert forall|j: int| 0 <= j < out.len() - 1 implies !(#[trigger] plain_comment_pred()(out[j])) by {
            assert(out[j] == kept[j]);
        }
    }
    lemma_first_where(out, plain_comment_pred(), out.len() - 1);
}

proof fn lemma_extended_reads_back(frames: Seq<FrameView>, d: Seq<char>, value: Seq<char>)
    requires
        single_extended(frames, d),
    ensures
        extended_of(add_result(frames, extended_frame(d, value)), d) == Some(value),
{
    reveal_strlit("TXXX");
    let new = extended_frame(d, value);
    let pred = conflicts_with(new);
    assert forall|j: int| 0 <= j < frames.len() implies (#[trigger] pred(frames[j]) <==> is_extended_with(
        frames[j],
        d,
    )) by {
        if pred(frames[j]) {
            let f = frames[j];
            assert(f.id == "TXXX"@);
            assert(f.body is ExtendedText);
            let fd = f.body->ExtendedText_description;
            assert(seq![encode_utf8(fd)] == seq![encode_utf8(d)]);
            assert(seq![encode_utf8(fd)][0] == seq![encode_utf8(d)][0]);
            lemma_encode_injective(fd, d);
        }
    }
    lemma_first_where_facts(frames, pred);
    let k = first_where(frames, pred);
    let out = add_result(frames, new);
    if k < frames.len() {
        assert(out == frames.remove(k).push(new));
        assert forall|j: int| 0 <= j < out.len() - 1 implies !(#[trigger] extended_pred(d)(out[j])) by {
            if j < k {
                assert(out[j] == frames[j]);
            } else {
                assert(out[j] == frames[j + 1]);
            }
        }
    } else {
        assert(out == frames.push(new));
        assert forall|j: int| 0 <= j < out.len() - 1 implies !(#[trigger] extended_pred(d)(out[j])) by {
            assert(out[j] == frames[j]);
        }
    }
    lemma_first_where(out, extended_pred(d), out.len() - 1);
}

/// Removing a field leaves it unreadable, provided (for `comment` and
/// `txxx:<description>`) no frame outside COMM/TXXX holds such a value.
pub proof fn law_remove_then_read(field: FieldName, frames: Seq<FrameView>, version: TagVersion)
    requires
        reads_absent(field, frames),
    ensures
        field_value(field, removed(field, frames), version) is None,
{
    broadcast use Seq::lemma_filter_pred;

    reveal_strlit("TDRC");
    reveal_strlit("TYER");
    match field {
        FieldName::Date => {
            let once = without_id(frames, "TDRC"@);
            let twice = without_id(once, "TYER"@);
            lemma_text_absent(once, "TYER"@);
            assert forall|j: int| 0 <= j < twice.len() implies !(#[trigger] has_id("TDRC"@)(twice[j])) by {
                lemma_filter_subset(once, other_id("TYER"@), j);
                let m = choose|m: int| 0 <= m < once.len() && once[m] == #[trigger] twice[j];
                assert(other_id("TDRC"@)(once[m]));
            }
            lemma_first_where(twice, has_id("TDRC"@), twice.len() as int);
            lemma_text_absent(once, "TYER"@);
        },
        FieldName::Comment => {
            lemma_no_plain_comment_left(frames);
            let kept = without_comments(frames, Seq::empty());
            lemma_first_where(kept, plain_comment_pred(), kept.len() as int);
        },
        FieldName::Txxx(d) => {
            let p = extended_kept(d);
            let kept = without_extended(frames, d);
            assert forall|j: int| 0 <= j < kept.len() implies !(#[trigger] extended_pred(d)(kept[j])) by {
                lemma_filter_subset(frames, p, j);
                let m = choose|m: int| 0 <= m < frames.len() && frames[m] == #[trigger] kept[j];
                if is_extended_with(kept[j], d) {
                    assert(is_extended_with(frames[m], d));
                }
            }
            lemma_first_where(kept, extended_pred(d), kept.len() as int);
        },
        _ => {
            match frame_of(field) {
                Some(id) => lemma_text_absent(frames, id),
                None => {},
            }
        },
    }
}


/// Whether a name matches no name of `f`: a shorter or longer name, or one that
/// differs (ignoring ASCII case) at its first character.
proof fn lemma_name_differs(f: FieldName, s: Seq<char>)
    requires
        forall|i: int|
            0 <= i < names_of(f).len() ==> (#[trigger] names_of(f)[i]).len() != s.len()
                || ascii_lower(names_of(f)[i][0]) != ascii_lower(s[0]) || ascii_lower(
                names_of(f)[i][s.len() - 1],
            ) != ascii_lower(s[s.len() - 1]),
        s.len() > 0,
    ensures
        !accepts_name(f, s),
{
}

/// The canonical name of every field parses back to that field (for
/// `txxx:<description>`, when the description is not empty).
pub proof fn law_name_round_trip(f: FieldName)
    requires
        f matches FieldName::Txxx(d) ==> d.len() > 0,
    ensures
        parse_field(canonical_name(f)) == Some(f),
{
    reveal_strlit("artist");
    reveal_strlit("tpe1");
    reveal_strlit("albumartist");
    reveal_strlit("album-artist");
    reveal_strlit("tpe2");
    reveal_strlit("title");
    reveal_strlit("tit2");
    reveal_strlit("album");
    reveal_strlit("talb");
    reveal_strlit("tracknumber");
    reveal_strlit("track");
    reveal_strlit("trck");
    reveal_strlit("discnumber");
    reveal_strlit("disc");
    reveal_strlit("tpos");
    reveal_strlit("date");
    reveal_strlit("year");
    reveal_strlit("tdrc");
    reveal_strlit("tyer");
    reveal_strlit("genre");
    reveal_strlit("tcon");
    reveal_strlit("composer");
    reveal_strlit("tcom");
    reveal_strlit("comment");
    reveal_strlit("comm");
    reveal_strlit("txxx:");
    let s = canonical_name(f);
    match f {
        FieldName::Txxx(d) => {
            assert(s.take(5) =~= "txxx:"@);
            assert(s.skip(5) =~= d);
        },
        _ => {
            assert(ascii_eq_ci(names_of(f)[0], s));
            assert(accepts_name(f, s));
            assert(!(s.len() > 5 && ascii_eq_ci(s.take(5), "txxx:"@))) by {
                if s.len() > 5 {
                    assert(ascii_lower(s.take(5)[0]) != ascii_lower("txxx:"@[0])
                        || ascii_lower(s.take(5)[1]) != ascii_lower("txxx:"@[1]));
                }
            }
            if !(f is Artist) {
                lemma_name_differs(FieldName::Artist, s);
            }
            if !(f is Artist) && !(f is AlbumArtist) {
                lemma_name_differs(FieldName::AlbumArtist, s);
            }
            if !(f is Artist) && !(f is AlbumArtist) && !(f is Title) {
                lemma_name_differs(FieldName::Title, s);
            }
            if !(f is Artist) && !(f is AlbumArtist) && !(f is Title) && !(f is Album) {
                lemma_name_differs(FieldName::Album, s);
            }
            if f is DiscNumber || f is Date || f is Genre || f is Composer || f is Comment {
                lemma_name_differs(FieldName::TrackNumber, s);
            }
            if f is Date || f is Genre || f is Composer || f is Comment {
                lemma_name_differs(FieldName::DiscNumber, s);
            }
            if f is Genre || f is Composer || f is Comment {
                lemma_name_differs(FieldName::Date, s);
            }
            if f is Composer || f is Comment {
                lemma_name_differs(FieldName::Genre, s);
            }
            if f is Comment {
                lemma_name_differs(FieldName::Composer, s);
            }
        },
    }
}

} // verus!
