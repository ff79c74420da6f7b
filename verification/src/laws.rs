//! Properties that hold across the operations.

use crate::apply::{applied, applied_all, duplicate_errors, last_before};
use crate::field_laws::{law_write_then_read, read_after_write, reads_back};
use crate::find::{condition_holds, values_equal, ConditionView, OperandView};
use crate::id3_tag::{FrameView, TagVersion};
use crate::outcome::{changes_between, diff_plan, Plan};
use crate::show::{
    keys_of, least_free, lemma_free_suffix_bound, lemma_least_free, shown_entries, suffixed,
    unique_key_of,
};
use crate::tag_field::{accepts_name, ascii_eq_ci, field_value, frame_of, names_of, parse_field, written, FieldName};
use crate::text::ascii_lower;
use id3::Tag;
use vstd::prelude::*;

verus! {

/// Some `key#n` is free, and `least_free` names the first.
proof fn lemma_least_free_is_free(keys: Seq<Seq<char>>, key: Seq<char>, k: nat)
    requires
        2 <= k,
        keys.contains(key),
        forall|m: nat| 2 <= m < k ==> keys.contains(#[trigger] suffixed(key, m)),
    ensures
        !keys.contains(suffixed(key, least_free(keys, key))),
    decreases keys.len() + 2 - k,
{
    lemma_free_suffix_bound(keys, key, k);
    if !keys.contains(suffixed(key, k)) {
        lemma_least_free(keys, key, k);
    } else {
        lemma_free_suffix_bound(keys, key, k + 1);
        lemma_least_free_is_free(keys, key, k + 1);
    }
}

/// The key given to a new entry is not taken.
proof fn lemma_unique_key_is_new(keys: Seq<Seq<char>>, key: Seq<char>)
    ensures
        !keys.contains(unique_key_of(keys, key)),
{
    if keys.contains(key) {
        lemma_least_free_is_free(keys, key, 2);
    }
}

/// `idk show` never lists two entries under one key, so its JSON objects keep
/// every entry.
pub proof fn law_shown_keys_are_unique(frames: Seq<FrameView>, fields: Seq<FieldName>, verbose: bool)
    ensures
        keys_of(shown_entries(frames, fields, verbose)).no_duplicates(),
    decreases frames.len(),
{
    if frames.len() > 0 {
        let before = shown_entries(frames.drop_last(), fields, verbose);
        law_shown_keys_are_unique(frames.drop_last(), fields, verbose);
        let after = shown_entries(frames, fields, verbose);
        if after != before {
            let keys = keys_of(before);
            let new_key = after.last().0;
            lemma_unique_key_is_new(keys, crate::show::entry_key(frames.last()));
            assert(keys_of(after) =~= keys.push(new_key));
            assert forall|i: int, j: int|
                0 <= i < keys_of(after).len() && 0 <= j < keys_of(after).len() && i != j implies keys_of(
                after,
            )[i] != keys_of(after)[j] by {
                if i == keys.len() as int {
                    assert(keys.contains(keys[j]));
                } else if j == keys.len() as int {
                    assert(keys.contains(keys[i]));
                }
            }
        }
    }
}

/// Every edit sets a field to the value `idk show` prints for it.
pub open spec fn shows_current(
    edits: Seq<(FieldName, Option<Seq<char>>)>,
    frames: Seq<FrameView>,
    version: TagVersion,
) -> bool {
    forall|i: int|
        0 <= i < edits.len() ==> (field_value(#[trigger] edits[i].0, frames, version) matches Some(v)
            && edits[i].1 == Some(crate::show::nul_joined(v)))
}

/// No field reads differently in a tag compared with itself.
proof fn lemma_no_changes_against_itself(fields: Seq<FieldName>, frames: Seq<FrameView>, version: TagVersion)
    ensures
        changes_between(fields, frames, version, frames, version).len() == 0,
    decreases fields.len(),
{
    if fields.len() > 0 {
        lemma_no_changes_against_itself(fields.drop_last(), frames, version);
    }
}

/// Applying `idk show --json` output unedited leaves every tag as it is: each
/// value equals what is shown, so nothing is written.
pub proof fn law_unedited_show_output_is_a_no_op(
    edits: Seq<(FieldName, Option<Seq<char>>)>,
    frames: Seq<FrameView>,
    version: TagVersion,
)
    requires
        shows_current(edits, frames, version),
    ensures
        applied_all(edits, frames, version) == frames,
        changes_between(
            edits.map_values(|e: (FieldName, Option<Seq<char>>)| e.0),
            frames,
            version,
            applied_all(edits, frames, version),
            version,
        ).len() == 0,
    decreases edits.len(),
{
    if edits.len() > 0 {
        let rest = edits.drop_last();
        assert(shows_current(rest, frames, version)) by {
            assert forall|i: int| 0 <= i < rest.len() implies (field_value(
                #[trigger] rest[i].0,
                frames,
                version,
            ) matches Some(v) && rest[i].1 == Some(crate::show::nul_joined(v))) by {
                assert(rest[i] == edits[i]);
            }
        }
        law_unedited_show_output_is_a_no_op(rest, frames, version);
        assert(field_value(edits[edits.len() - 1].0, frames, version) is Some);
    }
    lemma_no_changes_against_itself(
        edits.map_values(|e: (FieldName, Option<Seq<char>>)| e.0),
        frames,
        version,
    );
}

/// A plan whose tag ends up as it started writes nothing.
pub proof fn law_same_frames_plan_nothing(
    p: Plan,
    fields: Seq<FieldName>,
    frames: Seq<FrameView>,
    version: TagVersion,
)
    requires
        diff_plan(p, fields, frames, version, frames, version),
    ensures
        p is Unchanged,
{
    lemma_no_changes_against_itself(fields, frames, version);
}

/// Writing a field's current value back changes nothing a reader sees (so
/// `copy`, `merge` and `set` leave such files unchanged), provided the tag holds
/// no competing frame for the field and the value survives the write as is.
pub proof fn law_rewriting_current_value_changes_nothing(
    field: FieldName,
    frames: Seq<FrameView>,
    version: TagVersion,
    value: Seq<char>,
)
    requires
        reads_back(field, frames, version),
        field_value(field, frames, version) == Some(value),
        read_after_write(field, version, value) == value,
    ensures
        changes_between(seq![field], frames, version, written(field, frames, version, value), version).len()
            == 0,
{
    assert(frame_of(field) is Some || field is Date || field is Comment || field is Txxx);
    law_write_then_read(field, frames, version, value);
    let after = written(field, frames, version, value);
    assert(seq![field].drop_last() =~= Seq::<FieldName>::empty());
    assert(changes_between(Seq::<FieldName>::empty(), frames, version, after, version).len() == 0);
}

/// `--missing FIELD` holds exactly when `--present FIELD` does not.
pub proof fn law_missing_is_not_present(field: FieldName, tag: Option<Tag>, ignore_case: bool)
    ensures
        condition_holds(ConditionView::Missing(field), tag, ignore_case) == !condition_holds(
            ConditionView::Present(field),
            tag,
            ignore_case,
        ),
{
}

/// `FIELD!=VALUE` holds exactly when `FIELD=VALUE` does not.
pub proof fn law_negation_flips_comparison(
    field: FieldName,
    operand: OperandView,
    tag: Option<Tag>,
    ignore_case: bool,
)
    ensures
        condition_holds(ConditionView::Compare { field, operand, negate: true }, tag, ignore_case)
            == !condition_holds(
            ConditionView::Compare { field, operand, negate: false },
            tag,
            ignore_case,
        ),
{
}

/// Comparing a field with itself (`FIELD=@FIELD`) always holds.
pub proof fn law_field_equals_itself(field: FieldName, tag: Option<Tag>, ignore_case: bool)
    ensures
        condition_holds(
            ConditionView::Compare { field, operand: OperandView::Field(field), negate: false },
            tag,
            ignore_case,
        ),
{
}

/// The keys of a list of path pairs.
pub open spec fn resolved_keys(paths: Seq<(Seq<char>, Seq<char>)>) -> Seq<Seq<char>> {
    paths.map_values(|p: (Seq<char>, Seq<char>)| p.1)
}

/// `last_before` finds an earlier equal key exactly when there is one.
proof fn lemma_last_before(keys: Seq<Seq<char>>, key: Seq<char>, i: int)
    requires
        0 <= i <= keys.len(),
    ensures
        last_before(keys, key, i) is Some <==> exists|j: int| 0 <= j < i && keys[j] == key,
    decreases i,
{
    if i > 0 {
        lemma_last_before(keys, key, i - 1);
        if keys[i - 1] == key {
            assert(exists|j: int| 0 <= j < i && keys[j] == key);
        }
    }
}

/// An edit file is accepted exactly when no two entries resolve to the same file.
pub proof fn law_duplicates_rejected_exactly(paths: Seq<(Seq<char>, Seq<char>)>)
    ensures
        duplicate_errors(paths).len() == 0 <==> resolved_keys(paths).no_duplicates(),
    decreases paths.len(),
{
    if paths.len() > 0 {
        let n = paths.len() - 1;
        let rest = paths.drop_last();
        law_duplicates_rejected_exactly(rest);
        let keys = resolved_keys(paths);
        let rest_keys = resolved_keys(rest);
        assert(rest_keys =~= keys.drop_last());
        lemma_last_before(keys, paths[n].1, n);
        assert(keys[n] == paths[n].1);
        if keys.no_duplicates() {
            assert(rest_keys.no_duplicates()) by {
                assert forall|i: int, j: int|
                    0 <= i < rest_keys.len() && 0 <= j < rest_keys.len() && i != j implies rest_keys[i]
                    != rest_keys[j] by {
                    assert(rest_keys[i] == keys[i] && rest_keys[j] == keys[j]);
                }
            }
            assert(!exists|j: int| 0 <= j < n && keys[j] == paths[n].1);
        } else {
            let (a, b) = choose|a: int, b: int|
                0 <= a < keys.len() && 0 <= b < keys.len() && a != b && keys[a] == keys[b];
            if a == n || b == n {
                let other = if a == n {
                    b
                } else {
                    a
                };
                assert(0 <= other < n && keys[other] == paths[n].1);
            } else {
                assert(rest_keys[a] == keys[a] && rest_keys[b] == keys[b]);
                assert(!rest_keys.no_duplicates());
            }
        }
    }
}

/// Tag names are case-insensitive: two names that differ only in ASCII letter
/// case name the same field, except that a `txxx:` description is kept as
/// written.
pub proof fn law_names_ignore_letter_case(s: Seq<char>, t: Seq<char>)
    requires
        ascii_eq_ci(s, t),
    ensures
        parse_field(s) is Some <==> parse_field(t) is Some,
        parse_field(s) matches Some(f) ==> (!(f is Txxx) ==> parse_field(t) == Some(f)),
        parse_field(s) matches Some(FieldName::Txxx(d)) ==> (parse_field(t) == Some(
            FieldName::Txxx(t.skip(5)),
        ) && ascii_eq_ci(d, t.skip(5))),
{
    assert((s.len() > 5 && ascii_eq_ci(s.take(5), "txxx:"@)) == (t.len() > 5 && ascii_eq_ci(
        t.take(5),
        "txxx:"@,
    ))) by {
        if s.len() > 5 {
            let a = s.take(5);
            let b = t.take(5);
            let x = "txxx:"@;
            assert forall|i: int| 0 <= i < 5 implies ascii_lower(#[trigger] a[i]) == ascii_lower(b[i]) by {
                assert(a[i] == s[i] && b[i] == t[i]);
            }
            if ascii_eq_ci(a, x) {
                assert forall|i: int| 0 <= i < b.len() implies ascii_lower(#[trigger] b[i]) == ascii_lower(x[i]) by {
                    assert(ascii_lower(a[i]) == ascii_lower(x[i]));
                }
            }
            if ascii_eq_ci(b, x) {
                assert forall|i: int| 0 <= i < a.len() implies ascii_lower(#[trigger] a[i]) == ascii_lower(x[i]) by {
                    assert(ascii_lower(b[i]) == ascii_lower(x[i]));
                }
            }
        }
    }
    assert forall|f: FieldName| #[trigger] accepts_name(f, s) == accepts_name(f, t) by {
        if accepts_name(f, s) {
            let i = choose|i: int| 0 <= i < names_of(f).len() && ascii_eq_ci(#[trigger] names_of(f)[i], s);
            assert(ascii_eq_ci(names_of(f)[i], t));
        }
        if accepts_name(f, t) {
            let i = choose|i: int| 0 <= i < names_of(f).len() && ascii_eq_ci(#[trigger] names_of(f)[i], t);
            assert(ascii_eq_ci(names_of(f)[i], s));
        }
    }
    if s.len() > 5 && ascii_eq_ci(s.take(5), "txxx:"@) {
        assert forall|i: int| 0 <= i < s.skip(5).len() implies ascii_lower(#[trigger] s.skip(5)[i])
            == ascii_lower(t.skip(5)[i]) by {
            assert(s.skip(5)[i] == s[i + 5] && t.skip(5)[i] == t[i + 5]);
        }
    }
}

/// Whether writing or removing `field` may touch frame `f`: the frames that
/// store the field (for `comment` and `txxx`, every frame of that ID).
pub open spec fn touches(field: FieldName, f: FrameView) -> bool {
    match field {
        FieldName::Date => f.id == "TDRC"@ || f.id == "TYER"@,
        FieldName::Comment => f.id == "COMM"@,
        FieldName::Txxx(_) => f.id == "TXXX"@,
        _ => match frame_of(field) {
            Some(id) => f.id == id,
            None => false,
        },
    }
}

/// Frames a write or removal of `field` leaves alone.
pub open spec fn untouched(field: FieldName) -> spec_fn(FrameView) -> bool {
    |f: FrameView| !touches(field, f)
}

/// Dropping an element the filter rejects does not change the filtered sequence.
proof fn lemma_filter_remove(s: Seq<FrameView>, p: spec_fn(FrameView) -> bool, k: int)
    requires
        0 <= k < s.len(),
        !p(s[k]),
    ensures
        s.remove(k).filter(p) == s.filter(p),
{
    broadcast use Seq::filter_distributes_over_add, Seq::lemma_filter_push;

    let a = s.subrange(0, k);
    let b = s.subrange(k + 1, s.len() as int);
    assert(s.remove(k) =~= a + b);
    assert(s =~= a.push(s[k]) + b);
    assert(a.push(s[k]).filter(p) == a.filter(p));
}

/// Filtering twice with a stronger predicate second is filtering once.
proof fn lemma_filter_filter(s: Seq<FrameView>, q: spec_fn(FrameView) -> bool, p: spec_fn(FrameView) -> bool)
    requires
        forall|f: FrameView| #[trigger] p(f) ==> q(f),
    ensures
        s.filter(q).filter(p) == s.filter(p),
    decreases s.len(),
{
    broadcast use Seq::lemma_filter_push;

    if s.len() > 0 {
        lemma_filter_filter(s.drop_last(), q, p);
        assert(s =~= s.drop_last().push(s.last()));
    } else {
        reveal(Seq::filter);
    }
}

/// Adding a frame the filter rejects, in place of one it also rejects, leaves
/// the filtered frames as they were.
proof fn lemma_add_keeps(frames: Seq<FrameView>, new: FrameView, p: spec_fn(FrameView) -> bool)
    requires
        !p(new),
        forall|f: FrameView| #[trigger] p(f) ==> f.id != new.id,
    ensures
        crate::id3_tag::add_result(frames, new).filter(p) == frames.filter(p),
{
    broadcast use Seq::lemma_filter_push;

    let pred = crate::id3_tag::conflicts_with(new);
    crate::field_laws::lemma_first_where_facts(frames, pred);
    let k = crate::id3_tag::first_where(frames, pred);
    if k < frames.len() {
        assert(crate::id3_tag::conflicts(frames[k], new));
        lemma_filter_remove(frames, p, k);
    }
}

/// Writing a field keeps every frame it does not touch, in order; with the
/// tag version, this is what "every other frame is preserved" means.
pub proof fn law_write_keeps_other_frames(
    field: FieldName,
    frames: Seq<FrameView>,
    version: TagVersion,
    value: Seq<char>,
)
    ensures
        written(field, frames, version, value).filter(untouched(field)) == frames.filter(
            untouched(field),
        ),
{
    let p = untouched(field);
    reveal_strlit("TDRC");
    reveal_strlit("TYER");
    match field {
        FieldName::Date => {
            if version == TagVersion::Id3v24 {
                let q = crate::id3_tag::other_id("TYER"@);
                lemma_filter_filter(frames, q, p);
                lemma_add_keeps(crate::id3_tag::without_id(frames, "TYER"@), crate::id3_tag::text_frame("TDRC"@, value), p);
            } else {
                let q = crate::id3_tag::other_id("TDRC"@);
                lemma_filter_filter(frames, q, p);
                lemma_add_keeps(
                    crate::id3_tag::without_id(frames, "TDRC"@),
                    crate::id3_tag::text_frame("TYER"@, crate::tag_field::year_part(value)),
                    p,
                );
            }
        },
        FieldName::Comment => {
            let q = crate::id3_tag::comment_kept(Seq::empty());
            lemma_filter_filter(frames, q, p);
            lemma_add_keeps(
                crate::id3_tag::without_comments(frames, Seq::empty()),
                crate::tag_field::comment_frame(value),
                p,
            );
        },
        FieldName::Txxx(d) => {
            lemma_add_keeps(frames, crate::tag_field::extended_frame(d, value), p);
        },
        _ => {
            let id = frame_of(field)->0;
            lemma_add_keeps(frames, crate::id3_tag::text_frame(id, value), p);
        },
    }
}

/// Removing a field keeps every frame it does not touch, in order.
pub proof fn law_remove_keeps_other_frames(field: FieldName, frames: Seq<FrameView>)
    ensures
        crate::tag_field::removed(field, frames).filter(untouched(field)) == frames.filter(
            untouched(field),
        ),
{
    let p = untouched(field);
    reveal_strlit("TDRC");
    reveal_strlit("TYER");
    match field {
        FieldName::Date => {
            let once = crate::id3_tag::without_id(frames, "TDRC"@);
            lemma_filter_filter(once, crate::id3_tag::other_id("TYER"@), p);
            lemma_filter_filter(frames, crate::id3_tag::other_id("TDRC"@), p);
        },
        FieldName::Comment => {
            lemma_filter_filter(frames, crate::id3_tag::comment_kept(Seq::empty()), p);
        },
        FieldName::Txxx(d) => {
            lemma_filter_filter(frames, crate::id3_tag::extended_kept(d), p);
        },
        _ => {
            match frame_of(field) {
                Some(id) => lemma_filter_filter(frames, crate::id3_tag::other_id(id), p),
                None => {},
            }
        },
    }
}

} // verus!
