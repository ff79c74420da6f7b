//! `idk show`: a file's tags as `(key, value)` pairs, in frame order.

use crate::id3_tag::{
    frames_data, tag_frames, tag_version, version_of, BodyView, FrameBody, FrameData, FrameView,
    TagVersion,
};
use crate::json::{json_pretty, lemma_array_view, lemma_object_view, to_json_pretty, Json, JsonValue};
use crate::outcome::field_names;
use crate::tag_field::{canonical_name, field_of_frame, frames_match, str_eq, FieldName, TagField};
use crate::text::{concat, decimal, decimal_string, digit_char, push_char};
use id3::Tag;
use vstd::prelude::*;
use vstd::set_lib::{lemma_int_range, lemma_len_subset, lemma_map_size, set_int_range};

verus! {

/// One file's tags, in frame order.
#[derive(Debug, PartialEq, Eq)]
pub struct FileTags {
    /// The ID3v2 version, or `None` when the file has no ID3v2 tag.
    pub version: Option<TagVersion>,
    /// `(key, value)` pairs; keys are field names where known, otherwise frame IDs.
    pub entries: Vec<(String, String)>,
}

/// Frames omitted unless `--verbose`: vendor data (e.g. Amazon's PRIV), copyright
/// notices and encoder settings, which are rarely useful and often very large.
pub open spec fn verbose_only(id: Seq<char>) -> bool {
    id == "PRIV"@ || id == "TCOP"@ || id == "TSSE"@
}

/// How `id3` prints a version (`ID3v2.4`).
pub open spec fn version_text(v: TagVersion) -> Seq<char> {
    match v {
        TagVersion::Id3v22 => "ID3v2.2"@,
        TagVersion::Id3v23 => "ID3v2.3"@,
        TagVersion::Id3v24 => "ID3v2.4"@,
    }
}

/// The `"2.4"` style version string of JSON output.
pub open spec fn version_digits(v: TagVersion) -> Seq<char> {
    match v {
        TagVersion::Id3v22 => "2.2"@,
        TagVersion::Id3v23 => "2.3"@,
        TagVersion::Id3v24 => "2.4"@,
    }
}

/// `text` with every NUL (the ID3v2.4 value separator) replaced by `"; "`.
pub open spec fn nul_joined(text: Seq<char>) -> Seq<char>
    decreases text.len(),
{
    if text.len() == 0 {
        text
    } else {
        let rest = nul_joined(text.drop_last());
        if text.last() == '\0' {
            rest + "; "@
        } else {
            rest.push(text.last())
        }
    }
}

/// The index of the first zero byte, or the length when there is none.
pub open spec fn nul_index(bytes: Seq<u8>) -> nat
    decreases bytes.len(),
{
    if bytes.len() == 0 || bytes[0] == 0 {
        0
    } else {
        1 + nul_index(bytes.skip(1))
    }
}

/// The image format bytes of a raw picture frame: after the one-byte text
/// encoding, a three-letter format (ID3v2.2 `PIC`) or a NUL-terminated MIME type.
pub open spec fn picture_format(id: Seq<char>, data: Seq<u8>) -> Seq<u8> {
    let header = if data.len() == 0 {
        data
    } else {
        data.skip(1)
    };
    if id == "PIC"@ {
        if header.len() >= 3 {
            header.take(3)
        } else {
            header
        }
    } else {
        header.take(nul_index(header) as int)
    }
}

/// What `String::from_utf8_lossy` makes of `bytes`.
pub uninterp spec fn lossy_text(bytes: Seq<u8>) -> Seq<char>;

/// `"{size} bytes"` after a label.
pub open spec fn sized(label: Seq<char>, size: nat) -> Seq<char> {
    label + ", "@ + decimal(size) + " bytes"@
}

/// `image/jpeg, 12345 bytes` for a raw (undecoded) picture frame; `picture` when
/// the format is empty.
pub open spec fn picture_text(id: Seq<char>, data: Seq<u8>) -> Seq<char> {
    let format = lossy_text(picture_format(id, data));
    sized(
        if format.len() == 0 {
            "picture"@
        } else {
            format
        },
        data.len(),
    )
}

/// The human-readable value of a frame. Pictures and private data are
/// summarized, never dumped.
pub open spec fn frame_value_of(f: FrameView) -> Seq<char> {
    match f.body {
        BodyView::Text(text) => nul_joined(text),
        BodyView::ExtendedText { value, .. } => value,
        BodyView::Comment { text, .. } => text,
        BodyView::Unknown { data, version } => if f.id == "APIC"@ || f.id == "PIC"@ {
            picture_text(f.id, data)
        } else {
            sized(version_text(version), data.len())
        },
        BodyView::Private { owner, data } => sized(owner, data.len()),
        BodyView::Other { shown } => shown,
    }
}

/// The key of a frame without a field name: its ID, plus the description for comments.
pub open spec fn frame_key_of(f: FrameView) -> Seq<char> {
    match f.body {
        BodyView::Comment { description, .. } => f.id + ":"@ + description,
        _ => f.id,
    }
}

/// The key of a frame: its field name where it has one.
pub open spec fn entry_key(f: FrameView) -> Seq<char> {
    match field_of_frame(f.id, f.body) {
        Some(name) => canonical_name(name),
        None => frame_key_of(f),
    }
}

/// Whether `idk show` lists a frame: verbose-only frames need `verbose`, and a
/// non-empty `fields` keeps only those fields.
pub open spec fn listed(f: FrameView, fields: Seq<FieldName>, verbose: bool) -> bool {
    &&& verbose || !verbose_only(f.id)
    &&& fields.len() == 0 || (field_of_frame(f.id, f.body) matches Some(name) && fields.contains(
        name,
    ))
}

/// `key` followed by `#n`.
pub open spec fn suffixed(key: Seq<char>, n: nat) -> Seq<char> {
    key + "#"@ + decimal(n)
}

/// The least `n >= 2` for which `key#n` is free.
#[verifier::opaque]
pub open spec fn least_free(keys: Seq<Seq<char>>, key: Seq<char>) -> nat {
    choose|n: nat|
        2 <= n && !keys.contains(suffixed(key, n)) && forall|m: nat|
            2 <= m < n ==> keys.contains(#[trigger] suffixed(key, m))
}

/// `key`, or `key#2`, `key#3`, ... (the first that is free) when `key` is taken.
pub open spec fn unique_key_of(keys: Seq<Seq<char>>, key: Seq<char>) -> Seq<char> {
    if keys.contains(key) {
        suffixed(key, least_free(keys, key))
    } else {
        key
    }
}

/// The keys of a list of entries.
pub open spec fn keys_of(entries: Seq<(Seq<char>, Seq<char>)>) -> Seq<Seq<char>> {
    entries.map_values(|e: (Seq<char>, Seq<char>)| e.0)
}

/// The entries `idk show` lists for a tag's frames, keys made unique in order.
pub open spec fn shown_entries(frames: Seq<FrameView>, fields: Seq<FieldName>, verbose: bool) -> Seq<
    (Seq<char>, Seq<char>),
>
    decreases frames.len(),
{
    if frames.len() == 0 {
        Seq::empty()
    } else {
        let before = shown_entries(frames.drop_last(), fields, verbose);
        let f = frames.last();
        if listed(f, fields, verbose) {
            before.push((unique_key_of(keys_of(before), entry_key(f)), frame_value_of(f)))
        } else {
            before
        }
    }
}

/// Key/value pairs as mathematical values.
pub open spec fn pairs_view(entries: Seq<(String, String)>) -> Seq<(Seq<char>, Seq<char>)> {
    entries.map_values(|e: (String, String)| (e.0@, e.1@))
}

/// `decimal` is one-to-one.
pub proof fn lemma_decimal_injective(a: nat, b: nat)
    requires
        decimal(a) == decimal(b),
    ensures
        a == b,
    decreases a,
{
    if a >= 10 && b >= 10 {
        assert(decimal(a) == decimal(a / 10).push(digit_char(a % 10)));
        assert(decimal(b) == decimal(b / 10).push(digit_char(b % 10)));
        assert(decimal(a / 10) =~= decimal(a).drop_last());
        assert(decimal(b / 10) =~= decimal(b).drop_last());
        lemma_decimal_injective(a / 10, b / 10);
        assert(decimal(a).last() == digit_char(a % 10));
        assert(decimal(b).last() == digit_char(b % 10));
        lemma_digit_injective(a % 10, b % 10);
        assert(a == 10 * (a / 10) + a % 10);
        assert(b == 10 * (b / 10) + b % 10);
    } else if a < 10 && b < 10 {
        assert(decimal(a) == seq![digit_char(a)]);
        assert(decimal(b) == seq![digit_char(b)]);
        assert(digit_char(a) == decimal(a)[0]);
        lemma_digit_injective(a, b);
    } else if a >= 10 {
        assert(decimal(a) == decimal(a / 10).push(digit_char(a % 10)));
        lemma_decimal_nonempty(a / 10);
        assert(decimal(b) == seq![digit_char(b)]);
    } else {
        assert(decimal(b) == decimal(b / 10).push(digit_char(b % 10)));
        lemma_decimal_nonempty(b / 10);
        assert(decimal(a) == seq![digit_char(a)]);
    }
}

/// Distinct digits are distinct characters.
proof fn lemma_digit_injective(a: nat, b: nat)
    requires
        a < 10,
        b < 10,
        digit_char(a) == digit_char(b),
    ensures
        a == b,
{
    assert(digit_char(a) as int == 48 + a);
    assert(digit_char(b) as int == 48 + b);
}

/// `decimal` has at least one digit.
pub proof fn lemma_decimal_nonempty(n: nat)
    ensures
        decimal(n).len() >= 1,
    decreases n,
{
    if n >= 10 {
        lemma_decimal_nonempty(n / 10);
    }
}

/// Distinct suffixes give distinct keys.
proof fn lemma_suffixed_injective(key: Seq<char>, a: nat, b: nat)
    requires
        suffixed(key, a) == suffixed(key, b),
    ensures
        a == b,
{
    let k = key.len() + 1int;
    reveal_strlit("#");
    assert(suffixed(key, a) =~= (key + "#"@) + decimal(a));
    assert((key + "#"@).len() == k);
    assert(suffixed(key, a).skip(k) =~= decimal(a));
    assert(suffixed(key, b).skip(k) =~= decimal(b));
    lemma_decimal_injective(a, b);
}

/// When `key` and `key#2` .. `key#(k-1)` are all taken, there are at least
/// `k - 1` keys: so some `key#n` with `n <= keys.len() + 1` is free.
pub proof fn lemma_free_suffix_bound(keys: Seq<Seq<char>>, key: Seq<char>, k: nat)
    requires
        2 <= k,
        keys.contains(key),
        forall|m: nat| 2 <= m < k ==> keys.contains(#[trigger] suffixed(key, m)),
    ensures
        k <= keys.len() + 1,
{
    let f = |i: int| suffixed(key, i as nat);
    let x = set_int_range(2, k as int);
    lemma_int_range(2, k as int);
    let y = x.map(f);
    assert(vstd::relations::injective_on(f, x)) by {
        assert forall|a: int, b: int| x.contains(a) && x.contains(b) && #[trigger] f(a) == #[trigger] f(b) implies a == b by {
            lemma_suffixed_injective(key, a as nat, b as nat);
        }
    }
    lemma_map_size(x, y, f);
    assert(!y.contains(key)) by {
        if y.contains(key) {
            let i = choose|i: int| x.contains(i) && f(i) == key;
            assert(f(i).len() > key.len());
        }
    }
    let all = y.insert(key);
    assert(all.subset_of(keys.to_set())) by {
        assert forall|s: Seq<char>| all.contains(s) implies keys.to_set().contains(s) by {
            if s != key {
                let i = choose|i: int| x.contains(i) && f(i) == s;
                assert(keys.contains(suffixed(key, i as nat)));
            }
        }
    }
    keys.lemma_cardinality_of_set();
    lemma_len_subset(all, keys.to_set());
}

/// `least_free` is the least free suffix.
pub proof fn lemma_least_free(keys: Seq<Seq<char>>, key: Seq<char>, n: nat)
    requires
        2 <= n,
        !keys.contains(suffixed(key, n)),
        forall|m: nat| 2 <= m < n ==> keys.contains(#[trigger] suffixed(key, m)),
    ensures
        least_free(keys, key) == n,
{
    reveal(least_free);
    let c = least_free(keys, key);
    assert(2 <= c && !keys.contains(suffixed(key, c)) && forall|m: nat|
        2 <= m < c ==> keys.contains(#[trigger] suffixed(key, m)));
    if c < n {
        assert(keys.contains(suffixed(key, c)));
    }
    if n < c {
        assert(keys.contains(suffixed(key, n)));
    }
}

/// Whether some entry has the key `candidate`.
fn taken(entries: &Vec<(String, String)>, candidate: &String) -> (r: bool)
    ensures
        r == keys_of(pairs_view(entries@)).contains(candidate@),
{
    let ghost keys = keys_of(pairs_view(entries@));
    let mut i: usize = 0;
    while i < entries.len()
        invariant
            i <= entries@.len(),
            keys == keys_of(pairs_view(entries@)),
            keys.len() == entries@.len(),
            forall|j: int| 0 <= j < i ==> keys[j] != candidate@,
        decreases entries@.len() - i,
    {
        assert(keys[i as int] == entries@[i as int].0@);
        if str_eq(candidate, entries[i].0.as_str()) {
            return true;
        }
        i = i + 1;
    }
    false
}

/// `key`, or the first of `key#2`, `key#3`, ... that no entry has yet, so that
/// JSON keys stay unique.
pub fn unique_key(entries: &Vec<(String, String)>, key: String) -> (r: String)
    requires
        entries@.len() < usize::MAX,
    ensures
        r@ == unique_key_of(keys_of(pairs_view(entries@)), key@),
{
    let ghost keys = keys_of(pairs_view(entries@));
    if !taken(entries, &key) {
        return key;
    }
    let stem = concat(key.as_str(), "#");
    let mut n: usize = 2;
    loop
        invariant
            keys == keys_of(pairs_view(entries@)),
            keys.len() == entries@.len(),
            keys.contains(key@),
            entries@.len() < usize::MAX,
            stem@ == key@ + "#"@,
            2 <= n <= keys.len() + 1,
            forall|m: nat| 2 <= m < n ==> keys.contains(#[trigger] suffixed(key@, m)),
        decreases keys.len() + 1 - n,
    {
        let candidate = concat(stem.as_str(), decimal_string(n).as_str());
        assert(candidate@ =~= suffixed(key@, n as nat));
        if !taken(entries, &candidate) {
            proof {
                lemma_least_free(keys, key@, n as nat);
            }
            return candidate;
        }
        proof {
            lemma_free_suffix_bound(keys, key@, (n + 1) as nat);
        }
        n = n + 1;
    }
}

/// `text` with every NUL replaced by `"; "`, as `idk show` prints a multi-value text frame.
pub fn display_value(text: &str) -> (r: String)
    ensures
        r@ == nul_joined(text@),
{
    let n = text.unicode_len();
    let mut out = String::new();
    let mut i: usize = 0;
    while i < n
        invariant
            n == text@.len(),
            i <= n,
            out@ == nul_joined(text@.take(i as int)),
        decreases n - i,
    {
        let c = text.get_char(i);
        assert(text@.take(i + 1).drop_last() =~= text@.take(i as int));
        if c == '\0' {
            out.append("; ");
        } else {
            push_char(&mut out, c);
        }
        i = i + 1;
    }
    assert(text@.take(n as int) =~= text@);
    out
}

/// `String::from_utf8_lossy`, owned.
#[verifier::external_body]
fn utf8_lossy(bytes: &[u8]) -> (r: String)
    ensures
        r@ == lossy_text(bytes@),
{
    String::from_utf8_lossy(bytes).into_owned()
}

/// `nul_index` is the position of the first zero byte.
proof fn lemma_nul_index(bytes: Seq<u8>, i: int)
    requires
        0 <= i <= bytes.len(),
        forall|j: int| 0 <= j < i ==> bytes[j] != 0,
        i < bytes.len() ==> bytes[i] == 0,
    ensures
        nul_index(bytes) == i,
    decreases i,
{
    if i > 0 {
        lemma_nul_index(bytes.skip(1), i - 1);
    }
}

/// `image/jpeg, 12345 bytes` for a raw (undecoded) picture frame.
///
/// Pictures are kept undecoded for speed, so the image format is read straight
/// from the frame header: a NUL-terminated MIME type (APIC) or a three-letter
/// format (ID3v2.2 PIC), after the one-byte text encoding.
pub fn picture_summary(id: &str, data: &[u8]) -> (r: String)
    ensures
        r@ == picture_text(id@, data@),
{
    let n = data.len();
    let is_pic = id.unicode_len() == 3 && id.get_char(0) == 'P' && id.get_char(1) == 'I'
        && id.get_char(2) == 'C';
    proof {
        reveal_strlit("PIC");
        if is_pic {
            assert(id@ =~= "PIC"@);
        } else if id@ == "PIC"@ {
            assert(id@[0] == 'P' && id@[1] == 'I' && id@[2] == 'C');
        }
    }
    let ghost header = if n == 0 {
        data@
    } else {
        data@.skip(1)
    };
    let mut end: usize = if n == 0 {
        0
    } else {
        1
    };
    if is_pic {
        end = if n >= 4 {
            4
        } else {
            n
        };
    } else {
        while end < n && data[end] != 0
            invariant
                n == data@.len(),
                n > 0 ==> 1 <= end <= n,
                n == 0 ==> end == 0,
                header == (if n == 0 {
                    data@
                } else {
                    data@.skip(1)
                }),
                forall|j: int| 0 <= j < end - 1 ==> header[j] != 0,
            decreases n - end,
        {
            end = end + 1;
        }
        proof {
            if n > 0 {
                lemma_nul_index(header, end - 1);
            }
        }
    }
    let mut format: Vec<u8> = Vec::new();
    let start: usize = if n == 0 {
        0
    } else {
        1
    };
    let mut i: usize = start;
    while i < end
        invariant
            start <= i <= end <= n,
            n == data@.len(),
            format@ == data@.subrange(start as int, i as int),
        decreases end - i,
    {
        format.push(data[i]);
        i = i + 1;
    }
    proof {
        assert(format@ =~= picture_format(id@, data@));
    }
    let shown = utf8_lossy(format.as_slice());
    let label = if shown.unicode_len() == 0 {
        String::from_str("picture")
    } else {
        shown
    };
    proof {
        reveal_strlit("picture");
    }
    size_label(label.as_str(), n)
}

/// `"{label}, {size} bytes"`.
fn size_label(label: &str, size: usize) -> (r: String)
    ensures
        r@ == sized(label@, size as nat),
{
    let mut out = concat(label, ", ");
    out.append(decimal_string(size).as_str());
    out.append(" bytes");
    out
}

/// How `id3` prints a version (`ID3v2.4`).
pub fn version_label(version: TagVersion) -> (r: &'static str)
    ensures
        r@ == version_text(version),
{
    match version {
        TagVersion::Id3v22 => "ID3v2.2",
        TagVersion::Id3v23 => "ID3v2.3",
        TagVersion::Id3v24 => "ID3v2.4",
    }
}

/// `"2.4"` style version string for JSON output.
pub fn version_number(version: TagVersion) -> (r: &'static str)
    ensures
        r@ == version_digits(version),
{
    match version {
        TagVersion::Id3v22 => "2.2",
        TagVersion::Id3v23 => "2.3",
        TagVersion::Id3v24 => "2.4",
    }
}

/// The human-readable value of a frame.
fn frame_value(frame: &FrameData, Ghost(f): Ghost<FrameView>) -> (r: String)
    requires
        frame@ == (f.id, f.body),
    ensures
        r@ == frame_value_of(f),
{
    match &frame.body {
        FrameBody::Text(text) => display_value(text.as_str()),
        FrameBody::ExtendedText { value, .. } => value.clone(),
        FrameBody::Comment { text, .. } => text.clone(),
        FrameBody::Unknown { data, version } => {
            let id = frame.id.as_str();
            if str_eq(&frame.id, "APIC") || str_eq(&frame.id, "PIC") {
                picture_summary(id, data.as_slice())
            } else {
                size_label(version_label(*version), data.len())
            }
        },
        FrameBody::Private { owner, data } => size_label(owner.as_str(), data.len()),
        FrameBody::Other { shown } => shown.clone(),
    }
}

/// The key of a frame without a field name: its ID, plus the description for comments.
fn frame_key(frame: &FrameData, Ghost(f): Ghost<FrameView>) -> (r: String)
    requires
        frame@ == (f.id, f.body),
    ensures
        r@ == frame_key_of(f),
{
    match &frame.body {
        FrameBody::Comment { description, .. } => {
            let mut key = concat(frame.id.as_str(), ":");
            key.append(description.as_str());
            key
        },
        _ => frame.id.clone(),
    }
}

/// Whether `field` is one of `fields`.
fn contains_field(fields: &Vec<TagField>, field: &TagField) -> (r: bool)
    ensures
        r == field_names(fields@).contains(field@),
{
    let mut i: usize = 0;
    while i < fields.len()
        invariant
            i <= fields@.len(),
            field_names(fields@).len() == fields@.len(),
            forall|j: int| 0 <= j < i ==> field_names(fields@)[j] != field@,
        decreases fields@.len() - i,
    {
        assert(field_names(fields@)[i as int] == fields@[i as int]@);
        if fields[i].same_as(field) {
            return true;
        }
        i = i + 1;
    }
    false
}

/// Whether a frame is verbose-only.
fn is_verbose_only(id: &String) -> (r: bool)
    ensures
        r == verbose_only(id@),
{
    str_eq(id, "PRIV") || str_eq(id, "TCOP") || str_eq(id, "TSSE")
}

/// Reads the tags of a file (`None` when it has no ID3v2 tag), keeping only
/// `fields` when it is non-empty.
///
/// Verbose-only frames (PRIV, TCOP, TSSE) are skipped unless `verbose` is set.
pub fn read_tags(tag: Option<&Tag>, fields: &Vec<TagField>, verbose: bool) -> (r: FileTags)
    ensures
        r.version == (match tag {
            Some(t) => Some(tag_version(*t)),
            None => None,
        }),
        pairs_view(r.entries@) == (match tag {
            Some(t) => shown_entries(tag_frames(*t), field_names(fields@), verbose),
            None => Seq::empty(),
        }),
{
    let tag = match tag {
        Some(t) => t,
        None => {
            return FileTags { version: None, entries: Vec::new() };
        },
    };
    let frames = frames_data(tag);
    let ghost view = tag_frames(*tag);
    let ghost names = field_names(fields@);
    let mut entries: Vec<(String, String)> = Vec::new();
    let mut i: usize = 0;
    while i < frames.len()
        invariant
            frames_match(frames@, view),
            view == tag_frames(*tag),
            names == field_names(fields@),
            i <= frames@.len(),
            entries@.len() <= i,
            pairs_view(entries@) == shown_entries(view.take(i as int), names, verbose),
        decreases frames@.len() - i,
    {
        let frame = &frames[i];
        let ghost f = view[i as int];
        assert(view.take(i + 1).drop_last() =~= view.take(i as int));
        assert(view.take(i + 1).last() == f);
        assert(frame@ == (f.id, f.body));
        let field = TagField::of_frame(frame);
        let hidden = !verbose && is_verbose_only(&frame.id);
        let wanted = fields.len() == 0 || match &field {
            Some(field) => contains_field(fields, field),
            None => false,
        };
        if !hidden && wanted {
            let key = match &field {
                Some(field) => field.name(),
                None => frame_key(frame, Ghost(f)),
            };
            let key = unique_key(&entries, key);
            let value = frame_value(frame, Ghost(f));
            entries.push((key, value));
            assert(pairs_view(entries@) =~= pairs_view(entries@).drop_last().push(
                (key@, value@),
            ));
        }
        i = i + 1;
    }
    assert(view.take(frames@.len() as int) =~= view);
    FileTags { version: Some(version_of(tag)), entries }
}

/// The lines `idk show` prints for one file: a header, then one indented
/// `key: value` line per entry.
pub open spec fn rendered(path: Seq<char>, version: Option<TagVersion>, entries: Seq<
    (Seq<char>, Seq<char>),
>) -> Seq<char>
    decreases entries.len(),
{
    if entries.len() == 0 {
        path + " ("@ + (match version {
            Some(v) => version_text(v),
            None => "no ID3v2 tag"@,
        }) + ")\n"@
    } else {
        let (key, value) = entries.last();
        rendered(path, version, entries.drop_last()) + "  "@ + key + ": "@ + value + "\n"@
    }
}

/// Renders one file for readable output.
pub fn render_text(path: &str, tags: &FileTags) -> (r: String)
    ensures
        r@ == rendered(path@, tags.version, pairs_view(tags.entries@)),
{
    let mut out = concat(path, " (");
    match tags.version {
        Some(v) => out.append(version_label(v)),
        None => out.append("no ID3v2 tag"),
    }
    out.append(")\n");
    let ghost all = pairs_view(tags.entries@);
    let mut i: usize = 0;
    while i < tags.entries.len()
        invariant
            i <= tags.entries@.len(),
            all == pairs_view(tags.entries@),
            out@ == rendered(path@, tags.version, all.take(i as int)),
        decreases tags.entries@.len() - i,
    {
        assert(all.take(i + 1).drop_last() =~= all.take(i as int));
        let (key, value) = (&tags.entries[i].0, &tags.entries[i].1);
        out.append("  ");
        out.append(key.as_str());
        out.append(": ");
        out.append(value.as_str());
        out.append("\n");
        i = i + 1;
    }
    assert(all.take(tags.entries@.len() as int) =~= all);
    out
}

/// The tags of a JSON object: each key with its value as a string, in order.
pub open spec fn pairs_json(pairs: Seq<(Seq<char>, Seq<char>)>) -> Seq<(Seq<char>, Json)> {
    pairs.map_values(|p: (Seq<char>, Seq<char>)| (p.0, Json::Text(p.1)))
}

/// One file as `idk show --json` prints it:
/// `{"path": ..., "version": "2.x" or null, "tags": {...}}`.
pub open spec fn file_json(path: Seq<char>, version: Option<TagVersion>, pairs: Seq<
    (Seq<char>, Seq<char>),
>) -> Json {
    Json::Object(
        seq![
            ("path"@, Json::Text(path)),
            ("version"@, match version {
                Some(v) => Json::Text(version_digits(v)),
                None => Json::Null,
            }),
            ("tags"@, Json::Object(pairs_json(pairs))),
        ],
    )
}

/// Every file as `idk show --json` prints it, in order.
pub open spec fn files_json(files: Seq<(String, FileTags)>) -> Json {
    Json::Array(
        files.map_values(
            |f: (String, FileTags)| file_json(f.0@, f.1.version, pairs_view(f.1.entries@)),
        ),
    )
}

/// Renders one file as a JSON object.
pub fn render_json(path: &str, tags: &FileTags) -> (r: JsonValue)
    ensures
        r@ == file_json(path@, tags.version, pairs_view(tags.entries@)),
{
    let ghost pairs = pairs_view(tags.entries@);
    let mut members: Vec<(String, JsonValue)> = Vec::new();
    let mut i: usize = 0;
    while i < tags.entries.len()
        invariant
            i <= tags.entries@.len(),
            pairs == pairs_view(tags.entries@),
            members@.len() == i,
            forall|k: int|
                0 <= k < i ==> (#[trigger] members@[k]).0@ == pairs[k].0 && members@[k].1@
                    == Json::Text(pairs[k].1),
        decreases tags.entries@.len() - i,
    {
        let (key, value) = (&tags.entries[i].0, &tags.entries[i].1);
        members.push((key.clone(), JsonValue::Text(value.clone())));
        i = i + 1;
    }
    proof {
        lemma_object_view(members);
        assert(crate::json::members_of(members@) =~= pairs_json(pairs));
    }
    let version = match tags.version {
        Some(v) => JsonValue::Text(String::from_str(version_number(v))),
        None => JsonValue::Null,
    };
    let tag_object = JsonValue::Object(members);
    let fields = vec![
        (String::from_str("path"), JsonValue::Text(String::from_str(path))),
        (String::from_str("version"), version),
        (String::from_str("tags"), tag_object),
    ];
    proof {
        lemma_object_view(fields);
        assert(crate::json::members_of(fields@) =~= seq![
            ("path"@, Json::Text(path@)),
            ("version"@, match tags.version {
                Some(v) => Json::Text(version_digits(v)),
                None => Json::Null,
            }),
            ("tags"@, Json::Object(pairs_json(pairs))),
        ]);
    }
    JsonValue::Object(fields)
}

/// Renders every file as one JSON array, in order.
pub fn render_all(files: &Vec<(String, FileTags)>) -> (r: JsonValue)
    ensures
        r@ == files_json(files@),
{
    let mut items: Vec<JsonValue> = Vec::new();
    let mut i: usize = 0;
    while i < files.len()
        invariant
            i <= files@.len(),
            items@.len() == i,
            forall|k: int|
                0 <= k < i ==> (#[trigger] items@[k])@ == file_json(
                    files@[k].0@,
                    files@[k].1.version,
                    pairs_view(files@[k].1.entries@),
                ),
        decreases files@.len() - i,
    {
        items.push(render_json(files[i].0.as_str(), &files[i].1));
        i = i + 1;
    }
    proof {
        lemma_array_view(items);
        assert(crate::json::items_of(items@) =~= files@.map_values(
            |f: (String, FileTags)| file_json(f.0@, f.1.version, pairs_view(f.1.entries@)),
        ));
    }
    JsonValue::Array(items)
}

/// The text `idk show --json` prints: every file in one pretty-printed array.
pub fn show_json(files: &Vec<(String, FileTags)>) -> (r: String)
    ensures
        r@ == json_pretty(files_json(files@)),
{
    let doc = render_all(files);
    to_json_pretty(&doc)
}

} // verus!
