//! `idk apply`: tag edits from `idk show --json` output, validated and planned.
//!
//! For each entry, every `tags` key naming a field is written when it differs
//! from what `idk show` would print; `null` clears the field. Keys that aren't
//! field names (frame IDs such as `TENC`, or `date#2`) are skipped.

use crate::edit::{base_frames, base_version, tag_or_new};
use crate::id3_tag::{clone_tag, FrameView, TagVersion};
use crate::json::{
    items_of, json_document, lemma_array_view, lemma_object_view, members_of, parse_json, Json,
    JsonValue,
};
use crate::outcome::{diff_plan, field_names, Plan};
use crate::show::{display_value, nul_joined};
use crate::sorted::{insert_sorted, strictly_sorted, strings_view};
use crate::tag_field::{
    canonical_name, field_value, opt_view, parse_field, removed, str_eq, written, FieldName,
    TagField,
};
use crate::text::{concat, decimal, decimal_string};
use id3::Tag;
use vstd::prelude::*;

verus! {

/// One field edit: a new value, or `None` to clear the field.
pub type Edit = (TagField, Option<String>);

/// A validated edit file.
#[derive(Debug, PartialEq)]
pub struct Edits {
    /// Files and their edits, in input order.
    pub entries: Vec<(String, Vec<Edit>)>,
    /// Keys that were not field names, each once, in sorted order.
    pub skipped_keys: Vec<String>,
}

/// An edit as mathematical values.
pub open spec fn edit_views(edits: Seq<Edit>) -> Seq<(FieldName, Option<Seq<char>>)> {
    edits.map_values(|e: Edit| (e.0@, opt_view(e.1)))
}

/// The entries of an edit file as mathematical values.
pub open spec fn entries_view(entries: Seq<(String, Vec<Edit>)>) -> Seq<
    (Seq<char>, Seq<(FieldName, Option<Seq<char>>)>),
> {
    entries.map_values(|e: (String, Vec<Edit>)| (e.0@, edit_views(e.1@)))
}

/// `[index]`, the position of an array element in messages.
pub open spec fn position(index: nat) -> Seq<char> {
    "["@ + decimal(index) + "]"@
}

/// The value of the first member named `key`.
pub open spec fn member(members: Seq<(Seq<char>, Json)>, key: Seq<char>) -> Option<Json>
    decreases members.len(),
{
    if members.len() == 0 {
        None
    } else if members[0].0 == key {
        Some(members[0].1)
    } else {
        member(members.skip(1), key)
    }
}

/// Whether an edit for `field` is already listed.
pub open spec fn has_field(edits: Seq<(FieldName, Option<Seq<char>>)>, field: FieldName) -> bool {
    exists|i: int| 0 <= i < edits.len() && #[trigger] edits[i].0 == field
}

/// What reading the `tags` object of one entry has produced so far.
pub struct TagsRead {
    pub edits: Seq<(FieldName, Option<Seq<char>>)>,
    pub errors: Seq<Seq<char>>,
    pub skipped: Set<Seq<char>>,
}

/// Reads one `tags` member of the entry at `at`.
pub open spec fn read_tag_member(s: TagsRead, at: Seq<char>, key: Seq<char>, value: Json) -> TagsRead {
    let given: Option<Option<Seq<char>>> = match value {
        Json::Text(v) => Some(Some(v)),
        Json::Null => Some(None),
        _ => None,
    };
    match given {
        None => TagsRead {
            edits: s.edits,
            errors: s.errors.push(at + ".tags."@ + key + ": expected a string or null"@),
            skipped: s.skipped,
        },
        Some(v) => match parse_field(key) {
            None => TagsRead { edits: s.edits, errors: s.errors, skipped: s.skipped.insert(key) },
            Some(f) => if has_field(s.edits, f) {
                TagsRead {
                    edits: s.edits,
                    errors: s.errors.push(
                        at + ".tags."@ + key + ": "@ + canonical_name(f) + " is given more than once"@,
                    ),
                    skipped: s.skipped,
                }
            } else {
                TagsRead { edits: s.edits.push((f, v)), errors: s.errors, skipped: s.skipped }
            },
        },
    }
}

/// Reads the members of a `tags` object, in order.
pub open spec fn read_tag_members(members: Seq<(Seq<char>, Json)>, at: Seq<char>) -> TagsRead
    decreases members.len(),
{
    if members.len() == 0 {
        TagsRead { edits: Seq::empty(), errors: Seq::empty(), skipped: Set::empty() }
    } else {
        read_tag_member(
            read_tag_members(members.drop_last(), at),
            at,
            members.last().0,
            members.last().1,
        )
    }
}

/// What reading one array element produces: its path when valid, its edits,
/// its errors and the keys it skipped.
pub struct EntryRead {
    pub path: Option<Seq<char>>,
    pub edits: Seq<(FieldName, Option<Seq<char>>)>,
    pub errors: Seq<Seq<char>>,
    pub skipped: Set<Seq<char>>,
}

/// The path of an entry, or the error for it.
pub open spec fn read_path(members: Seq<(Seq<char>, Json)>, at: Seq<char>) -> (
    Option<Seq<char>>,
    Seq<Seq<char>>,
) {
    match member(members, "path"@) {
        Some(Json::Text(p)) => if p.len() > 0 {
            (Some(p), Seq::empty())
        } else {
            (None, seq![at + ".path: expected a non-empty string"@])
        },
        Some(_) => (None, seq![at + ".path: expected a non-empty string"@]),
        None => (None, seq![at + ": missing \"path\""@]),
    }
}

/// Reads the array element at `index`, e.g. `[3].tags.genre: expected a string or null`.
pub open spec fn read_entry(index: nat, item: Json) -> EntryRead {
    let at = position(index);
    match item {
        Json::Object(members) => {
            let (path, path_errors) = read_path(members, at);
            match member(members, "tags"@) {
                Some(Json::Object(tags)) => {
                    let t = read_tag_members(tags, at);
                    EntryRead { path, edits: t.edits, errors: path_errors + t.errors, skipped: t.skipped }
                },
                Some(_) => EntryRead {
                    path,
                    edits: Seq::empty(),
                    errors: path_errors.push(at + ".tags: expected an object"@),
                    skipped: Set::empty(),
                },
                None => EntryRead {
                    path,
                    edits: Seq::empty(),
                    errors: path_errors.push(at + ": missing \"tags\""@),
                    skipped: Set::empty(),
                },
            }
        },
        _ => EntryRead {
            path: None,
            edits: Seq::empty(),
            errors: seq![at + ": expected an object"@],
            skipped: Set::empty(),
        },
    }
}

/// What reading the array's elements has produced so far.
pub struct DocumentRead {
    pub entries: Seq<(Seq<char>, Seq<(FieldName, Option<Seq<char>>)>)>,
    pub errors: Seq<Seq<char>>,
    pub skipped: Set<Seq<char>>,
}

/// Reads the array's elements, in order; an element without errors becomes an entry.
pub open spec fn read_items(items: Seq<Json>) -> DocumentRead
    decreases items.len(),
{
    if items.len() == 0 {
        DocumentRead { entries: Seq::empty(), errors: Seq::empty(), skipped: Set::empty() }
    } else {
        let before = read_items(items.drop_last());
        let e = read_entry((items.len() - 1) as nat, items.last());
        DocumentRead {
            entries: if e.errors.len() == 0 {
                before.entries.push((e.path.unwrap(), e.edits))
            } else {
                before.entries
            },
            errors: before.errors + e.errors,
            skipped: before.skipped.union(e.skipped),
        }
    }
}

/// The message for a document that is not an array.
pub open spec fn array_expected() -> Seq<char> {
    "expected a JSON array of {\"path\", \"tags\"} objects, as printed by `idk show --json`"@
}

/// The edits a JSON document gives, or every structural problem in it.
pub open spec fn document_edits(doc: Json) -> Result<
    (Seq<(Seq<char>, Seq<(FieldName, Option<Seq<char>>)>)>, Set<Seq<char>>),
    Seq<Seq<char>>,
> {
    match doc {
        Json::Array(items) => {
            let d = read_items(items);
            if d.errors.len() == 0 {
                Ok((d.entries, d.skipped))
            } else {
                Err(d.errors)
            }
        },
        _ => Err(seq![array_expected()]),
    }
}

/// The edits a JSON text gives, or its problems.
pub open spec fn text_edits(text: Seq<char>) -> Result<
    (Seq<(Seq<char>, Seq<(FieldName, Option<Seq<char>>)>)>, Set<Seq<char>>),
    Seq<Seq<char>>,
> {
    match json_document(text) {
        Ok(doc) => document_edits(doc),
        Err(e) => Err(seq!["invalid JSON: "@ + e]),
    }
}

/// Whether `r` is `expected`, with the skipped keys strictly sorted.
pub open spec fn edits_are(
    r: Result<Edits, Vec<String>>,
    expected: Result<
        (Seq<(Seq<char>, Seq<(FieldName, Option<Seq<char>>)>)>, Set<Seq<char>>),
        Seq<Seq<char>>,
    >,
) -> bool {
    match r {
        Ok(edits) => {
            &&& expected == Ok::<_, Seq<Seq<char>>>(
                (entries_view(edits.entries@), strings_view(edits.skipped_keys@).to_set()),
            )
            &&& strictly_sorted(strings_view(edits.skipped_keys@))
        },
        Err(errors) => expected == Err::<
            (Seq<(Seq<char>, Seq<(FieldName, Option<Seq<char>>)>)>, Set<Seq<char>>),
            _,
        >(strings_view(errors@)),
    }
}

/// `member` finds the first member with the key.
proof fn lemma_member(members: Seq<(Seq<char>, Json)>, key: Seq<char>, i: int)
    requires
        0 <= i <= members.len(),
        forall|j: int| 0 <= j < i ==> #[trigger] members[j].0 != key,
        i < members.len() ==> members[i].0 == key,
    ensures
        member(members, key) == (if i < members.len() {
            Some(members[i].1)
        } else {
            None
        }),
    decreases i,
{
    if i > 0 {
        let rest = members.skip(1);
        assert forall|j: int| 0 <= j < i - 1 implies #[trigger] rest[j].0 != key by {
            assert(rest[j] == members[j + 1]);
        }
        lemma_member(rest, key, i - 1);
        assert(members[0].0 != key);
    }
}

/// The member named `key`.
fn find_member<'a>(members: &'a Vec<(String, JsonValue)>, key: &str) -> (r: Option<&'a JsonValue>)
    ensures
        match r {
            Some(v) => member(members_of(members@), key@) == Some(v@),
            None => member(members_of(members@), key@) is None,
        },
{
    let ghost ms = members_of(members@);
    let mut i: usize = 0;
    while i < members.len()
        invariant
            ms == members_of(members@),
            i <= members@.len(),
            forall|j: int| 0 <= j < i ==> #[trigger] ms[j].0 != key@,
        decreases members@.len() - i,
    {
        if str_eq(&members[i].0, key) {
            proof {
                lemma_member(ms, key@, i as int);
            }
            return Some(&members[i].1);
        }
        i = i + 1;
    }
    proof {
        lemma_member(ms, key@, i as int);
    }
    None
}

/// Whether an edit for `field` is already listed.
fn lists_field(edits: &Vec<Edit>, field: &TagField) -> (r: bool)
    ensures
        r == has_field(edit_views(edits@), field@),
{
    let ghost views = edit_views(edits@);
    let mut i: usize = 0;
    while i < edits.len()
        invariant
            views == edit_views(edits@),
            i <= edits@.len(),
            forall|j: int| 0 <= j < i ==> #[trigger] views[j].0 != field@,
        decreases edits@.len() - i,
    {
        assert(views[i as int].0 == edits@[i as int].0@);
        if edits[i].0.same_as(field) {
            return true;
        }
        i = i + 1;
    }
    false
}

/// `at` followed by `suffix`.
fn at_message(at: &String, suffix: &str) -> (r: String)
    ensures
        r@ == at@ + suffix@,
{
    concat(at.as_str(), suffix)
}

/// `{at}.tags.{key}` followed by `suffix`.
fn tag_message(at: &String, key: &String, suffix: &str) -> (r: String)
    ensures
        r@ == at@ + ".tags."@ + key@ + suffix@,
{
    let mut m = concat(at.as_str(), ".tags.");
    m.append(key.as_str());
    m.append(suffix);
    m
}

/// Reads the members of an entry's `tags` object, adding errors to `errors`
/// and non-field keys to `skipped`.
fn read_tags_object(
    tags: &Vec<(String, JsonValue)>,
    at: &String,
    errors: &mut Vec<String>,
    skipped: &mut Vec<String>,
) -> (edits: Vec<Edit>)
    requires
        strictly_sorted(strings_view(old(skipped)@)),
    ensures
        ({
            let t = read_tag_members(members_of(tags@), at@);
            &&& edit_views(edits@) == t.edits
            &&& strings_view(final(errors)@) == strings_view(old(errors)@) + t.errors
            &&& strictly_sorted(strings_view(final(skipped)@))
            &&& strings_view(final(skipped)@).to_set() == strings_view(old(skipped)@).to_set().union(
                t.skipped,
            )
        }),
{
    let ghost ms = members_of(tags@);
    let ghost errors0 = strings_view(errors@);
    let ghost skipped0 = strings_view(skipped@).to_set();
    let mut edits: Vec<Edit> = Vec::new();
    let mut k: usize = 0;
    while k < tags.len()
        invariant
            ms == members_of(tags@),
            k <= tags@.len(),
            ({
                let t = read_tag_members(ms.take(k as int), at@);
                &&& edit_views(edits@) == t.edits
                &&& strings_view(errors@) == errors0 + t.errors
                &&& strictly_sorted(strings_view(skipped@))
                &&& strings_view(skipped@).to_set() == skipped0.union(t.skipped)
            }),
        decreases tags@.len() - k,
    {
        let ghost t0 = read_tag_members(ms.take(k as int), at@);
        assert(ms.take(k + 1).drop_last() =~= ms.take(k as int));
        assert(ms.take(k + 1).last() == ms[k as int]);
        let key = &tags[k].0;
        let value: Option<String> = match &tags[k].1 {
            JsonValue::Text(v) => Some(v.clone()),
            JsonValue::Null => None,
            _ => {
                let ghost before = strings_view(errors@);
                let m = tag_message(at, key, ": expected a string or null");
                errors.push(m);
                assert(strings_view(errors@) =~= before.push(m@));
                assert(before.push(m@) =~= errors0 + t0.errors.push(m@));
                k = k + 1;
                continue;
            },
        };
        match TagField::parse_name(key.as_str()) {
            Err(_) => {
                let ghost before = strings_view(skipped@).to_set();
                insert_sorted(skipped, key.clone());
                assert(skipped0.union(t0.skipped.insert(key@)) =~= before.insert(key@));
            },
            Ok(field) => {
                if lists_field(&edits, &field) {
                    let mut m = tag_message(at, key, ": ");
                    m.append(field.name().as_str());
                    m.append(" is given more than once");
                    let ghost before = strings_view(errors@);
                    errors.push(m);
                    assert(strings_view(errors@) =~= before.push(m@));
                    assert(before.push(m@) =~= errors0 + t0.errors.push(m@));
                } else {
                    let ghost v = opt_view(value);
                    edits.push((field, value));
                    assert(edit_views(edits@) =~= t0.edits.push((field@, v)));
                }
            },
        }
        k = k + 1;
    }
    assert(ms.take(tags@.len() as int) =~= ms);
    edits
}

/// Reads the array element at `index`, adding the keys it skips to `skipped`.
fn parse_entry(index: usize, item: &JsonValue, skipped: &mut Vec<String>) -> (r: Result<
    (String, Vec<Edit>),
    Vec<String>,
>)
    requires
        strictly_sorted(strings_view(old(skipped)@)),
    ensures
        ({
            let e = read_entry(index as nat, item@);
            &&& strictly_sorted(strings_view(final(skipped)@))
            &&& strings_view(final(skipped)@).to_set() == strings_view(old(skipped)@).to_set().union(
                e.skipped,
            )
            &&& match r {
                Ok((path, edits)) => e.errors.len() == 0 && e.path == Some(path@) && edit_views(
                    edits@,
                ) == e.edits,
                Err(errors) => e.errors.len() > 0 && strings_view(errors@) == e.errors,
            }
        }),
{
    let mut at = concat("[", decimal_string(index).as_str());
    at.append("]");
    let ghost skipped0 = strings_view(skipped@).to_set();
    let members = match item {
        JsonValue::Object(members) => members,
        _ => {
            assert(skipped0.union(Set::empty()) =~= skipped0);
            return Err(vec![at_message(&at, ": expected an object")]);
        },
    };
    proof {
        lemma_object_view(*members);
    }
    let mut errors: Vec<String> = Vec::new();
    let path = match find_member(members, "path") {
        Some(JsonValue::Text(p)) => if p.unicode_len() > 0 {
            Some(p.clone())
        } else {
            errors.push(at_message(&at, ".path: expected a non-empty string"));
            None
        },
        Some(_) => {
            errors.push(at_message(&at, ".path: expected a non-empty string"));
            None
        },
        None => {
            errors.push(at_message(&at, ": missing \"path\""));
            None
        },
    };
    let ghost path_read = read_path(members_of(members@), at@);
    assert(opt_view(path) == path_read.0);
    assert(strings_view(errors@) =~= path_read.1);
    let edits = match find_member(members, "tags") {
        Some(JsonValue::Object(tags)) => {
            proof {
                lemma_object_view(*tags);
            }
            read_tags_object(tags, &at, &mut errors, skipped)
        },
        Some(_) => {
            errors.push(at_message(&at, ".tags: expected an object"));
            assert(strings_view(errors@) =~= path_read.1.push(at@ + ".tags: expected an object"@));
            assert(skipped0.union(Set::empty()) =~= skipped0);
            let none: Vec<Edit> = Vec::new();
            assert(edit_views(none@) =~= Seq::empty());
            none
        },
        None => {
            errors.push(at_message(&at, ": missing \"tags\""));
            assert(strings_view(errors@) =~= path_read.1.push(at@ + ": missing \"tags\""@));
            assert(skipped0.union(Set::empty()) =~= skipped0);
            let none: Vec<Edit> = Vec::new();
            assert(edit_views(none@) =~= Seq::empty());
            none
        },
    };
    match path {
        Some(p) => if errors.len() == 0 {
            Ok((p, edits))
        } else {
            Err(errors)
        },
        None => Err(errors),
    }
}

/// Validates a parsed edit document, reporting every structural problem at once.
pub fn parse_document(doc: &JsonValue) -> (r: Result<Edits, Vec<String>>)
    ensures
        edits_are(r, document_edits(doc@)),
{
    let items = match doc {
        JsonValue::Array(items) => items,
        _ => {
            let errors = vec![
                String::from_str(
                    "expected a JSON array of {\"path\", \"tags\"} objects, as printed by `idk show --json`",
                ),
            ];
            assert(strings_view(errors@) =~= seq![array_expected()]);
            return Err(errors);
        },
    };
    proof {
        lemma_array_view(*items);
    }
    let ghost views = items_of(items@);
    let mut entries: Vec<(String, Vec<Edit>)> = Vec::new();
    let mut errors: Vec<String> = Vec::new();
    let mut skipped: Vec<String> = Vec::new();
    let mut i: usize = 0;
    while i < items.len()
        invariant
            views == items_of(items@),
            i <= items@.len(),
            ({
                let d = read_items(views.take(i as int));
                &&& entries_view(entries@) == d.entries
                &&& strings_view(errors@) == d.errors
                &&& strictly_sorted(strings_view(skipped@))
                &&& strings_view(skipped@).to_set() == d.skipped
            }),
        decreases items@.len() - i,
    {
        assert(views.take(i + 1).drop_last() =~= views.take(i as int));
        assert(views.take(i + 1).last() == items@[i as int]@);
        match parse_entry(i, &items[i], &mut skipped) {
            Ok(entry) => {
                let ghost e = (entry.0@, edit_views(entry.1@));
                entries.push(entry);
                assert(entries_view(entries@) =~= entries_view(entries@).drop_last().push(e));
            },
            Err(mut entry_errors) => {
                let ghost before = strings_view(errors@);
                let ghost added = strings_view(entry_errors@);
                errors.append(&mut entry_errors);
                assert(strings_view(errors@) =~= before + added);
            },
        }
        i = i + 1;
    }
    assert(views.take(items@.len() as int) =~= views);
    if errors.len() == 0 {
        Ok(Edits { entries, skipped_keys: skipped })
    } else {
        Err(errors)
    }
}

/// Parses and validates an edit file, reporting every structural problem at once.
pub fn parse(json: &str) -> (r: Result<Edits, Vec<String>>)
    ensures
        edits_are(r, text_edits(json@)),
{
    match parse_json(json) {
        Ok(doc) => parse_document(&doc),
        Err(e) => {
            let errors = vec![concat("invalid JSON: ", e.as_str())];
            assert(strings_view(errors@) =~= seq!["invalid JSON: "@ + e@]);
            Err(errors)
        },
    }
}

/// The most recent earlier entry with the same key.
pub open spec fn last_before(keys: Seq<Seq<char>>, key: Seq<char>, i: int) -> Option<int>
    decreases i,
{
    if i <= 0 {
        None
    } else if keys[i - 1] == key {
        Some(i - 1)
    } else {
        last_before(keys, key, i - 1)
    }
}

/// The errors for entries that name a file an earlier entry already edits;
/// `paths` pairs each entry's path as given with the file it resolves to.
pub open spec fn duplicate_errors(paths: Seq<(Seq<char>, Seq<char>)>) -> Seq<Seq<char>>
    decreases paths.len(),
{
    if paths.len() == 0 {
        Seq::empty()
    } else {
        let n = paths.len() - 1;
        let before = duplicate_errors(paths.drop_last());
        let keys = paths.map_values(|p: (Seq<char>, Seq<char>)| p.1);
        match last_before(keys, paths[n].1, n) {
            Some(j) => before.push(
                position(n as nat) + ".path: "@ + paths[n].0 + " is already edited by "@ + position(
                    j as nat,
                ),
            ),
            None => before,
        }
    }
}

/// Rejects entries that name the same file twice, which would race when
/// applied concurrently. Each pair is an entry's path as given and the file it
/// resolves to.
pub fn reject_duplicate_paths(paths: &Vec<(String, String)>) -> (r: Result<(), Vec<String>>)
    ensures
        ({
            let expected = duplicate_errors(paths@.map_values(|p: (String, String)| (p.0@, p.1@)));
            match r {
                Ok(()) => expected.len() == 0,
                Err(errors) => expected.len() > 0 && strings_view(errors@) == expected,
            }
        }),
{
    let ghost all = paths@.map_values(|p: (String, String)| (p.0@, p.1@));
    let mut errors: Vec<String> = Vec::new();
    let mut i: usize = 0;
    while i < paths.len()
        invariant
            all == paths@.map_values(|p: (String, String)| (p.0@, p.1@)),
            i <= paths@.len(),
            strings_view(errors@) == duplicate_errors(all.take(i as int)),
        decreases paths@.len() - i,
    {
        let ghost prefix = all.take(i + 1);
        let ghost keys = prefix.map_values(|p: (Seq<char>, Seq<char>)| p.1);
        assert(prefix.drop_last() =~= all.take(i as int));
        let key = &paths[i].1;
        let mut j: usize = i;
        let mut found = false;
        while j > 0 && !found
            invariant
                j <= i < paths@.len(),
                keys == all.take(i + 1).map_values(|p: (Seq<char>, Seq<char>)| p.1),
                all == paths@.map_values(|p: (String, String)| (p.0@, p.1@)),
                key@ == all[i as int].1,
                found ==> j < i && keys[j as int] == key@ && last_before(keys, key@, i as int)
                    == Some(j as int),
                !found ==> last_before(keys, key@, i as int) == last_before(keys, key@, j as int),
            decreases j + (if found {
                0int
            } else {
                1int
            }),
        {
            assert(keys[j - 1] == paths@[j - 1].1@);
            if *key == paths[j - 1].1 {
                found = true;
            }
            j = j - 1;
        }
        if found {
            let mut m = concat("[", decimal_string(i).as_str());
            m.append("].path: ");
            m.append(paths[i].0.as_str());
            m.append(" is already edited by [");
            m.append(decimal_string(j).as_str());
            m.append("]");
            let ghost before = strings_view(errors@);
            errors.push(m);
            assert(strings_view(errors@) =~= before.push(m@));
            proof {
                reveal_strlit("[");
                reveal_strlit("]");
                reveal_strlit("].path: ");
                reveal_strlit(".path: ");
                reveal_strlit(" is already edited by [");
                reveal_strlit(" is already edited by ");
                assert(m@ =~= position(i as nat) + ".path: "@ + all[i as int].0
                    + " is already edited by "@ + position(j as nat));
            }
        }
        i = i + 1;
    }
    assert(all.take(paths@.len() as int) =~= all);
    if errors.len() == 0 {
        Ok(())
    } else {
        Err(errors)
    }
}

/// Whether some edit sets a value (rather than clearing a field).
pub open spec fn sets_any(edits: Seq<(FieldName, Option<Seq<char>>)>) -> bool {
    exists|i: int| 0 <= i < edits.len() && #[trigger] edits[i].1 is Some
}

/// The frames after one edit: a value equal to what `idk show` prints for the
/// field leaves it untouched; `None` clears the field.
pub open spec fn applied(
    field: FieldName,
    value: Option<Seq<char>>,
    frames: Seq<FrameView>,
    version: TagVersion,
) -> Seq<FrameView> {
    match value {
        Some(v) => match field_value(field, frames, version) {
            Some(current) => if nul_joined(current) == v {
                frames
            } else {
                written(field, frames, version, v)
            },
            None => written(field, frames, version, v),
        },
        None => removed(field, frames),
    }
}

/// The frames after every edit, in order.
pub open spec fn applied_all(
    edits: Seq<(FieldName, Option<Seq<char>>)>,
    frames: Seq<FrameView>,
    version: TagVersion,
) -> Seq<FrameView>
    decreases edits.len(),
{
    if edits.len() == 0 {
        frames
    } else {
        let (f, v) = edits.last();
        applied(f, v, applied_all(edits.drop_last(), frames, version), version)
    }
}

/// Whether any edit sets a value.
fn any_value(edits: &Vec<Edit>) -> (r: bool)
    ensures
        r == sets_any(edit_views(edits@)),
{
    let ghost views = edit_views(edits@);
    let mut i: usize = 0;
    while i < edits.len()
        invariant
            views == edit_views(edits@),
            i <= edits@.len(),
            forall|j: int| 0 <= j < i ==> !(#[trigger] views[j].1 is Some),
        decreases edits@.len() - i,
    {
        assert(views[i as int].1 == opt_view(edits@[i as int].1));
        if edits[i].1.is_some() {
            return true;
        }
        i = i + 1;
    }
    false
}

/// Works out the effect of `edits` on a file's tag (`None` for an untagged file).
///
/// A value equal to what `idk show` would print leaves the field untouched. A
/// file without a tag gets a new ID3v2.4 tag only when a value is set.
pub fn plan_apply(tag: Option<Tag>, edits: &Vec<Edit>) -> (r: Plan)
    ensures
        ({
            let views = edit_views(edits@);
            if tag is None && !sets_any(views) {
                r is Unchanged
            } else {
                diff_plan(
                    r,
                    views.map_values(|e: (FieldName, Option<Seq<char>>)| e.0),
                    base_frames(tag),
                    base_version(tag),
                    applied_all(views, base_frames(tag), base_version(tag)),
                    base_version(tag),
                )
            }
        }),
{
    let sets_value = any_value(edits);
    if tag.is_none() && !sets_value {
        return Plan::Unchanged;
    }
    let mut tag = tag_or_new(tag);
    let before = clone_tag(&tag);
    let ghost views = edit_views(edits@);
    let ghost frames0 = crate::id3_tag::tag_frames(before);
    let ghost version = crate::id3_tag::tag_version(before);
    let mut fields: Vec<TagField> = Vec::new();
    let mut i: usize = 0;
    while i < edits.len()
        invariant
            views == edit_views(edits@),
            i <= edits@.len(),
            crate::id3_tag::tag_version(tag) == version,
            crate::id3_tag::tag_frames(tag) == applied_all(views.take(i as int), frames0, version),
            fields@.len() == i,
            forall|j: int| 0 <= j < i ==> #[trigger] fields@[j]@ == views[j].0,
        decreases edits@.len() - i,
    {
        assert(views.take(i + 1).drop_last() =~= views.take(i as int));
        assert(views.take(i + 1).last() == views[i as int]);
        let field = &edits[i].0;
        match &edits[i].1 {
            Some(value) => {
                let current = field.read(&tag);
                let same = match current {
                    Some(c) => {
                        let shown = display_value(c.as_str());
                        shown == *value
                    },
                    None => false,
                };
                if !same {
                    field.write(&mut tag, value.as_str());
                }
            },
            None => field.remove(&mut tag),
        }
        fields.push(field.clone());
        i = i + 1;
    }
    assert(views.take(edits@.len() as int) =~= views);
    assert(field_names(fields@) =~= views.map_values(|e: (FieldName, Option<Seq<char>>)| e.0));
    Plan::from_diff(&fields, &before, tag)
}

} // verus!
