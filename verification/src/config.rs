//! YAML configuration for tag operations.
//!
//! ```yaml
//! tags:
//!   merge:
//!     genres:
//!       from: ["Heavy Metal", "Metal"]
//!       to: Rock
//!   copy:
//!     from: artist
//!     to: albumartist
//! ```

use crate::json::{json_value, serde_value, Json, JsonValue};
use crate::sorted::strings_view;
use jsonschema::error::ValidationErrorKind;
use serde_json::Value;
use crate::tag_field::TagField;
use crate::text::concat;
use vstd::prelude::*;

verus! {

/// A parsed config file. The top-level `tags` key is required.
#[derive(Debug)]
pub struct Config {
    /// Tag operation settings.
    pub tags: Tags,
}

/// The `tags` section; each operation reads only its own key.
#[derive(Debug)]
pub struct Tags {
    /// Settings for `idk merge`.
    pub merge: Option<Merge>,
    /// Settings for `idk copy tags`.
    pub copy: Option<CopySpec>,
}

/// `tags.merge`: one rule per mergeable field.
#[derive(Debug)]
pub struct Merge {
    /// Rule for `idk merge genres`.
    pub genres: Option<MergeSpec>,
    /// Rule for `idk merge artists`.
    pub artists: Option<MergeSpec>,
}

/// A merge rule: every value in `from` becomes `to`.
#[derive(Debug)]
pub struct MergeSpec {
    /// Values to replace (case-insensitive; "" matches a missing or empty value).
    pub from: Vec<String>,
    /// The single replacement value.
    pub to: String,
}

/// `tags.copy`: the fields `idk copy tags` copies between.
#[derive(Debug)]
pub struct CopySpec {
    /// Field to read the value from.
    pub from: TagField,
    /// Field to write the value to.
    pub to: TagField,
}

/// Config problems, reported with the file they came from.
#[derive(Debug)]
pub struct ConfigError {
    path: String,
    messages: Vec<String>,
}

/// `path: message` for each message, one per line.
pub open spec fn error_lines(path: Seq<char>, messages: Seq<Seq<char>>) -> Seq<char>
    decreases messages.len(),
{
    if messages.len() == 0 {
        Seq::empty()
    } else if messages.len() == 1 {
        path + ": "@ + messages[0]
    } else {
        error_lines(path, messages.drop_last()) + "\n"@ + path + ": "@ + messages.last()
    }
}

impl ConfigError {
    /// The config file the errors are about.
    pub closed spec fn path_view(&self) -> Seq<char> {
        self.path@
    }

    /// The errors, in order.
    pub closed spec fn messages_view(&self) -> Seq<Seq<char>> {
        strings_view(self.messages@)
    }

    /// A single error about the config file at `path`.
    pub fn new(path: &str, message: &str) -> (r: ConfigError)
        ensures
            r.path_view() == path@,
            r.messages_view() == seq![message@],
    {
        ConfigError::many(path, vec![String::from_str(message)])
    }

    /// Several errors about the config file at `path`.
    pub fn many(path: &str, messages: Vec<String>) -> (r: ConfigError)
        ensures
            r.path_view() == path@,
            r.messages_view() == strings_view(messages@),
    {
        ConfigError { path: String::from_str(path), messages }
    }

    /// One `path: message` line per error.
    pub fn text(&self) -> (r: String)
        ensures
            r@ == error_lines(self.path_view(), self.messages_view()),
    {
        let ghost all = strings_view(self.messages@);
        let mut out = String::new();
        let mut i: usize = 0;
        while i < self.messages.len()
            invariant
                all == strings_view(self.messages@),
                i <= self.messages@.len(),
                out@ == error_lines(self.path@, all.take(i as int)),
            decreases self.messages@.len() - i,
        {
            assert(all.take(i + 1).drop_last() =~= all.take(i as int));
            assert(all.take(i + 1).last() == self.messages@[i as int]@);
            if i > 0 {
                out.append("\n");
            } else {
                assert(all.take(1)[0] == self.messages@[0]@);
            }
            out.append(self.path.as_str());
            out.append(": ");
            out.append(self.messages[i].as_str());
            i = i + 1;
        }
        assert(all.take(self.messages@.len() as int) =~= all);
        out
    }
}

/// The `tags.merge.<key>` section: `genres` and `artists` are the keys there are.
pub open spec fn merge_section(config: Config, key: Seq<char>) -> Option<MergeSpec> {
    match config.tags.merge {
        Some(m) => if key == "genres"@ {
            m.genres
        } else if key == "artists"@ {
            m.artists
        } else {
            None
        },
        None => None,
    }
}

impl Config {
    /// The `tags.merge.<key>` section, or an error naming the missing key.
    pub fn merge(&self, key: &str) -> (r: Result<&MergeSpec, String>)
        ensures
            match r {
                Ok(spec) => merge_section(*self, key@) == Some(*spec),
                Err(e) => merge_section(*self, key@) is None && e@ == "missing `tags.merge."@ + key@
                    + "`"@,
            },
    {
        let found = match &self.tags.merge {
            Some(merge) => {
                let k = String::from_str(key);
                if crate::tag_field::str_eq(&k, "genres") {
                    merge.genres.as_ref()
                } else if crate::tag_field::str_eq(&k, "artists") {
                    merge.artists.as_ref()
                } else {
                    None
                }
            },
            None => None,
        };
        match found {
            Some(spec) => Ok(spec),
            None => {
                let mut e = concat("missing `tags.merge.", key);
                e.append("`");
                Err(e)
            },
        }
    }

    /// The `tags.copy` section, or an error naming the missing key.
    pub fn copy(&self) -> (r: Result<&CopySpec, String>)
        ensures
            match r {
                Ok(spec) => self.tags.copy == Some(*spec),
                Err(e) => self.tags.copy is None && e@ == "missing `tags.copy`"@,
            },
    {
        match &self.tags.copy {
            Some(spec) => Ok(spec),
            None => Err(String::from_str("missing `tags.copy`")),
        }
    }
}

/// One schema violation, as the validator reports it.
#[derive(Debug)]
pub struct Violation {
    /// JSON pointer to the offending value, e.g. `/tags/merge/genres/to`.
    pub instance_path: String,
    /// JSON pointer into the schema for the failed keyword.
    pub schema_path: String,
    /// Whether a `pattern` keyword failed.
    pub is_pattern: bool,
    /// The offending value, as JSON.
    pub instance: String,
    /// The validator's own message.
    pub message: String,
}

/// `s` without its leading `/` characters.
pub open spec fn without_leading_slashes(s: Seq<char>) -> Seq<char>
    decreases s.len(),
{
    if s.len() > 0 && s[0] == '/' {
        without_leading_slashes(s.skip(1))
    } else {
        s
    }
}

/// `s` with every `/` replaced by `.`.
pub open spec fn slashes_to_dots(s: Seq<char>) -> Seq<char> {
    s.map_values(|c: char| if c == '/' { '.' } else { c })
}

/// Whether `needle` occurs in `s`.
pub open spec fn contains_text(s: Seq<char>, needle: Seq<char>) -> bool {
    exists|i: int| 0 <= i && i + needle.len() <= s.len() && #[trigger] s.subrange(i, i + needle.len()) == needle
}

/// A [`Violation`] as mathematical values: instance path, schema path,
/// whether a `pattern` keyword failed, the offending value, the message.
pub type ViolationView = (Seq<char>, Seq<char>, bool, Seq<char>, Seq<char>);

impl View for Violation {
    type V = ViolationView;

    open spec fn view(&self) -> ViolationView {
        (self.instance_path@, self.schema_path@, self.is_pattern, self.instance@, self.message@)
    }
}

/// `tags.merge.genres.to: ...` style message for a schema violation; pattern
/// violations are reworded, since the raw message repeats the regex.
pub open spec fn described(v: ViolationView) -> Seq<char> {
    let (instance_path, schema_path, is_pattern, instance, raw) = v;
    let key = slashes_to_dots(without_leading_slashes(instance_path));
    let message = if is_pattern {
        if contains_text(schema_path, "TagField"@) {
            instance + " is not a known tag name"@
        } else {
            "must not be blank"@
        }
    } else {
        raw
    };
    if key.len() == 0 {
        message
    } else {
        key + ": "@ + message
    }
}

/// Whether `s` contains `needle`.
fn has_text(s: &str, needle: &str) -> (r: bool)
    ensures
        r == contains_text(s@, needle@),
{
    let n = s.unicode_len();
    let m = needle.unicode_len();
    if m > n {
        return false;
    }
    if m == 0 {
        assert(s@.subrange(0int, 0int + needle@.len()) =~= needle@);
        return true;
    }
    let mut i: usize = 0;
    while i <= n - m
        invariant
            n == s@.len(),
            m == needle@.len(),
            1 <= m <= n,
            i <= n - m + 1,
            forall|j: int| 0 <= j < i ==> #[trigger] s@.subrange(j, j + m) != needle@,
        decreases n - m + 1 - i,
    {
        let part = String::from_str(s.substring_char(i, i + m));
        if crate::tag_field::str_eq(&part, needle) {
            return true;
        }
        i = i + 1;
    }
    false
}

/// `tags.merge.genres.to: ...` style message for a schema violation.
pub fn describe(v: &Violation) -> (r: String)
    ensures
        r@ == described(v@),
{
    let path = v.instance_path.as_str();
    let n = path.unicode_len();
    let mut start: usize = 0;
    assert(path@.skip(0) =~= path@);
    while start < n && path.get_char(start) == '/'
        invariant
            n == path@.len(),
            start <= n,
            without_leading_slashes(path@) == without_leading_slashes(path@.skip(start as int)),
        decreases n - start,
    {
        assert(path@.skip(start as int).skip(1) =~= path@.skip(start + 1));
        start = start + 1;
    }
    let ghost rest = path@.skip(start as int);
    assert(without_leading_slashes(rest) == rest);
    let mut key = String::new();
    let mut i: usize = start;
    while i < n
        invariant
            n == path@.len(),
            start <= i <= n,
            rest == path@.skip(start as int),
            key@ == slashes_to_dots(rest.take(i - start)),
        decreases n - i,
    {
        let c = path.get_char(i);
        let d = if c == '/' {
            '.'
        } else {
            c
        };
        crate::text::push_char(&mut key, d);
        assert(slashes_to_dots(rest.take(i - start + 1)) =~= slashes_to_dots(rest.take(i - start)).push(d));
        i = i + 1;
    }
    assert(rest.take(n - start) =~= rest);
    let message = if v.is_pattern {
        if has_text(v.schema_path.as_str(), "TagField") {
            concat(v.instance.as_str(), " is not a known tag name")
        } else {
            String::from_str("must not be blank")
        }
    } else {
        v.message.clone()
    };
    if key.unicode_len() == 0 {
        message
    } else {
        let mut out = key;
        out.append(": ");
        out.append(message.as_str());
        out
    }
}

/// What `serde_yaml_ng::from_str::<serde_json::Value>` makes of `text`: the
/// document, or its error message.
pub uninterp spec fn yaml_document(text: Seq<char>) -> Result<Json, Seq<char>>;

/// `serde_yaml_ng::from_str::<serde_json::Value>(text)`, as plain values; the
/// error is its `Display` text.
#[verifier::external_body]
pub(crate) fn parse_yaml(text: &str) -> (r: Result<JsonValue, String>)
    ensures
        match r {
            Ok(v) => yaml_document(text@) == Ok::<Json, Seq<char>>(v@),
            Err(e) => yaml_document(text@) == Err::<Json, Seq<char>>(e@),
        },
{
    match serde_yaml_ng::from_str::<Value>(text) {
        Ok(value) => Ok(json_value(value)),
        Err(err) => Err(err.to_string()),
    }
}

/// What `jsonschema` reports when `doc` is validated against `schema`
/// (`validator_for(schema)`, then `Validator::iter_errors(doc)`): every
/// violation in its order, or the message for a schema that does not compile.
pub uninterp spec fn schema_violations(schema: Json, doc: Json) -> Result<Seq<ViolationView>, Seq<char>>;

/// Validates `doc` against `schema` with `jsonschema::validator_for` and
/// `Validator::iter_errors`, each violation as plain values.
#[verifier::external_body]
pub(crate) fn violations(schema: &JsonValue, doc: &JsonValue) -> (r: Result<Vec<Violation>, String>)
    ensures
        match r {
            Ok(vs) => schema_violations(schema@, doc@) == Ok::<Seq<ViolationView>, Seq<char>>(
                vs@.map_values(|v: Violation| v@),
            ),
            Err(e) => schema_violations(schema@, doc@) == Err::<Seq<ViolationView>, Seq<char>>(e@),
        },
{
    let validator = match jsonschema::validator_for(&serde_value(schema)) {
        Ok(validator) => validator,
        Err(err) => return Err(err.to_string()),
    };
    let doc = serde_value(doc);
    Ok(validator.iter_errors(&doc).map(|e| Violation {
        instance_path: e.instance_path().to_string(),
        schema_path: e.schema_path().to_string(),
        is_pattern: matches!(e.kind(), ValidationErrorKind::Pattern { .. }),
        instance: e.instance().to_string(),
        message: e.to_string(),
    }).collect())
}

/// A config document checked against the schema: the YAML error, or every
/// violation described in order, or the document when it is valid. A schema
/// that does not compile gives its error.
pub open spec fn checked_config(schema: Json, text: Seq<char>) -> Result<Json, Seq<Seq<char>>> {
    match yaml_document(text) {
        Err(e) => Err(seq![e]),
        Ok(doc) => match schema_violations(schema, doc) {
            Err(e) => Err(seq![e]),
            Ok(vs) => if vs.len() == 0 {
                Ok(doc)
            } else {
                Err(vs.map_values(|v: ViolationView| described(v)))
            },
        },
    }
}

/// Parses config text as YAML and validates it against `schema`, reporting
/// every violation; the valid document is returned for deserializing.
pub fn check_config(schema: &JsonValue, text: &str) -> (r: Result<JsonValue, Vec<String>>)
    ensures
        match r {
            Ok(doc) => checked_config(schema@, text@) == Ok::<Json, Seq<Seq<char>>>(doc@),
            Err(errors) => checked_config(schema@, text@) == Err::<Json, Seq<Seq<char>>>(
                strings_view(errors@),
            ),
        },
{
    let doc = match parse_yaml(text) {
        Ok(doc) => doc,
        Err(e) => {
            let errors = vec![e];
            assert(strings_view(errors@) =~= seq![errors@[0]@]);
            return Err(errors);
        },
    };
    let found = match violations(schema, &doc) {
        Ok(found) => found,
        Err(e) => {
            let errors = vec![e];
            assert(strings_view(errors@) =~= seq![errors@[0]@]);
            return Err(errors);
        },
    };
    if found.len() == 0 {
        return Ok(doc);
    }
    let ghost views = found@.map_values(|v: Violation| v@);
    let mut messages: Vec<String> = Vec::new();
    let mut i: usize = 0;
    while i < found.len()
        invariant
            i <= found@.len(),
            views == found@.map_values(|v: Violation| v@),
            strings_view(messages@) == views.take(i as int).map_values(|v: ViolationView| described(v)),
        decreases found@.len() - i,
    {
        let m = describe(&found[i]);
        let ghost before = strings_view(messages@);
        messages.push(m);
        assert(strings_view(messages@) =~= before.push(m@));
        assert(views.take(i + 1).map_values(|v: ViolationView| described(v)) =~= views.take(
            i as int,
        ).map_values(|v: ViolationView| described(v)).push(described(views[i as int])));
        i = i + 1;
    }
    assert(views.take(found@.len() as int) =~= views);
    Err(messages)
}

} // verus!
