//! `idk merge genres|artists`: replace variant values of a field with one value.

use crate::cli::MergeArgs;
use crate::config::{merge_section, Config, ConfigError};
use crate::edit::{base_frames, base_version, tag_or_new};
use crate::id3_tag::{
    clone_tag, first_where, genre_parsed, has_id, tag_frames, tag_version, tcon_resolved,
    BodyView, FrameView, TagVersion,
};
use crate::outcome::{diff_plan, field_names, Plan};
use crate::tag_field::{field_value, opt_view, written, FieldName, TagField};
use crate::text::{lowercase, to_lowercase, trim_str, trimmed};
use id3::Tag;
use vstd::prelude::*;

verus! {

/// Matching ignores case and surrounding whitespace.
pub open spec fn normalized(value: Seq<char>) -> Seq<char> {
    lowercase(trimmed(value))
}

/// `value` trimmed and lower-cased.
pub fn normalize(value: &str) -> (r: String)
    ensures
        r@ == normalized(value@),
{
    let t = trim_str(value);
    to_lowercase(t.as_str())
}

/// A merge rule with its `from` values normalized for matching.
#[derive(Debug)]
pub struct Rule {
    from: Vec<String>,
    to: String,
}

impl Rule {
    /// The normalized values the rule replaces.
    pub closed spec fn from_values(&self) -> Set<Seq<char>> {
        Set::new(|v: Seq<char>| held(self.from@, v))
    }

    /// The value written in their place.
    pub closed spec fn target(&self) -> Seq<char> {
        self.to@
    }

    /// No normalized value is listed twice.
    #[verifier::type_invariant]
    closed spec fn distinct(&self) -> bool {
        forall|i: int, j: int|
            #![trigger self.from@[i], self.from@[j]]
            0 <= i < self.from@.len() && 0 <= j < self.from@.len() && i != j ==> self.from@[i]@
                != self.from@[j]@
    }

    /// Whether a rule replaces a field value (a missing value counts as `""`).
    pub open spec fn replaces(&self, value: Option<Seq<char>>) -> bool {
        self.from_values().contains(
            normalized(
                match value {
                    Some(v) => v,
                    None => Seq::empty(),
                },
            ),
        )
    }

    /// A rule replacing any of `from` with `to`.
    pub fn new(from: &Vec<String>, to: &str) -> (r: Rule)
        ensures
            r.from_values() == listed_values(from@),
            r.target() == to@,
    {
        let mut values: Vec<String> = Vec::new();
        let mut i: usize = 0;
        while i < from.len()
            invariant
                i <= from@.len(),
                forall|a: int, b: int|
                    #![trigger values@[a], values@[b]]
                    0 <= a < values@.len() && 0 <= b < values@.len() && a != b ==> values@[a]@
                        != values@[b]@,
                forall|v: Seq<char>| #[trigger] held(values@, v) == listed(from@, i as int, v),
            decreases from@.len() - i,
        {
            let n = normalize(from[i].as_str());
            let ghost old_values = values@;
            if !contains_value(&values, &n) {
                values.push(n);
                assert forall|v: Seq<char>| #[trigger] held(values@, v) == (held(old_values, v) || v == n@) by {
                    if held(old_values, v) {
                        let k = choose|k: int| 0 <= k < old_values.len() && #[trigger] old_values[k]@ == v;
                        assert(values@[k] == old_values[k]);
                    }
                    if v == n@ {
                        assert(values@[values@.len() - 1]@ == v);
                    }
                    if held(values@, v) {
                        let k = choose|k: int| 0 <= k < values@.len() && #[trigger] values@[k]@ == v;
                        if k < old_values.len() {
                            assert(values@[k] == old_values[k]);
                        }
                    }
                }
            }
            assert forall|v: Seq<char>| #[trigger] listed(from@, i + 1, v) == (listed(from@, i as int, v) || v == n@) by {
                if listed(from@, i + 1, v) {
                    let k = choose|k: int| 0 <= k < i + 1 && normalized(#[trigger] from@[k]@) == v;
                    if k < i {
                        assert(listed(from@, i as int, v));
                    }
                }
                if listed(from@, i as int, v) {
                    let k = choose|k: int| 0 <= k < i && normalized(#[trigger] from@[k]@) == v;
                    assert(0 <= k < i + 1);
                }
                if v == n@ {
                    assert(normalized(from@[i as int]@) == v);
                }
            }
            i = i + 1;
        }
        let r = Rule { from: values, to: String::from_str(to) };
        assert(r.from_values() =~= Set::new(|v: Seq<char>| listed(from@, from@.len() as int, v))) by {
            assert forall|v: Seq<char>| r.from_values().contains(v) == listed(from@, from@.len() as int, v) by {
                assert(held(values@, v) == listed(from@, from@.len() as int, v));
            }
        }
        r
    }

    /// Whether `value` should be replaced. A missing value matches `""`.
    pub fn matches(&self, value: Option<&str>) -> (r: bool)
        ensures
            r == self.replaces(
                match value {
                    Some(v) => Some(v@),
                    None => None,
                },
            ),
    {
        let n = match value {
            Some(v) => normalize(v),
            None => {
                proof {
                    reveal_strlit("");
                }
                normalize("")
            },
        };
        let r = contains_value(&self.from, &n);
        proof {
            reveal_strlit("");
            assert(""@ =~= Seq::<char>::empty());
            if r {
                assert(self.from_values().contains(n@));
            }
        }
        r
    }

    /// The value written in place of a matching one.
    pub fn to_value(&self) -> (r: &String)
        ensures
            r@ == self.target(),
    {
        &self.to
    }
}

/// Whether one of `values` is `v`.
pub open spec fn held(values: Seq<String>, v: Seq<char>) -> bool {
    exists|k: int| 0 <= k < values.len() && #[trigger] values[k]@ == v
}

/// The normalized forms of `from`.
pub open spec fn listed_values(from: Seq<String>) -> Set<Seq<char>> {
    Set::new(|v: Seq<char>| listed(from, from.len() as int, v))
}

/// Whether one of the first `n` raw values normalizes to `v`.
pub open spec fn listed(from: Seq<String>, n: int, v: Seq<char>) -> bool {
    exists|k: int| 0 <= k < n && normalized(#[trigger] from[k]@) == v
}

/// Whether `values` holds a string equal to `v`.
fn contains_value(values: &Vec<String>, v: &String) -> (r: bool)
    ensures
        r == exists|k: int| 0 <= k < values@.len() && #[trigger] values@[k]@ == v@,
{
    let mut i: usize = 0;
    while i < values.len()
        invariant
            i <= values@.len(),
            forall|k: int| 0 <= k < i ==> #[trigger] values@[k]@ != v@,
        decreases values@.len() - i,
    {
        if values[i] == *v {
            return true;
        }
        i = i + 1;
    }
    false
}

/// The value a merge compares: genre references such as `(9)` resolve to
/// their names; other fields read as usual.
pub open spec fn merge_value(field: FieldName, tag: Tag) -> Option<Seq<char>> {
    match field {
        FieldName::Genre => {
            let frames = tag_frames(tag);
            let k = first_where(frames, has_id("TCON"@));
            if k < frames.len() {
                match frames[k].body {
                    BodyView::Text(t) => Some(tcon_resolved(t)),
                    _ => None,
                }
            } else {
                None
            }
        },
        _ => field_value(field, tag_frames(tag), tag_version(tag)),
    }
}

/// The value to match against.
fn current_value(field: &TagField, tag: &Tag) -> (r: Option<String>)
    ensures
        opt_view(r) == merge_value(field@, *tag),
{
    match field {
        TagField::Genre => genre_parsed(tag),
        _ => field.read(tag),
    }
}

/// Works out the effect of applying `rule` to `field` on a file's tag.
///
/// Files whose value doesn't match are unchanged. A file without a tag gets a
/// new ID3v2.4 tag only when `""` matches.
pub fn plan_merge(tag: Option<Tag>, field: &TagField, rule: &Rule) -> (r: Plan)
    ensures
        ({
            let current = match tag {
                Some(t) => merge_value(field@, t),
                None => None,
            };
            if rule.replaces(current) {
                diff_plan(
                    r,
                    seq![field@],
                    base_frames(tag),
                    base_version(tag),
                    written(field@, base_frames(tag), base_version(tag), rule.target()),
                    base_version(tag),
                )
            } else {
                r is Unchanged
            }
        }),
{
    let current = match &tag {
        Some(t) => current_value(field, t),
        None => None,
    };
    let matched = match &current {
        Some(v) => rule.matches(Some(v.as_str())),
        None => rule.matches(None),
    };
    if !matched {
        return Plan::Unchanged;
    }
    let mut tag = tag_or_new(tag);
    let before = clone_tag(&tag);
    field.write(&mut tag, rule.to_value().as_str());
    let fields = vec![field.clone()];
    proof {
        assert(field_names(fields@) =~= seq![field@]);
    }
    Plan::from_diff(&fields, &before, tag)
}

/// The merge rule: `from`/`to` from the arguments, or `tags.merge.<key>` from
/// the config file, which the caller has loaded when `args.config` names one.
pub fn rule(args: &MergeArgs, key: &str, config: Option<&Config>) -> (r: Result<Rule, ConfigError>)
    requires
        args.config is None ==> args.to is Some,
        args.config is Some ==> config is Some,
    ensures
        match args.config {
            None => r matches Ok(rule) && rule.from_values() == listed_values(args.from@)
                && rule.target() == args.to.unwrap()@,
            Some(path) => match merge_section(*config.unwrap(), key@) {
                Some(spec) => r matches Ok(rule) && rule.from_values() == listed_values(spec.from@)
                    && rule.target() == spec.to@,
                None => r matches Err(e) && e.path_view() == path@ && e.messages_view() == seq![
                    "missing `tags.merge."@ + key@ + "`"@,
                ],
            },
        },
{
    match &args.config {
        None => match &args.to {
            Some(to) => Ok(Rule::new(&args.from, to.as_str())),
            None => {
                assert(false);
                Err(ConfigError::new("", ""))
            },
        },
        Some(path) => {
            let loaded = match config {
                Some(c) => c,
                None => {
                    assert(false);
                    return Err(ConfigError::new("", ""));
                },
            };
            match loaded.merge(key) {
                Ok(spec) => Ok(Rule::new(&spec.from, spec.to.as_str())),
                Err(message) => Err(ConfigError::new(path.as_str(), message.as_str())),
            }
        },
    }
}

} // verus!
