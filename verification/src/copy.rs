//! `idk copy tags`: copy one tag's value into another tag.

use crate::cli::CopyTagsArgs;
use crate::config::{Config, ConfigError};
use crate::edit::base_frames;
use crate::id3_tag::{clone_tag, tag_frames, tag_version};
use crate::outcome::{diff_plan, Outcome, Plan};
use crate::tag_field::{canonical_name, field_value, written, FieldName, TagField};
use crate::text::concat;
use id3::Tag;
use vstd::prelude::*;

verus! {

/// Works out the effect of copying `from` into `to` on a file's tag.
///
/// An untagged file, or one whose source is missing or empty, is skipped.
/// Otherwise the destination is overwritten and every other frame kept.
pub fn plan_copy(tag: Option<Tag>, from: &TagField, to: &TagField) -> (r: Plan)
    ensures
        match tag {
            None => r is Skipped,
            Some(t) => match field_value(from@, tag_frames(t), tag_version(t)) {
                Some(v) if v.len() > 0 => diff_plan(
                    r,
                    seq![to@],
                    tag_frames(t),
                    tag_version(t),
                    written(to@, tag_frames(t), tag_version(t), v),
                    tag_version(t),
                ),
                _ => r is Skipped,
            },
        },
{
    let mut tag = match tag {
        Some(t) => t,
        None => return Plan::Skipped,
    };
    let value = match from.read(&tag) {
        Some(v) => v,
        None => return Plan::Skipped,
    };
    if value.unicode_len() == 0 {
        return Plan::Skipped;
    }
    let before = clone_tag(&tag);
    to.write(&mut tag, value.as_str());
    let fields = vec![to.clone()];
    proof {
        assert(crate::outcome::field_names(fields@) =~= seq![to@]);
    }
    Plan::from_diff(&fields, &before, tag)
}

/// Why the fields to copy between could not be settled.
#[derive(Debug)]
pub enum FieldsError {
    /// The config file has no `tags.copy` section.
    Config(ConfigError),
    /// Source and destination are the same field (a usage error).
    Same(String),
}

/// The fields to copy between: `from`/`to` from the arguments, or `tags.copy`
/// from the config file, which the caller has loaded when `args.config` names
/// one. They must differ.
pub fn copy_fields(args: &CopyTagsArgs, config: Option<&Config>) -> (r: Result<
    (TagField, TagField),
    FieldsError,
>)
    requires
        args.config is None ==> args.from is Some && args.to is Some,
        args.config is Some ==> config is Some,
    ensures
        ({
            let chosen: Option<(FieldName, FieldName)> = match args.config {
                None => Some((args.from.unwrap()@, args.to.unwrap()@)),
                Some(_) => match config.unwrap().tags.copy {
                    Some(spec) => Some((spec.from@, spec.to@)),
                    None => None,
                },
            };
            match chosen {
                None => r matches Err(FieldsError::Config(e)) && e.path_view()
                    == args.config.unwrap()@ && e.messages_view() == seq!["missing `tags.copy`"@],
                Some((f, t)) => if f == t {
                    r matches Err(FieldsError::Same(m)) && m@
                        == "--from and --to must name different tags"@
                } else {
                    r matches Ok((a, b)) && a@ == f && b@ == t
                },
            }
        }),
{
    let (from, to) = match &args.config {
        None => match (&args.from, &args.to) {
            (Some(f), Some(t)) => (f.clone(), t.clone()),
            _ => {
                assert(false);
                return Err(FieldsError::Same(String::new()));
            },
        },
        Some(path) => {
            let loaded = match config {
                Some(c) => c,
                None => {
                    assert(false);
                    return Err(FieldsError::Same(String::new()));
                },
            };
            match loaded.copy() {
                Ok(spec) => (spec.from.clone(), spec.to.clone()),
                Err(message) => {
                    return Err(FieldsError::Config(ConfigError::new(path.as_str(), message.as_str())));
                },
            }
        },
    };
    if from.same_as(&to) {
        return Err(FieldsError::Same(String::from_str("--from and --to must name different tags")));
    }
    Ok((from, to))
}

/// A copy's result as reported: with `fail_on_empty`, a skipped file (empty
/// source) is a failure.
pub fn copy_result(outcome: Outcome, from: &TagField, fail_on_empty: bool) -> (r: Result<Outcome, String>)
    ensures
        if fail_on_empty && outcome is Skipped {
            r matches Err(e) && e@ == "no "@ + canonical_name(from@) + " value"@
        } else {
            r == Ok::<Outcome, String>(outcome)
        },
{
    match outcome {
        Outcome::Skipped => if fail_on_empty {
            let mut e = concat("no ", from.name().as_str());
            e.append(" value");
            Err(e)
        } else {
            Ok(Outcome::Skipped)
        },
        other => Ok(other),
    }
}

/// The label of the skipped count in the summary: `no {from}`.
pub fn skipped_label(from: &TagField) -> (r: String)
    ensures
        r@ == "no "@ + canonical_name(from@),
{
    concat("no ", from.name().as_str())
}

} // verus!
