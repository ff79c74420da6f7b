//! Command-line arguments, as the operations receive them.

use crate::tag_field::{FieldName, TagField};
use crate::text::trimmed;
use vstd::prelude::*;

verus! {

/// Config file used when `--config` is given without a path.
pub const DEFAULT_CONFIG: &'static str = "idk.yaml";

/// Where `idk schema write` puts the schema by default.
pub const DEFAULT_SCHEMA: &'static str = "idk.yaml.json";

/// Actions for `idk schema`.
#[derive(Debug)]
pub enum SchemaAction {
    /// Write the config JSON Schema to a file.
    Write { file: String },
    /// Validate a config file against the schema.
    Validate { config: String },
}

/// Arguments for `idk apply`.
#[derive(Debug)]
pub struct ApplyArgs {
    /// JSON in the `idk show --json` format; "-" reads stdin.
    pub source: String,
    /// Execution options.
    pub run: RunOptions,
    /// Write options.
    pub write: WriteOptions,
}

/// Things `idk clear` can clear.
#[derive(Debug)]
pub enum ClearTarget {
    /// Remove one or more fields.
    Tags(ClearTagsArgs),
}

/// Arguments for `idk clear tags`.
#[derive(Debug)]
pub struct ClearTagsArgs {
    /// Fields to remove.
    pub fields: Vec<TagField>,
    /// Input files.
    pub input: InputArgs,
    /// Execution options.
    pub run: RunOptions,
    /// Write options.
    pub write: WriteOptions,
}

/// Things `idk set` can set.
#[derive(Debug)]
pub enum SetTarget {
    /// Set one or more fields to fixed values, overwriting them.
    Tags(SetTagsArgs),
}

/// Arguments for `idk set tags`.
#[derive(Debug)]
pub struct SetTagsArgs {
    /// Fields and their values, in order.
    pub fields: Vec<(TagField, String)>,
    /// Input files.
    pub input: InputArgs,
    /// Execution options.
    pub run: RunOptions,
    /// Write options.
    pub write: WriteOptions,
}

/// Fields `idk merge` can merge.
#[derive(Debug)]
pub enum MergeTarget {
    /// Replace listed genres (TCON) with a single genre.
    Genres(MergeArgs),
    /// Replace listed artists (TPE1) with a single artist.
    Artists(MergeArgs),
}

impl MergeTarget {
    /// The field merged, its `tags.merge` config key, and the arguments.
    pub fn into_parts(self) -> (r: (TagField, &'static str, MergeArgs))
        ensures
            match self {
                MergeTarget::Genres(args) => r.0@ == FieldName::Genre && r.1@ == "genres"@ && r.2
                    == args,
                MergeTarget::Artists(args) => r.0@ == FieldName::Artist && r.1@ == "artists"@ && r.2
                    == args,
            },
    {
        match self {
            MergeTarget::Genres(args) => (TagField::Genre, "genres", args),
            MergeTarget::Artists(args) => (TagField::Artist, "artists", args),
        }
    }
}

/// Arguments for `idk merge genres` and `idk merge artists`.
#[derive(Debug)]
pub struct MergeArgs {
    /// Values to replace; case-insensitive, and "" matches a missing or empty value.
    pub from: Vec<String>,
    /// Value written in their place.
    pub to: Option<String>,
    /// Read `from` / `to` from `tags.merge.<field>` in this YAML file.
    pub config: Option<String>,
    /// Input files.
    pub input: InputArgs,
    /// Execution options.
    pub run: RunOptions,
    /// Write options.
    pub write: WriteOptions,
}

/// Things `idk copy` can copy.
#[derive(Debug)]
pub enum CopyTarget {
    /// Copy one tag's value into another tag, overwriting the destination.
    Tags(CopyTagsArgs),
}

/// Arguments for `idk copy tags`.
#[derive(Debug)]
pub struct CopyTagsArgs {
    /// Tag to read the value from.
    pub from: Option<TagField>,
    /// Tag to write the value to.
    pub to: Option<TagField>,
    /// Read `from` / `to` from `tags.copy` in this YAML file.
    pub config: Option<String>,
    /// Treat files with an empty source tag as failures instead of skipping them.
    pub fail_on_empty: bool,
    /// Input files.
    pub input: InputArgs,
    /// Execution options.
    pub run: RunOptions,
    /// Write options.
    pub write: WriteOptions,
}

/// Arguments for `idk show`.
#[derive(Debug)]
pub struct ShowArgs {
    /// Print a single JSON array instead of readable text.
    pub json: bool,
    /// Only show these fields.
    pub fields: Vec<TagField>,
    /// Also show frames hidden by default: PRIV, TCOP and TSSE.
    pub verbose: bool,
    /// Input files.
    pub input: InputArgs,
    /// Execution options.
    pub run: RunOptions,
}

/// Options shared by operations that modify files.
#[derive(Debug, Clone, Copy)]
pub struct WriteOptions {
    /// Show what would change without writing any file.
    pub dry_run: bool,
}

/// Files an operation reads, shared by every file-processing command.
#[derive(Debug, Clone)]
pub struct InputArgs {
    /// MP3 files, directories (with `recursive`) or glob patterns.
    pub files: Vec<String>,
    /// Walk directories recursively, including every .mp3 file.
    pub recursive: bool,
    /// Also read inputs from this file, one per line; "-" reads stdin.
    pub files_from: Option<String>,
}

/// Execution options shared by file-processing operations.
#[derive(Debug, Clone, Copy)]
pub struct RunOptions {
    /// Maximum number of files processed concurrently (at least 1); by default
    /// the available CPUs.
    pub jobs: Option<usize>,
    /// Hide the progress bar and summary; errors are still reported.
    pub quiet: bool,
}

/// Rejects empty or whitespace-only values.
pub fn non_blank(value: &str) -> (r: Result<String, String>)
    ensures
        match r {
            Ok(v) => trimmed(value@).len() > 0 && v@ == value@,
            Err(e) => trimmed(value@).len() == 0 && e@ == "must not be empty"@,
        },
{
    let t = crate::text::trim_str(value);
    if t.unicode_len() == 0 {
        Err(String::from_str("must not be empty"))
    } else {
        Ok(String::from_str(value))
    }
}

} // verus!
