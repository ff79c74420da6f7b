//! Per-file plans, outcomes and run reporting shared by write operations.

use crate::id3_tag::{tag_frames, tag_version, FrameView, TagVersion};
use crate::tag_field::{canonical_name, field_value, opt_view, FieldName, TagField};
use crate::text::{concat, debug_quoted, decimal, decimal_string, quote_debug};
use id3::Tag;
use vstd::prelude::*;

verus! {

/// A field's value before and after a write.
#[derive(Debug, PartialEq, Eq)]
pub struct Change {
    /// The field that changed.
    pub field: TagField,
    /// The field's previous value, if it had one.
    pub old: Option<String>,
    /// The field's new value, or `None` when it was removed.
    pub new: Option<String>,
}

/// A [`Change`] as mathematical values.
pub struct ChangeView {
    pub field: FieldName,
    pub old: Option<Seq<char>>,
    pub new: Option<Seq<char>>,
}

impl View for Change {
    type V = ChangeView;

    open spec fn view(&self) -> ChangeView {
        ChangeView { field: self.field@, old: opt_view(self.old), new: opt_view(self.new) }
    }
}

/// The changes a write made to `fields` (in order), skipping fields whose value
/// is the same before and after.
pub open spec fn changes_between(
    fields: Seq<FieldName>,
    before: Seq<FrameView>,
    before_version: TagVersion,
    after: Seq<FrameView>,
    after_version: TagVersion,
) -> Seq<ChangeView>
    decreases fields.len(),
{
    if fields.len() == 0 {
        Seq::empty()
    } else {
        let rest = changes_between(fields.drop_last(), before, before_version, after, after_version);
        let f = fields.last();
        let old = field_value(f, before, before_version);
        let new = field_value(f, after, after_version);
        if old != new {
            rest.push(ChangeView { field: f, old, new })
        } else {
            rest
        }
    }
}

/// The views of a list of changes.
pub open spec fn changes_view(changes: Seq<Change>) -> Seq<ChangeView> {
    changes.map_values(|c: Change| c@)
}

/// What happened to a single file.
#[derive(Debug, PartialEq, Eq)]
pub enum Outcome {
    /// The fields were written.
    Updated(Vec<Change>),
    /// Every field already held its target value; the file was not written.
    Unchanged,
    /// The operation did not apply to this file; the file was not written.
    Skipped,
}

/// What an operation would do to a file, decided before anything is written.
pub enum Plan {
    /// The tag changes; `tag` holds the new state to write.
    Write {
        /// The updated tag.
        tag: Tag,
        /// The changed fields.
        changes: Vec<Change>,
    },
    /// Every field already holds its target value.
    Unchanged,
    /// The operation does not apply to this file.
    Skipped,
}

/// The change to `field` between two tags, when its value differs.
pub fn change_between(field: &TagField, before: &Tag, after: &Tag) -> (r: Option<Change>)
    ensures
        ({
            let old = field_value(field@, tag_frames(*before), tag_version(*before));
            let new = field_value(field@, tag_frames(*after), tag_version(*after));
            match r {
                Some(c) => old != new && c@ == (ChangeView { field: field@, old, new }),
                None => old == new,
            }
        }),
{
    let old = field.read(before);
    let new = field.read(after);
    let same = match (&old, &new) {
        (Some(a), Some(b)) => *a == *b,
        (None, None) => true,
        _ => false,
    };
    if same {
        None
    } else {
        Some(Change { field: field.clone(), old, new })
    }
}

/// Whether `p` writes the tag with frames `after` exactly when some field in
/// `fields` reads differently there than in `before`, listing those changes.
pub open spec fn diff_plan(
    p: Plan,
    fields: Seq<FieldName>,
    before: Seq<FrameView>,
    before_version: TagVersion,
    after: Seq<FrameView>,
    after_version: TagVersion,
) -> bool {
    let changes = changes_between(fields, before, before_version, after, after_version);
    match p {
        Plan::Write { tag, changes: cs } => changes.len() > 0 && changes_view(cs@) == changes
            && tag_frames(tag) == after && tag_version(tag) == after_version,
        Plan::Unchanged => changes.len() == 0,
        Plan::Skipped => false,
    }
}

/// The field names of a list of fields.
pub open spec fn field_names(fields: Seq<TagField>) -> Seq<FieldName> {
    fields.map_values(|f: TagField| f@)
}

impl Plan {
    /// A plan writing `after` when any of `fields` reads differently than in
    /// `before`, with one change per such field in the order given.
    pub fn from_diff(fields: &Vec<TagField>, before: &Tag, after: Tag) -> (r: Plan)
        ensures
            diff_plan(
                r,
                field_names(fields@),
                tag_frames(*before),
                tag_version(*before),
                tag_frames(after),
                tag_version(after),
            ),
    {
        let mut changes: Vec<Change> = Vec::new();
        let mut i: usize = 0;
        while i < fields.len()
            invariant
                i <= fields@.len(),
                changes_view(changes@) == changes_between(
                    fields@.map_values(|f: TagField| f@).take(i as int),
                    tag_frames(*before),
                    tag_version(*before),
                    tag_frames(after),
                    tag_version(after),
                ),
            decreases fields@.len() - i,
        {
            let ghost names = fields@.map_values(|f: TagField| f@);
            assert(names.take(i + 1).drop_last() =~= names.take(i as int));
            assert(names.take(i + 1).last() == fields@[i as int]@);
            match change_between(&fields[i], before, &after) {
                Some(c) => {
                    changes.push(c);
                    assert(changes_view(changes@) =~= changes_view(changes@.drop_last()).push(c@));
                },
                None => {},
            }
            i = i + 1;
        }
        assert(fields@.map_values(|f: TagField| f@).take(fields@.len() as int) =~= fields@.map_values(
            |f: TagField| f@,
        ));
        if changes.len() == 0 {
            Plan::Unchanged
        } else {
            Plan::Write { tag: after, changes }
        }
    }

    /// What applying the plan reports, and the tag to write when it changed.
    pub fn into_outcome(self) -> (r: (Option<Tag>, Outcome))
        ensures
            match self {
                Plan::Write { tag, changes } => r.0 == Some(tag) && r.1 == Outcome::Updated(changes),
                Plan::Unchanged => r.0 is None && r.1 == Outcome::Unchanged,
                Plan::Skipped => r.0 is None && r.1 == Outcome::Skipped,
            },
    {
        match self {
            Plan::Write { tag, changes } => (Some(tag), Outcome::Updated(changes)),
            Plan::Unchanged => (None, Outcome::Unchanged),
            Plan::Skipped => (None, Outcome::Skipped),
        }
    }
}


/// A line for the terminal: standard output or standard error.
#[derive(Debug, PartialEq, Eq)]
pub enum Message {
    Output(String),
    Error(String),
}

/// Whether `m` prints `text` on standard output.
pub open spec fn is_output(m: Message, text: Seq<char>) -> bool {
    m matches Message::Output(l) && l@ == text
}

/// How a value appears in a dry-run line: quoted, or `(none)`.
pub open spec fn shown(value: Option<Seq<char>>) -> Seq<char> {
    match value {
        Some(v) => debug_quoted(v),
        None => "(none)"@,
    }
}

/// The dry-run line for one change, e.g. `a.mp3: genre "Pop" -> "Rock"`.
pub open spec fn change_line(path: Seq<char>, c: ChangeView) -> Seq<char> {
    path + ": "@ + canonical_name(c.field) + " "@ + shown(c.old) + " -> "@ + shown(c.new)
}

/// The error line for a failed file.
pub open spec fn error_line(path: Seq<char>, err: Seq<char>) -> Seq<char> {
    "error: "@ + path + ": "@ + err
}

/// `value` as a dry-run line shows it.
fn show_value(value: &Option<String>) -> (r: String)
    ensures
        r@ == shown(opt_view(*value)),
{
    match value {
        Some(v) => quote_debug(v.as_str()),
        None => String::from_str("(none)"),
    }
}

/// The dry-run line for one change.
pub fn format_change(path: &str, change: &Change) -> (r: String)
    ensures
        r@ == change_line(path@, change@),
{
    let mut s = concat(path, ": ");
    let name = change.field.name();
    s.append(name.as_str());
    s.append(" ");
    let old = show_value(&change.old);
    s.append(old.as_str());
    s.append(" -> ");
    let new = show_value(&change.new);
    s.append(new.as_str());
    s
}

/// Per-run tallies used for dry-run output, the final summary and the exit code.
pub struct Report {
    field: TagField,
    dry_run: bool,
    updated: usize,
    unchanged: usize,
    skipped: usize,
    failed: usize,
}

/// The summary line: `2 updated, 1 unchanged, 1 skipped (no artist), 0 failed`.
pub open spec fn summary_text(
    dry_run: bool,
    updated: nat,
    unchanged: nat,
    skipped: nat,
    failed: nat,
    label: Option<Seq<char>>,
) -> Seq<char> {
    decimal(updated) + (if dry_run {
        " would be updated"@
    } else {
        " updated"@
    }) + ", "@ + decimal(unchanged) + " unchanged"@ + match label {
        Some(l) => ", "@ + decimal(skipped) + " skipped ("@ + l + ")"@,
        None => Seq::empty(),
    } + ", "@ + decimal(failed) + " failed"@
}

impl Report {
    /// The number of files written (or, in a dry run, to be written).
    pub closed spec fn updated_count(&self) -> nat {
        self.updated as nat
    }

    /// The number of files already holding their target values.
    pub closed spec fn unchanged_count(&self) -> nat {
        self.unchanged as nat
    }

    /// The number of files the operation did not apply to.
    pub closed spec fn skipped_count(&self) -> nat {
        self.skipped as nat
    }

    /// The number of files that failed.
    pub closed spec fn failed_count(&self) -> nat {
        self.failed as nat
    }

    /// Whether the run only previews changes.
    pub closed spec fn is_dry_run(&self) -> bool {
        self.dry_run
    }

    /// The field the run writes.
    pub closed spec fn field_name(&self) -> FieldName {
        self.field@
    }

    /// Whether another result can be tallied without a count overflowing.
    pub open spec fn has_room(&self) -> bool {
        &&& self.updated_count() < usize::MAX
        &&& self.unchanged_count() < usize::MAX
        &&& self.skipped_count() < usize::MAX
        &&& self.failed_count() < usize::MAX
    }

    /// A report for a run that writes `field`.
    pub fn new(field: TagField, dry_run: bool) -> (r: Report)
        ensures
            r.updated_count() == 0,
            r.unchanged_count() == 0,
            r.skipped_count() == 0,
            r.failed_count() == 0,
            r.is_dry_run() == dry_run,
            r.field_name() == field@,
    {
        Report { field, dry_run, updated: 0, unchanged: 0, skipped: 0, failed: 0 }
    }

    /// Tallies one file's result and returns the lines to print: in a dry run,
    /// one line per pending change; for a failure, an error line.
    pub fn record(&mut self, path: &str, result: Result<Outcome, String>) -> (lines: Vec<Message>)
        requires
            old(self).has_room(),
        ensures
            final(self).is_dry_run() == old(self).is_dry_run(),
            final(self).field_name() == old(self).field_name(),
            match result {
                Ok(Outcome::Updated(changes)) => {
                    &&& final(self).updated_count() == old(self).updated_count() + 1
                    &&& final(self).unchanged_count() == old(self).unchanged_count()
                    &&& final(self).skipped_count() == old(self).skipped_count()
                    &&& final(self).failed_count() == old(self).failed_count()
                    &&& if old(self).is_dry_run() {
                        &&& lines@.len() == changes@.len()
                        &&& forall|i: int|
                            0 <= i < lines@.len() ==> is_output(#[trigger] lines@[i], change_line(path@, changes@[i]@))
                    } else {
                        lines@.len() == 0
                    }
                },
                Ok(Outcome::Unchanged) => {
                    &&& final(self).updated_count() == old(self).updated_count()
                    &&& final(self).unchanged_count() == old(self).unchanged_count() + 1
                    &&& final(self).skipped_count() == old(self).skipped_count()
                    &&& final(self).failed_count() == old(self).failed_count()
                    &&& lines@.len() == 0
                },
                Ok(Outcome::Skipped) => {
                    &&& final(self).updated_count() == old(self).updated_count()
                    &&& final(self).unchanged_count() == old(self).unchanged_count()
                    &&& final(self).skipped_count() == old(self).skipped_count() + 1
                    &&& final(self).failed_count() == old(self).failed_count()
                    &&& lines@.len() == 0
                },
                Err(e) => {
                    &&& final(self).updated_count() == old(self).updated_count()
                    &&& final(self).unchanged_count() == old(self).unchanged_count()
                    &&& final(self).skipped_count() == old(self).skipped_count()
                    &&& final(self).failed_count() == old(self).failed_count() + 1
                    &&& lines@.len() == 1
                    &&& lines@[0] matches Message::Error(l) && l@ == error_line(path@, e@)
                },
            },
    {
        let mut lines: Vec<Message> = Vec::new();
        match result {
            Ok(Outcome::Updated(changes)) => {
                self.updated = self.updated + 1;
                if self.dry_run {
                    let mut i: usize = 0;
                    while i < changes.len()
                        invariant
                            i <= changes@.len(),
                            lines@.len() == i,
                            forall|k: int|
                                0 <= k < i ==> is_output(#[trigger] lines@[k], change_line(path@, changes@[k]@)),
                        decreases changes@.len() - i,
                    {
                        let line = format_change(path, &changes[i]);
                        lines.push(Message::Output(line));
                        i = i + 1;
                    }
                }
            },
            Ok(Outcome::Unchanged) => {
                self.unchanged = self.unchanged + 1;
            },
            Ok(Outcome::Skipped) => {
                self.skipped = self.skipped + 1;
            },
            Err(err) => {
                self.failed = self.failed + 1;
                let mut line = concat("error: ", path);
                line.append(": ");
                line.append(err.as_str());
                lines.push(Message::Error(line));
            },
        }
        lines
    }

    /// One-line summary; `skipped` labels the skipped count, or omits it when `None`.
    pub fn summary(&self, skipped: Option<&str>) -> (r: String)
        ensures
            r@ == summary_text(
                self.is_dry_run(),
                self.updated_count(),
                self.unchanged_count(),
                self.skipped_count(),
                self.failed_count(),
                match skipped {
                    Some(l) => Some(l@),
                    None => None,
                },
            ),
    {
        let mut s = decimal_string(self.updated);
        if self.dry_run {
            s.append(" would be updated");
        } else {
            s.append(" updated");
        }
        s.append(", ");
        let unchanged = decimal_string(self.unchanged);
        s.append(unchanged.as_str());
        s.append(" unchanged");
        match skipped {
            Some(label) => {
                s.append(", ");
                let n = decimal_string(self.skipped);
                s.append(n.as_str());
                s.append(" skipped (");
                s.append(label);
                s.append(")");
            },
            None => {},
        }
        s.append(", ");
        let failed = decimal_string(self.failed);
        s.append(failed.as_str());
        s.append(" failed");
        proof {
            assert(s@ =~= summary_text(
                self.is_dry_run(),
                self.updated_count(),
                self.unchanged_count(),
                self.skipped_count(),
                self.failed_count(),
                match skipped {
                    Some(l) => Some(l@),
                    None => None,
                },
            ));
        }
        s
    }

    /// Whether another result can be recorded without a count overflowing.
    pub fn can_record(&self) -> (r: bool)
        ensures
            r == self.has_room(),
    {
        self.updated < usize::MAX && self.unchanged < usize::MAX && self.skipped < usize::MAX
            && self.failed < usize::MAX
    }

    /// Whether any file failed (the run then exits non-zero).
    pub fn any_failed(&self) -> (r: bool)
        ensures
            r == (self.failed_count() > 0),
    {
        self.failed > 0
    }
}

} // verus!
