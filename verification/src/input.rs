//! Resolving command-line input into the list of files to process.
//!
//! Each argument is taken literally when that path exists. Otherwise, if it
//! contains `*`, `?` or `[`, it is expanded as a glob, so patterns work the
//! same on Windows (whose shells don't expand them) as on Unix. The file
//! system is consulted by the caller; this module makes the decisions.

use crate::tag_field::{ascii_eq_ci, opt_view};
use crate::text::{chars_of, concat};
use std::path::Path;
use vstd::prelude::*;

verus! {

/// The files to process, plus how many inputs could not be resolved.
#[derive(Debug)]
pub struct Inputs {
    /// Files to process, in input order.
    pub files: Vec<String>,
    /// Inputs that failed to resolve; each was reported on stderr.
    pub failures: usize,
}

impl Inputs {
    /// Inputs with no failures.
    pub fn new(files: Vec<String>) -> (r: Inputs)
        ensures
            r.files@ == files@,
            r.failures == 0,
    {
        Inputs { files, failures: 0 }
    }
}

/// Whether `c` is a glob metacharacter.
pub open spec fn is_glob_char(c: char) -> bool {
    c == '*' || c == '?' || c == '['
}

/// Whether a path contains glob metacharacters.
pub open spec fn glob_text(path: Seq<char>) -> bool {
    exists|i: int| 0 <= i < path.len() && is_glob_char(#[trigger] path[i])
}

/// Whether `path` contains glob metacharacters.
pub fn is_glob(path: &str) -> (r: bool)
    ensures
        r == glob_text(path@),
{
    let n = path.unicode_len();
    let mut i: usize = 0;
    while i < n
        invariant
            n == path@.len(),
            i <= n,
            forall|j: int| 0 <= j < i ==> !is_glob_char(#[trigger] path@[j]),
        decreases n - i,
    {
        let c = path.get_char(i);
        if c == '*' || c == '?' || c == '[' {
            assert(is_glob_char(path@[i as int]));
            return true;
        }
        i = i + 1;
    }
    false
}

/// The last component of a path (`Path::file_name`): `None` when the path
/// ends in `..` or is a root or empty.
pub uninterp spec fn path_file_name(path: Seq<char>) -> Option<Seq<char>>;

/// `Path::file_name`, as text.
#[verifier::external_body]
fn file_name_of(path: &str) -> (r: Option<String>)
    ensures
        opt_view(r) == path_file_name(path@),
{
    Path::new(path).file_name().map(|name| name.to_string_lossy().into_owned())
}

/// The index of the last `.` in `name`, or -1 when there is none.
pub open spec fn last_dot(name: Seq<char>) -> int
    decreases name.len(),
{
    if name.len() == 0 {
        -1
    } else if name.last() == '.' {
        name.len() - 1
    } else {
        last_dot(name.drop_last())
    }
}

/// The extension of a file name (`Path::extension`): the text after the last
/// `.`, unless that dot starts the name; `..` has none.
pub open spec fn extension_of(name: Seq<char>) -> Option<Seq<char>> {
    if name == ".."@ || last_dot(name) <= 0 {
        None
    } else {
        Some(name.skip(last_dot(name) + 1))
    }
}

/// Whether a path names an MP3 file: a `.mp3` extension, in any letter case.
pub open spec fn mp3_path(path: Seq<char>) -> bool {
    match path_file_name(path) {
        Some(name) => match extension_of(name) {
            Some(ext) => ascii_eq_ci(ext, "mp3"@),
            None => false,
        },
        None => false,
    }
}

/// The index of the last `.` in `name`, if any.
fn find_last_dot(name: &str) -> (r: Option<usize>)
    ensures
        match r {
            Some(i) => last_dot(name@) == i && i < name@.len(),
            None => last_dot(name@) == -1,
        },
{
    let n = name.unicode_len();
    let mut i: usize = n;
    assert(name@.take(n as int) =~= name@);
    while i > 0 && name.get_char(i - 1) != '.'
        invariant
            n == name@.len(),
            i <= n,
            last_dot(name@) == last_dot(name@.take(i as int)),
        decreases i,
    {
        assert(name@.take(i as int).drop_last() =~= name@.take(i - 1));
        i = i - 1;
    }
    if i == 0 {
        assert(name@.take(0).len() == 0);
        None
    } else {
        assert(name@.take(i as int).last() == '.');
        Some(i - 1)
    }
}

/// Whether `path` has a `.mp3` extension, in any letter case.
pub fn is_mp3(path: &str) -> (r: bool)
    ensures
        r == mp3_path(path@),
{
    let name = match file_name_of(path) {
        Some(name) => name,
        None => return false,
    };
    let n = name.unicode_len();
    let is_parent = n == 2 && name.get_char(0) == '.' && name.get_char(1) == '.';
    proof {
        reveal_strlit("..");
        if name@ == ".."@ {
            assert(name@[0] == '.' && name@[1] == '.');
        }
        if is_parent {
            assert(name@ =~= ".."@);
        }
    }
    if is_parent {
        return false;
    }
    let dot = match find_last_dot(name.as_str()) {
        Some(d) => d,
        None => return false,
    };
    if dot == 0 {
        return false;
    }
    let ext = name.as_str().substring_char(dot + 1, n);
    assert(ext@ =~= name@.skip(dot + 1));
    let chars = chars_of(ext);
    crate::tag_field::eq_ignore_ascii_case(&chars, "mp3")
}

/// What to do with one command-line argument.
#[derive(Debug, PartialEq, Eq)]
pub enum Expansion {
    /// A directory, with `-r`: add every `.mp3` file under it.
    Walk,
    /// Pass the path through as given; a missing file is reported per file later.
    Literal,
    /// Expand the argument as a glob pattern.
    Glob,
    /// The argument cannot be used; the message says why.
    Fail(String),
}

/// The message for a directory given without `-r`.
pub open spec fn directory_message(arg: Seq<char>) -> Seq<char> {
    arg + ": is a directory (use -r)"@
}

/// How an argument expands (`present`: the path exists): directories need
/// `-r`; an existing path or one
/// without glob metacharacters is literal; anything else is a pattern.
pub fn expansion(arg: &str, recursive: bool, is_dir: bool, present: bool) -> (r: Expansion)
    ensures
        is_dir && recursive ==> r == Expansion::Walk,
        is_dir && !recursive ==> (r matches Expansion::Fail(m) && m@ == directory_message(arg@)),
        !is_dir && (present || !glob_text(arg@)) ==> r == Expansion::Literal,
        !is_dir && !present && glob_text(arg@) ==> r == Expansion::Glob,
{
    if is_dir {
        if recursive {
            Expansion::Walk
        } else {
            Expansion::Fail(concat(arg, ": is a directory (use -r)"))
        }
    } else if present || !is_glob(arg) {
        Expansion::Literal
    } else {
        Expansion::Glob
    }
}

/// What to do with one path a glob pattern matched.
#[derive(Debug, PartialEq, Eq)]
pub enum Matched {
    /// A directory, with `-r`: walk it.
    Walk,
    /// A file: keep it.
    Keep,
    /// A directory without `-r`: ignore it.
    Ignore,
}

/// Directories matched by a pattern like `*` are only descended into with `-r`.
/// Only `Walk` and `Keep` count as the pattern matching something.
pub fn matched(is_dir: bool, recursive: bool) -> (r: Matched)
    ensures
        r == (if !is_dir {
            Matched::Keep
        } else if recursive {
            Matched::Walk
        } else {
            Matched::Ignore
        }),
{
    if !is_dir {
        Matched::Keep
    } else if recursive {
        Matched::Walk
    } else {
        Matched::Ignore
    }
}

/// `{pattern}: no files match`.
pub fn no_match_message(pattern: &str) -> (r: String)
    ensures
        r@ == pattern@ + ": no files match"@,
{
    concat(pattern, ": no files match")
}

/// The error for a glob pattern, once its matches are known: none when it
/// matched something, else `{pattern}: no files match`.
pub fn glob_result(pattern: &str, matched_any: bool) -> (r: Option<String>)
    ensures
        match r {
            Some(m) => !matched_any && m@ == pattern@ + ": no files match"@,
            None => matched_any,
        },
{
    if matched_any {
        None
    } else {
        Some(no_match_message(pattern))
    }
}

/// One result of expanding a glob pattern.
#[derive(Debug)]
pub enum GlobEntry {
    /// A path the pattern matched, and whether it is a directory.
    Found { path: String, is_dir: bool },
    /// A path the pattern could not read; the message says why.
    Unreadable(String),
}

/// A step of a glob expansion, in order.
#[derive(Debug, PartialEq, Eq)]
pub enum GlobStep {
    /// Add every `.mp3` file under this directory.
    Walk(String),
    /// Add this file.
    Keep(String),
    /// Report this error.
    Report(String),
}

/// A glob entry as mathematical values.
pub enum GlobEntryView {
    Found { path: Seq<char>, is_dir: bool },
    Unreadable(Seq<char>),
}

/// A glob step as mathematical values.
pub enum GlobStepView {
    Walk(Seq<char>),
    Keep(Seq<char>),
    Report(Seq<char>),
}

impl View for GlobEntry {
    type V = GlobEntryView;

    open spec fn view(&self) -> GlobEntryView {
        match self {
            GlobEntry::Found { path, is_dir } => GlobEntryView::Found { path: path@, is_dir: *is_dir },
            GlobEntry::Unreadable(m) => GlobEntryView::Unreadable(m@),
        }
    }
}

impl View for GlobStep {
    type V = GlobStepView;

    open spec fn view(&self) -> GlobStepView {
        match self {
            GlobStep::Walk(p) => GlobStepView::Walk(p@),
            GlobStep::Keep(p) => GlobStepView::Keep(p@),
            GlobStep::Report(m) => GlobStepView::Report(m@),
        }
    }
}

/// The steps for the pattern's entries, in order: directories walked with
/// `-r` and ignored without, files kept, unreadable paths reported.
pub open spec fn entry_steps(entries: Seq<GlobEntryView>, recursive: bool) -> Seq<GlobStepView>
    decreases entries.len(),
{
    if entries.len() == 0 {
        Seq::empty()
    } else {
        let before = entry_steps(entries.drop_last(), recursive);
        match entries.last() {
            GlobEntryView::Found { path, is_dir } => if !is_dir {
                before.push(GlobStepView::Keep(path))
            } else if recursive {
                before.push(GlobStepView::Walk(path))
            } else {
                before
            },
            GlobEntryView::Unreadable(m) => before.push(GlobStepView::Report(m)),
        }
    }
}

/// Whether some entry is a file, or a directory walked with `-r`.
pub open spec fn matched_something(entries: Seq<GlobEntryView>, recursive: bool) -> bool {
    exists|i: int|
        0 <= i < entries.len() && (#[trigger] entries[i] matches GlobEntryView::Found { is_dir, .. }
            && (!is_dir || recursive))
}

/// The steps of expanding `pattern`: one per entry, then, when nothing was
/// matched, `{pattern}: no files match`.
pub open spec fn glob_steps_of(pattern: Seq<char>, entries: Seq<GlobEntryView>, recursive: bool) -> Seq<
    GlobStepView,
> {
    let steps = entry_steps(entries, recursive);
    if matched_something(entries, recursive) {
        steps
    } else {
        steps.push(GlobStepView::Report(pattern + ": no files match"@))
    }
}

/// The steps of expanding a glob pattern from what it matched.
pub fn glob_steps(pattern: &str, entries: &Vec<GlobEntry>, recursive: bool) -> (r: Vec<GlobStep>)
    ensures
        r@.map_values(|s: GlobStep| s@) == glob_steps_of(
            pattern@,
            entries@.map_values(|e: GlobEntry| e@),
            recursive,
        ),
{
    let ghost all = entries@.map_values(|e: GlobEntry| e@);
    let mut steps: Vec<GlobStep> = Vec::new();
    let mut any = false;
    let mut i: usize = 0;
    while i < entries.len()
        invariant
            all == entries@.map_values(|e: GlobEntry| e@),
            i <= entries@.len(),
            steps@.map_values(|s: GlobStep| s@) == entry_steps(all.take(i as int), recursive),
            any == matched_something(all.take(i as int), recursive),
        decreases entries@.len() - i,
    {
        let ghost before = steps@.map_values(|s: GlobStep| s@);
        let ghost prefix = all.take(i + 1);
        assert(prefix.drop_last() =~= all.take(i as int));
        assert(prefix.last() == entries@[i as int]@);
        match &entries[i] {
            GlobEntry::Found { path, is_dir } => {
                match matched(*is_dir, recursive) {
                    Matched::Keep => {
                        steps.push(GlobStep::Keep(path.clone()));
                        any = true;
                    },
                    Matched::Walk => {
                        steps.push(GlobStep::Walk(path.clone()));
                        any = true;
                    },
                    Matched::Ignore => {},
                }
            },
            GlobEntry::Unreadable(m) => {
                steps.push(GlobStep::Report(m.clone()));
            },
        }
        proof {
            if steps@.len() > before.len() {
                assert(steps@.map_values(|s: GlobStep| s@) =~= before.push(steps@.last()@));
            } else {
                assert(steps@.map_values(|s: GlobStep| s@) =~= before);
            }
            if matched_something(prefix, recursive) && !matched_something(all.take(i as int), recursive) {
                let k = choose|k: int|
                    0 <= k < prefix.len() && (#[trigger] prefix[k] matches GlobEntryView::Found { is_dir, .. }
                        && (!is_dir || recursive));
                assert(k == i);
            }
            if matched_something(all.take(i as int), recursive) {
                let k = choose|k: int|
                    0 <= k < i && (#[trigger] all.take(i as int)[k] matches GlobEntryView::Found { is_dir, .. }
                        && (!is_dir || recursive));
                assert(prefix[k] == all.take(i as int)[k]);
            }
        }
        i = i + 1;
    }
    assert(all.take(entries@.len() as int) =~= all);
    match glob_result(pattern, any) {
        Some(m) => {
            let ghost before = steps@.map_values(|s: GlobStep| s@);
            steps.push(GlobStep::Report(m));
            assert(steps@.map_values(|s: GlobStep| s@) =~= before.push(steps@.last()@));
        },
        None => {},
    }
    steps
}

/// `{pattern}: invalid pattern: {error}`.
pub fn invalid_pattern_message(pattern: &str, error: &str) -> (r: String)
    ensures
        r@ == pattern@ + ": invalid pattern: "@ + error@,
{
    let mut m = concat(pattern, ": invalid pattern: ");
    m.append(error);
    m
}

/// Whether an earlier path resolves to the same file.
pub open spec fn seen_before(keys: Seq<Seq<char>>, i: int) -> bool {
    exists|j: int| 0 <= j < i && keys[j] == keys[i]
}

/// The paths kept when duplicates are dropped: each path whose file no
/// earlier path resolves to, in order.
pub open spec fn first_spellings(paths: Seq<(Seq<char>, Seq<char>)>) -> Seq<Seq<char>>
    decreases paths.len(),
{
    if paths.len() == 0 {
        Seq::empty()
    } else {
        let n = paths.len() - 1;
        let before = first_spellings(paths.drop_last());
        let keys = paths.map_values(|p: (Seq<char>, Seq<char>)| p.1);
        if seen_before(keys, n) {
            before
        } else {
            before.push(paths[n].0)
        }
    }
}

/// Drops inputs that resolve to the same file, keeping the first spelling.
///
/// Each pair is a path as given and the file it resolves to. Two concurrent
/// writers on one file would race, so duplicates (for example `a.mp3` and
/// `./a.mp3`) must be collapsed before dispatch.
pub fn unique_files(files: &Vec<(String, String)>) -> (r: Vec<String>)
    ensures
        r@.map_values(|s: String| s@) == first_spellings(
            files@.map_values(|p: (String, String)| (p.0@, p.1@)),
        ),
{
    let ghost all = files@.map_values(|p: (String, String)| (p.0@, p.1@));
    let mut out: Vec<String> = Vec::new();
    let mut i: usize = 0;
    while i < files.len()
        invariant
            all == files@.map_values(|p: (String, String)| (p.0@, p.1@)),
            i <= files@.len(),
            out@.map_values(|s: String| s@) == first_spellings(all.take(i as int)),
        decreases files@.len() - i,
    {
        let ghost prefix = all.take(i + 1);
        let ghost keys = prefix.map_values(|p: (Seq<char>, Seq<char>)| p.1);
        assert(prefix.drop_last() =~= all.take(i as int));
        let mut j: usize = 0;
        let mut seen = false;
        while j < i && !seen
            invariant
                j <= i < files@.len(),
                all == files@.map_values(|p: (String, String)| (p.0@, p.1@)),
                keys == all.take(i + 1).map_values(|p: (Seq<char>, Seq<char>)| p.1),
                seen ==> seen_before(keys, i as int),
                !seen ==> forall|k: int| 0 <= k < j ==> keys[k] != keys[i as int],
            decreases i - j + (if seen {
                0int
            } else {
                1int
            }),
        {
            assert(keys[j as int] == files@[j as int].1@);
            assert(keys[i as int] == files@[i as int].1@);
            if files[j].1 == files[i].1 {
                seen = true;
            }
            j = j + 1;
        }
        if !seen {
            let ghost before = out@.map_values(|s: String| s@);
            out.push(files[i].0.clone());
            assert(out@.map_values(|s: String| s@) =~= before.push(all[i as int].0));
        }
        i = i + 1;
    }
    assert(all.take(files@.len() as int) =~= all);
    out
}

} // verus!
