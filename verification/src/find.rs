//! `idk find`: decide which files' tags match every condition.

use crate::id3_tag::{tag_frames, tag_version};
use crate::tag_field::{field_value, parse_field, unknown_tag_message, FieldName, TagField};
use crate::text::{chars_of, concat, lowercase, to_lowercase, trim_str, trimmed};
use id3::Tag;
use regex::{Regex, RegexBuilder};
use vstd::prelude::*;

verus! {

#[verifier::external_type_specification]
#[verifier::external_body]
pub struct ExRegex(Regex);

/// Whether the regex `source` (compiled case-insensitively when asked) finds a
/// match anywhere in `text` (`Regex::is_match`).
pub uninterp spec fn regex_accepts(source: Seq<char>, ignore_case: bool, text: Seq<char>) -> bool;

/// The message `RegexBuilder::build` fails with for `source`, or none when the
/// regex compiles.
pub uninterp spec fn regex_build_error(source: Seq<char>, ignore_case: bool) -> Option<Seq<char>>;

/// A compiled regex together with the source it was compiled from.
#[derive(Debug)]
pub struct Pattern {
    source: String,
    ignore_case: bool,
    regex: Regex,
}

impl Pattern {
    /// The regex source.
    pub closed spec fn source_view(&self) -> Seq<char> {
        self.source@
    }

    /// Whether the regex ignores case.
    pub closed spec fn ignores_case(&self) -> bool {
        self.ignore_case
    }

    /// The regex source, as written.
    pub fn as_str(&self) -> (r: &str)
        ensures
            r@ == self.source_view(),
    {
        self.source.as_str()
    }
}

/// `RegexBuilder::new(source).case_insensitive(ignore_case).build()`.
#[verifier::external_body]
pub(crate) fn build_pattern(source: &str, ignore_case: bool) -> (r: Result<Pattern, String>)
    ensures
        match r {
            Ok(p) => regex_build_error(source@, ignore_case) is None && p.source_view() == source@
                && p.ignores_case() == ignore_case,
            Err(e) => regex_build_error(source@, ignore_case) == Some(e@),
        },
{
    match RegexBuilder::new(source).case_insensitive(ignore_case).build() {
        Ok(regex) => Ok(Pattern { source: source.to_owned(), ignore_case, regex }),
        Err(err) => Err(err.to_string()),
    }
}

/// `Regex::is_match` on the compiled pattern.
#[verifier::external_body]
pub(crate) fn pattern_is_match(pattern: &Pattern, text: &str) -> (r: bool)
    ensures
        r == regex_accepts(pattern.source_view(), pattern.ignores_case(), text@),
{
    pattern.regex.is_match(text)
}

/// The right-hand side of a comparison.
#[derive(Debug)]
pub enum Operand {
    /// A literal value.
    Value(String),
    /// Another field's value, written `@FIELD`.
    Field(TagField),
}

/// One condition on a file's tag.
#[derive(Debug)]
pub enum Condition {
    /// `FIELD=VALUE` or `FIELD=@OTHER` (`FIELD!=...` when `negate`).
    Compare { field: TagField, operand: Operand, negate: bool },
    /// `FIELD~REGEX`.
    Matches { field: TagField, regex: Pattern },
    /// `--missing FIELD`.
    Missing(TagField),
    /// `--present FIELD`.
    Present(TagField),
}

/// An [`Operand`] as a mathematical value.
pub enum OperandView {
    Value(Seq<char>),
    Field(FieldName),
}

/// A [`Condition`] as a mathematical value.
pub enum ConditionView {
    Compare { field: FieldName, operand: OperandView, negate: bool },
    Matches { field: FieldName, source: Seq<char>, ignore_case: bool },
    Missing(FieldName),
    Present(FieldName),
}

impl View for Operand {
    type V = OperandView;

    open spec fn view(&self) -> OperandView {
        match self {
            Operand::Value(v) => OperandView::Value(v@),
            Operand::Field(f) => OperandView::Field(f@),
        }
    }
}

impl View for Condition {
    type V = ConditionView;

    open spec fn view(&self) -> ConditionView {
        match self {
            Condition::Compare { field, operand, negate } => ConditionView::Compare {
                field: field@,
                operand: operand@,
                negate: *negate,
            },
            Condition::Matches { field, regex } => ConditionView::Matches {
                field: field@,
                source: regex.source_view(),
                ignore_case: regex.ignores_case(),
            },
            Condition::Missing(f) => ConditionView::Missing(f@),
            Condition::Present(f) => ConditionView::Present(f@),
        }
    }
}

/// Whether `c` separates a field from its operand.
pub open spec fn is_operator(c: char) -> bool {
    c == '=' || c == '~'
}

/// The index of the first `=` or `~` in `raw`, or its length when there is none.
#[verifier::opaque]
pub open spec fn operator_index(raw: Seq<char>) -> int {
    if exists|i: int| 0 <= i < raw.len() && is_operator(raw[i]) {
        choose|i: int|
            0 <= i < raw.len() && is_operator(raw[i]) && forall|j: int|
                0 <= j < i ==> !is_operator(#[trigger] raw[j])
    } else {
        raw.len() as int
    }
}

proof fn lemma_operator_index(raw: Seq<char>, k: int)
    requires
        0 <= k <= raw.len(),
        k < raw.len() ==> is_operator(raw[k]),
        forall|j: int| 0 <= j < k ==> !is_operator(#[trigger] raw[j]),
    ensures
        operator_index(raw) == k,
{
    reveal(operator_index);
    if exists|i: int| 0 <= i < raw.len() && is_operator(raw[i]) {
        let c = choose|i: int|
            0 <= i < raw.len() && is_operator(raw[i]) && forall|j: int|
                0 <= j < i ==> !is_operator(#[trigger] raw[j]);
        let w = choose|i: int| 0 <= i < raw.len() && is_operator(raw[i]);
        if k == raw.len() {
            assert(!is_operator(raw[w]));
        }
        if c < k {
            assert(!is_operator(raw[c]));
        }
        if k < c {
            assert(!is_operator(raw[k]));
        }
    }
}

/// The message for a condition without an operator.
pub open spec fn missing_operator_message() -> Seq<char> {
    "expected FIELD=VALUE, FIELD!=VALUE or FIELD~REGEX"@
}

/// A field name, or the unknown-tag error for it.
pub open spec fn field_or_error(name: Seq<char>) -> Result<FieldName, Seq<char>> {
    match parse_field(name) {
        Some(f) => Ok(f),
        None => Err(unknown_tag_message(name)),
    }
}

/// How a `--where` condition parses: `FIELD=VALUE`, `FIELD!=VALUE`,
/// `FIELD=@OTHER` or `FIELD~REGEX`, split at the first `=` or `~`.
pub open spec fn parsed_condition(raw: Seq<char>, ignore_case: bool) -> Result<ConditionView, Seq<char>> {
    let at = operator_index(raw);
    if at == raw.len() {
        Err(missing_operator_message())
    } else {
        let head = raw.take(at);
        let rest = raw.skip(at + 1);
        if raw[at] == '~' {
            match regex_build_error(rest, ignore_case) {
                Some(e) => Err("bad regex: "@ + e),
                None => match field_or_error(head) {
                    Ok(f) => Ok(ConditionView::Matches { field: f, source: rest, ignore_case }),
                    Err(e) => Err(e),
                },
            }
        } else {
            let negate = head.len() > 0 && head.last() == '!';
            let name = if negate {
                head.drop_last()
            } else {
                head
            };
            let operand = if rest.len() > 0 && rest[0] == '@' {
                match field_or_error(rest.skip(1)) {
                    Ok(o) => Ok(OperandView::Field(o)),
                    Err(e) => Err(e),
                }
            } else {
                Ok(OperandView::Value(rest))
            };
            match operand {
                Err(e) => Err(e),
                Ok(op) => match field_or_error(name) {
                    Ok(f) => Ok(ConditionView::Compare { field: f, operand: op, negate }),
                    Err(e) => Err(e),
                },
            }
        }
    }
}

/// Parses a `--where` condition; `ignore_case` applies to its regex.
pub fn parse_condition(raw: &str, ignore_case: bool) -> (r: Result<Condition, String>)
    ensures
        match r {
            Ok(c) => parsed_condition(raw@, ignore_case) == Ok::<ConditionView, Seq<char>>(c@),
            Err(e) => parsed_condition(raw@, ignore_case) == Err::<ConditionView, Seq<char>>(e@),
        },
{
    let cs = chars_of(raw);
    let n = cs.len();
    let mut at: usize = 0;
    while at < n && !(cs[at] == '=' || cs[at] == '~')
        invariant
            n == cs@.len(),
            cs@ == raw@,
            at <= n,
            forall|j: int| 0 <= j < at ==> !is_operator(#[trigger] raw@[j]),
        decreases n - at,
    {
        at = at + 1;
    }
    proof {
        lemma_operator_index(raw@, at as int);
    }
    if at == n {
        return Err(String::from_str("expected FIELD=VALUE, FIELD!=VALUE or FIELD~REGEX"));
    }
    let head = raw.substring_char(0, at);
    let rest = raw.substring_char(at + 1, n);
    assert(head@ =~= raw@.take(at as int));
    assert(rest@ =~= raw@.skip(at + 1));
    if cs[at] == '~' {
        let regex = match build_pattern(rest, ignore_case) {
            Ok(p) => p,
            Err(e) => return Err(concat("bad regex: ", e.as_str())),
        };
        let field = match TagField::parse_name(head) {
            Ok(f) => f,
            Err(e) => return Err(e),
        };
        return Ok(Condition::Matches { field, regex });
    }
    let hn = at;
    let negate = hn > 0 && cs[hn - 1] == '!';
    let name = if negate {
        raw.substring_char(0, hn - 1)
    } else {
        head
    };
    assert(negate ==> name@ =~= head@.drop_last());
    let rn = n - (at + 1);
    let operand = if rn > 0 && cs[at + 1] == '@' {
        let other = rest.substring_char(1, rn);
        assert(other@ =~= rest@.skip(1));
        match TagField::parse_name(other) {
            Ok(o) => Operand::Field(o),
            Err(e) => return Err(e),
        }
    } else {
        Operand::Value(String::from_str(rest))
    };
    let field = match TagField::parse_name(name) {
        Ok(f) => f,
        Err(e) => return Err(e),
    };
    Ok(Condition::Compare { field, operand, negate })
}

/// Every condition from the command line; a file matches when all of them hold.
pub struct Matcher {
    conditions: Vec<Condition>,
    ignore_case: bool,
}

/// A field's value in a file's tag; a missing field (or tag) reads as `""`.
pub open spec fn value_in(field: FieldName, tag: Option<Tag>) -> Seq<char> {
    match tag {
        Some(t) => match field_value(field, tag_frames(t), tag_version(t)) {
            Some(v) => v,
            None => Seq::empty(),
        },
        None => Seq::empty(),
    }
}

/// Whether two values compare equal, ignoring case when asked.
pub open spec fn values_equal(a: Seq<char>, b: Seq<char>, ignore_case: bool) -> bool {
    if ignore_case {
        lowercase(a) == lowercase(b)
    } else {
        a == b
    }
}

/// Whether one condition holds of a file's tag.
pub open spec fn condition_holds(c: ConditionView, tag: Option<Tag>, ignore_case: bool) -> bool {
    match c {
        ConditionView::Compare { field, operand, negate } => {
            let expected = match operand {
                OperandView::Value(v) => v,
                OperandView::Field(o) => value_in(o, tag),
            };
            values_equal(value_in(field, tag), expected, ignore_case) != negate
        },
        ConditionView::Matches { field, source, ignore_case: ci } => regex_accepts(
            source,
            ci,
            value_in(field, tag),
        ),
        ConditionView::Missing(field) => trimmed(value_in(field, tag)).len() == 0,
        ConditionView::Present(field) => trimmed(value_in(field, tag)).len() != 0,
    }
}

/// The message for a condition that fails to parse.
pub open spec fn invalid_condition_message(raw: Seq<char>, message: Seq<char>) -> Seq<char> {
    "invalid condition '"@ + raw + "': "@ + message
}

impl Matcher {
    /// The conditions, in order: `--where`, then `--missing`, then `--present`.
    pub closed spec fn conditions_view(&self) -> Seq<ConditionView> {
        self.conditions@.map_values(|c: Condition| c@)
    }

    /// Whether values compare case-insensitively.
    pub closed spec fn ignores_case(&self) -> bool {
        self.ignore_case
    }

    /// Parses `--where` conditions and adds `--missing` / `--present` checks.
    ///
    /// Fails with the first condition that does not parse.
    pub fn new(
        conditions: &Vec<String>,
        missing: &Vec<TagField>,
        present: &Vec<TagField>,
        ignore_case: bool,
    ) -> (r: Result<Matcher, String>)
        ensures
            match r {
                Ok(m) => {
                    &&& m.ignores_case() == ignore_case
                    &&& m.conditions_view().len() == conditions@.len() + missing@.len()
                        + present@.len()
                    &&& forall|i: int|
                        0 <= i < conditions@.len() ==> parsed_condition(
                            #[trigger] conditions@[i]@,
                            ignore_case,
                        ) == Ok::<ConditionView, Seq<char>>(m.conditions_view()[i])
                    &&& forall|i: int|
                        0 <= i < missing@.len() ==> m.conditions_view()[conditions@.len() + i]
                            == ConditionView::Missing(#[trigger] missing@[i]@)
                    &&& forall|i: int|
                        0 <= i < present@.len() ==> m.conditions_view()[conditions@.len()
                            + missing@.len() + i] == ConditionView::Present(#[trigger] present@[i]@)
                },
                Err(e) => exists|k: int|
                    #![trigger conditions@[k]]
                    0 <= k < conditions@.len() && (forall|j: int|
                        0 <= j < k ==> #[trigger] parsed_condition(conditions@[j]@, ignore_case) is Ok)
                        && (parsed_condition(conditions@[k]@, ignore_case) matches Err(msg) && e@
                        == invalid_condition_message(conditions@[k]@, msg)),
            },
    {
        let mut parsed: Vec<Condition> = Vec::new();
        let mut i: usize = 0;
        while i < conditions.len()
            invariant
                i <= conditions@.len(),
                parsed@.len() == i,
                forall|j: int|
                    0 <= j < i ==> parsed_condition(#[trigger] conditions@[j]@, ignore_case) == Ok::<
                        ConditionView,
                        Seq<char>,
                    >(parsed@[j]@),
            decreases conditions@.len() - i,
        {
            let raw = &conditions[i];
            match parse_condition(raw.as_str(), ignore_case) {
                Ok(c) => parsed.push(c),
                Err(message) => {
                    let mut e = concat("invalid condition '", raw.as_str());
                    e.append("': ");
                    e.append(message.as_str());
                    assert(forall|j: int|
                        0 <= j < i ==> #[trigger] parsed_condition(conditions@[j]@, ignore_case) is Ok);
                    return Err(e);
                },
            }
            i = i + 1;
        }
        let mut k: usize = 0;
        while k < missing.len()
            invariant
                k <= missing@.len(),
                parsed@.len() == conditions@.len() + k,
                forall|j: int|
                    0 <= j < conditions@.len() ==> parsed_condition(
                        #[trigger] conditions@[j]@,
                        ignore_case,
                    ) == Ok::<ConditionView, Seq<char>>(parsed@[j]@),
                forall|j: int|
                    0 <= j < k ==> parsed@[conditions@.len() + j]@ == ConditionView::Missing(
                        #[trigger] missing@[j]@,
                    ),
            decreases missing@.len() - k,
        {
            parsed.push(Condition::Missing(missing[k].clone()));
            k = k + 1;
        }
        let mut k: usize = 0;
        while k < present.len()
            invariant
                k <= present@.len(),
                parsed@.len() == conditions@.len() + missing@.len() + k,
                forall|j: int|
                    0 <= j < conditions@.len() ==> parsed_condition(
                        #[trigger] conditions@[j]@,
                        ignore_case,
                    ) == Ok::<ConditionView, Seq<char>>(parsed@[j]@),
                forall|j: int|
                    0 <= j < missing@.len() ==> parsed@[conditions@.len() + j]@
                        == ConditionView::Missing(#[trigger] missing@[j]@),
                forall|j: int|
                    0 <= j < k ==> parsed@[conditions@.len() + missing@.len() + j]@
                        == ConditionView::Present(#[trigger] present@[j]@),
            decreases present@.len() - k,
        {
            parsed.push(Condition::Present(present[k].clone()));
            k = k + 1;
        }
        Ok(Matcher { conditions: parsed, ignore_case })
    }

    /// Whether `tag` (`None` for an untagged file) satisfies every condition.
    /// A missing field compares as `""`.
    pub fn matches(&self, tag: Option<&Tag>) -> (r: bool)
        ensures
            r == forall|i: int|
                0 <= i < self.conditions_view().len() ==> condition_holds(
                    #[trigger] self.conditions_view()[i],
                    match tag {
                        Some(t) => Some(*t),
                        None => None,
                    },
                    self.ignores_case(),
                ),
    {
        let ghost t = match tag {
            Some(t) => Some(*t),
            None => None,
        };
        let mut i: usize = 0;
        while i < self.conditions.len()
            invariant
                i <= self.conditions@.len(),
                t == match tag {
                    Some(x) => Some(*x),
                    None => None::<Tag>,
                },
                forall|j: int|
                    0 <= j < i ==> condition_holds(
                        #[trigger] self.conditions_view()[j],
                        t,
                        self.ignores_case(),
                    ),
            decreases self.conditions@.len() - i,
        {
            let ok = self.holds(&self.conditions[i], tag);
            assert(self.conditions_view()[i as int] == self.conditions@[i as int]@);
            if !ok {
                return false;
            }
            i = i + 1;
        }
        true
    }

    /// Whether one condition holds of `tag`.
    fn holds(&self, condition: &Condition, tag: Option<&Tag>) -> (r: bool)
        ensures
            r == condition_holds(
                condition@,
                match tag {
                    Some(t) => Some(*t),
                    None => None,
                },
                self.ignores_case(),
            ),
    {
        match condition {
            Condition::Compare { field, operand, negate } => {
                let expected = match operand {
                    Operand::Value(expected) => expected.clone(),
                    Operand::Field(other) => value_of(other, tag),
                };
                let actual = value_of(field, tag);
                self.equal(&actual, &expected) != *negate
            },
            Condition::Matches { field, regex } => {
                let actual = value_of(field, tag);
                pattern_is_match(regex, actual.as_str())
            },
            Condition::Missing(field) => {
                let actual = value_of(field, tag);
                trim_str(actual.as_str()).unicode_len() == 0
            },
            Condition::Present(field) => {
                let actual = value_of(field, tag);
                trim_str(actual.as_str()).unicode_len() != 0
            },
        }
    }

    fn equal(&self, left: &String, right: &String) -> (r: bool)
        ensures
            r == values_equal(left@, right@, self.ignores_case()),
    {
        if self.ignore_case {
            to_lowercase(left.as_str()) == to_lowercase(right.as_str())
        } else {
            *left == *right
        }
    }
}

/// A field's value in `tag`, or `""`.
fn value_of(field: &TagField, tag: Option<&Tag>) -> (r: String)
    ensures
        r@ == value_in(
            field@,
            match tag {
                Some(t) => Some(*t),
                None => None,
            },
        ),
{
    match tag {
        Some(t) => match field.read(t) {
            Some(v) => v,
            None => String::new(),
        },
        None => String::new(),
    }
}

} // verus!
