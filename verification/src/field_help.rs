//! Field names for help text, the config schema and `FIELD=VALUE` arguments.

use crate::tag_field::{
    canonical_name, frame_of, named_fields, names_of, parse_field, unknown_tag_message, FieldName,
    TagField,
};
use crate::text::{chars_of, concat, push_char};
use vstd::prelude::*;

verus! {

/// A fixed-name field with everything its help and error output need.
#[derive(Debug)]
pub struct Named {
    pub field: TagField,
    /// The canonical name.
    pub name: &'static str,
    /// Other accepted names, lower case.
    pub aliases: Vec<&'static str>,
    /// The text frame storing the field, when there is exactly one.
    pub frame: Option<&'static str>,
    /// Help text; the frame, when there is one, is appended in parentheses.
    pub description: &'static str,
}

/// The help description of a fixed-name field.
pub open spec fn description_of(f: FieldName) -> Seq<char> {
    match f {
        FieldName::Artist => "Lead artist"@,
        FieldName::AlbumArtist => "Album artist"@,
        FieldName::Title => "Track title"@,
        FieldName::Album => "Album title"@,
        FieldName::TrackNumber => "Track number"@,
        FieldName::DiscNumber => "Disc number"@,
        FieldName::Date => "Recording date (TDRC on v2.4, TYER on v2.3)"@,
        FieldName::Genre => "Genre"@,
        FieldName::Composer => "Composer"@,
        FieldName::Comment => "Comment (COMM)"@,
        FieldName::Txxx(_) => "User-defined text frame with the given description (TXXX)"@,
    }
}

/// Help text for `--help`, e.g. `Lead artist (TPE1)`.
pub open spec fn help_text(description: Seq<char>, frame: Option<Seq<char>>) -> Seq<char> {
    match frame {
        Some(id) => description + " ("@ + id + ")"@,
        None => description,
    }
}

/// Whether `n` describes the fixed-name field `f`.
pub open spec fn describes(n: Named, f: FieldName) -> bool {
    &&& n.field@ == f
    &&& n.name@ == canonical_name(f)
    &&& n.aliases@.len() + 1 == names_of(f).len()
    &&& forall|i: int| 0 <= i < n.aliases@.len() ==> #[trigger] n.aliases@[i]@ == names_of(f)[i + 1]
    &&& (match n.frame {
        Some(id) => frame_of(f) == Some(id@),
        None => frame_of(f) is None,
    })
    &&& n.description@ == description_of(f)
}

/// Bundles the facts about one fixed-name field.
pub fn named(
    field: TagField,
    name: &'static str,
    aliases: Vec<&'static str>,
    frame: Option<&'static str>,
    description: &'static str,
) -> (r: Named)
    ensures
        r.field@ == field@,
        r.name == name,
        r.aliases@ == aliases@,
        r.frame == frame,
        r.description == description,
{
    Named { field, name, aliases, frame, description }
}

impl Named {
    /// Help text for `--help`, e.g. `Lead artist (TPE1)`.
    pub fn help(&self) -> (r: String)
        ensures
            r@ == help_text(self.description@, match self.frame {
                Some(id) => Some(id@),
                None => None,
            }),
    {
        match self.frame {
            Some(frame) => {
                let mut text = concat(self.description, " (");
                text.append(frame);
                text.append(")");
                text
            },
            None => String::from_str(self.description),
        }
    }
}

/// Every fixed-name field, in help order.
pub fn named_table() -> (r: Vec<Named>)
    ensures
        r@.len() == named_fields().len(),
        forall|i: int| 0 <= i < r@.len() ==> describes(#[trigger] r@[i], named_fields()[i]),
{
    let table = vec![
        named(TagField::Artist, "artist", vec!["tpe1"], Some("TPE1"), "Lead artist"),
        named(TagField::AlbumArtist, "albumartist", vec!["album-artist", "tpe2"], Some("TPE2"), "Album artist"),
        named(TagField::Title, "title", vec!["tit2"], Some("TIT2"), "Track title"),
        named(TagField::Album, "album", vec!["talb"], Some("TALB"), "Album title"),
        named(TagField::TrackNumber, "tracknumber", vec!["track", "trck"], Some("TRCK"), "Track number"),
        named(TagField::DiscNumber, "discnumber", vec!["disc", "tpos"], Some("TPOS"), "Disc number"),
        named(TagField::Date, "date", vec!["year", "tdrc", "tyer"], None, "Recording date (TDRC on v2.4, TYER on v2.3)"),
        named(TagField::Genre, "genre", vec!["tcon"], Some("TCON"), "Genre"),
        named(TagField::Composer, "composer", vec!["tcom"], Some("TCOM"), "Composer"),
        named(TagField::Comment, "comment", vec!["comm"], None, "Comment (COMM)"),
    ];
    assert(forall|i: int| 0 <= i < table@.len() ==> describes(#[trigger] table@[i], named_fields()[i]));
    table
}

/// The name listed for user-defined text frames.
pub open spec fn txxx_placeholder() -> Seq<char> {
    "txxx:<description>"@
}


/// Whether a character is an ASCII letter.
pub open spec fn is_ascii_alpha(c: char) -> bool {
    ('a' <= c && c <= 'z') || ('A' <= c && c <= 'Z')
}

/// The ASCII upper-case form of a letter.
pub open spec fn ascii_upper(c: char) -> char {
    if 'a' <= c && c <= 'z' {
        ((c as u32) - 32) as char
    } else {
        c
    }
}

/// The ASCII lower-case form of a letter.
pub open spec fn ascii_lower_of(c: char) -> char {
    if 'A' <= c && c <= 'Z' {
        ((c as u32) + 32) as char
    } else {
        c
    }
}

/// A regex matching `literal` in any letter case, e.g. `ab-` → `[aA][bB]-`.
pub open spec fn any_case(literal: Seq<char>) -> Seq<char>
    decreases literal.len(),
{
    if literal.len() == 0 {
        literal
    } else {
        let c = literal.last();
        any_case(literal.drop_last()) + if is_ascii_alpha(c) {
            seq!['[', ascii_lower_of(c), ascii_upper(c), ']']
        } else {
            seq![c]
        }
    }
}

/// A regex matching `literal` in any letter case, e.g. `ab-` → `[aA][bB]-`.
///
/// Field names contain only letters, digits, `-` and `:`, none of which need escaping.
pub fn case_insensitive(literal: &str) -> (r: String)
    ensures
        r@ == any_case(literal@),
{
    let n = literal.unicode_len();
    let mut out = String::new();
    let mut i: usize = 0;
    while i < n
        invariant
            n == literal@.len(),
            i <= n,
            out@ == any_case(literal@.take(i as int)),
        decreases n - i,
    {
        let c = literal.get_char(i);
        assert(literal@.take(i + 1).drop_last() =~= literal@.take(i as int));
        assert(literal@.take(i + 1).last() == c);
        let ghost before = out@;
        if ('a' <= c && c <= 'z') || ('A' <= c && c <= 'Z') {
            let lower = if 'A' <= c && c <= 'Z' {
                ((c as u8) + 32) as char
            } else {
                c
            };
            let upper = if 'a' <= c && c <= 'z' {
                ((c as u8) - 32) as char
            } else {
                c
            };
            push_char(&mut out, '[');
            push_char(&mut out, lower);
            push_char(&mut out, upper);
            push_char(&mut out, ']');
            assert(out@ =~= before + seq!['[', ascii_lower_of(c), ascii_upper(c), ']']);
        } else {
            push_char(&mut out, c);
            assert(out@ =~= before + seq![c]);
        }
        i = i + 1;
    }
    assert(literal@.take(n as int) =~= literal@);
    out
}

/// Every accepted fixed name in help order, each field's canonical name
/// followed by its aliases.
pub open spec fn all_names(fields: Seq<FieldName>) -> Seq<Seq<char>>
    decreases fields.len(),
{
    if fields.len() == 0 {
        Seq::empty()
    } else {
        all_names(fields.drop_last()) + names_of(fields.last())
    }
}

/// `items` joined by `|`, each put in any case.
pub open spec fn alternatives(items: Seq<Seq<char>>) -> Seq<char>
    decreases items.len(),
{
    if items.len() == 0 {
        Seq::empty()
    } else if items.len() == 1 {
        any_case(items[0])
    } else {
        alternatives(items.drop_last()) + "|"@ + any_case(items.last())
    }
}

/// The config schema's pattern for a tag name: every name and alias in any
/// case, or `txxx:` in any case followed by a description.
pub open spec fn name_pattern() -> Seq<char> {
    "^(?:"@ + alternatives(all_names(named_fields())) + "|"@ + any_case("txxx:"@) + ".+)$"@
}

/// The config schema's pattern for a tag name.
pub fn tag_name_pattern() -> (r: String)
    ensures
        r@ == name_pattern(),
{
    let table = named_table();
    let ghost fields = named_fields();
    let mut body = String::new();
    let ghost mut names: Seq<Seq<char>> = Seq::empty();
    let mut i: usize = 0;
    while i < table.len()
        invariant
            table@.len() == fields.len(),
            fields == named_fields(),
            forall|k: int| 0 <= k < table@.len() ==> describes(#[trigger] table@[k], fields[k]),
            i <= table@.len(),
            names == all_names(fields.take(i as int)),
            body@ == alternatives(names),
            i > 0 ==> names.len() > 0,
        decreases table@.len() - i,
    {
        let entry = &table[i];
        assert(describes(table@[i as int], fields[i as int]));
        assert(fields.take(i + 1).drop_last() =~= fields.take(i as int));
        let ghost target = names + names_of(fields[i as int]);
        let ghost mut added: Seq<Seq<char>> = names;
        if i > 0 {
            body.append("|");
        }
        let first = case_insensitive(entry.name);
        body.append(first.as_str());
        proof {
            added = names.push(entry.name@);
            if names.len() == 0 {
                assert(alternatives(added) == any_case(added[0]));
            } else {
                assert(added.drop_last() =~= names);
            }
        }
        let mut a: usize = 0;
        while a < entry.aliases.len()
            invariant
                describes(*entry, fields[i as int]),
                a <= entry.aliases@.len(),
                added == names + names_of(fields[i as int]).take(a + 1),
                body@ == alternatives(added),
                added.len() > 0,
            decreases entry.aliases@.len() - a,
        {
            body.append("|");
            let alt = case_insensitive(entry.aliases[a]);
            body.append(alt.as_str());
            proof {
                let next = added.push(entry.aliases@[a as int]@);
                assert(next.drop_last() =~= added);
                assert(names_of(fields[i as int]).take(a + 2) =~= names_of(fields[i as int]).take(
                    a + 1,
                ).push(names_of(fields[i as int])[a + 1]));
                assert(next =~= names + names_of(fields[i as int]).take(a + 2));
                added = next;
            }
            a = a + 1;
        }
        proof {
            assert(names_of(fields[i as int]).take(entry.aliases@.len() + 1int) =~= names_of(
                fields[i as int],
            ));
            names = added;
        }
        i = i + 1;
    }
    assert(fields.take(table@.len() as int) =~= fields);
    let mut pattern = concat("^(?:", body.as_str());
    pattern.append("|");
    pattern.append(case_insensitive("txxx:").as_str());
    pattern.append(".+)$");
    pattern
}

/// The index of the first `=` in `raw`, or its length when there is none.
pub open spec fn equals_index(raw: Seq<char>) -> nat
    decreases raw.len(),
{
    if raw.len() == 0 || raw[0] == '=' {
        0
    } else {
        1 + equals_index(raw.skip(1))
    }
}

/// `equals_index` is the position of the first `=`.
proof fn lemma_equals_index(raw: Seq<char>, i: int)
    requires
        0 <= i <= raw.len(),
        forall|j: int| 0 <= j < i ==> raw[j] != '=',
        i < raw.len() ==> raw[i] == '=',
    ensures
        equals_index(raw) == i,
    decreases i,
{
    if i > 0 {
        lemma_equals_index(raw.skip(1), i - 1);
    }
}

/// The message for an empty value in `FIELD=VALUE`.
pub open spec fn empty_value_message(name: Seq<char>) -> Seq<char> {
    "empty value for '"@ + name + "'; use `idk clear tags --field "@ + name + "` to remove it"@
}

/// How `FIELD=VALUE` parses: split on the first `=`; the value must not be empty.
pub open spec fn assignment_of(raw: Seq<char>) -> Result<(FieldName, Seq<char>), Seq<char>> {
    let at = equals_index(raw) as int;
    if at == raw.len() {
        Err("expected FIELD=VALUE"@)
    } else {
        match parse_field(raw.take(at)) {
            None => Err(unknown_tag_message(raw.take(at))),
            Some(f) => if at + 1 == raw.len() {
                Err(empty_value_message(canonical_name(f)))
            } else {
                Ok((f, raw.skip(at + 1)))
            },
        }
    }
}

/// Parses `FIELD=VALUE` for `idk set tags`, splitting on the first `=`.
///
/// The value must not be empty; removing a field is `idk clear tags`.
pub fn parse_assignment(raw: &str) -> (r: Result<(TagField, String), String>)
    ensures
        match r {
            Ok((f, v)) => assignment_of(raw@) == Ok::<(FieldName, Seq<char>), Seq<char>>((f@, v@)),
            Err(e) => assignment_of(raw@) == Err::<(FieldName, Seq<char>), Seq<char>>(e@),
        },
{
    let cs = chars_of(raw);
    let n = cs.len();
    let mut at: usize = 0;
    while at < n && cs[at] != '='
        invariant
            n == cs@.len(),
            cs@ == raw@,
            at <= n,
            forall|j: int| 0 <= j < at ==> raw@[j] != '=',
        decreases n - at,
    {
        at = at + 1;
    }
    proof {
        lemma_equals_index(raw@, at as int);
    }
    if at == n {
        return Err(String::from_str("expected FIELD=VALUE"));
    }
    let name = raw.substring_char(0, at);
    assert(name@ =~= raw@.take(at as int));
    let field = match TagField::parse_name(name) {
        Ok(f) => f,
        Err(e) => return Err(e),
    };
    if at + 1 == n {
        let shown = field.name();
        let mut m = concat("empty value for '", shown.as_str());
        m.append("'; use `idk clear tags --field ");
        m.append(shown.as_str());
        m.append("` to remove it");
        return Err(m);
    }
    let value = raw.substring_char(at + 1, n);
    assert(value@ =~= raw@.skip(at + 1));
    Ok((field, String::from_str(value)))
}

/// The value parser for tag names on the command line; lists every field in `--help`.
#[derive(Clone, Copy, Debug)]
pub struct TagFieldParser;

impl TagFieldParser {
    /// Parses a tag name as given on the command line.
    pub fn parse(&self, raw: &str) -> (r: Result<TagField, String>)
        ensures
            match r {
                Ok(f) => parse_field(raw@) == Some(f@),
                Err(e) => parse_field(raw@) is None && e@ == unknown_tag_message(raw@),
            },
    {
        TagField::parse_name(raw)
    }

    /// The names listed as valid values: each canonical name, then `txxx:<description>`.
    pub fn valid_names(&self) -> (r: Vec<String>)
        ensures
            r@.len() == named_fields().len() + 1,
            forall|i: int|
                0 <= i < named_fields().len() ==> #[trigger] r@[i]@ == canonical_name(
                    named_fields()[i],
                ),
            r@[named_fields().len() as int]@ == txxx_placeholder(),
    {
        let table = named_table();
        let mut names: Vec<String> = Vec::new();
        let mut i: usize = 0;
        while i < table.len()
            invariant
                table@.len() == named_fields().len(),
                forall|k: int| 0 <= k < table@.len() ==> describes(#[trigger] table@[k], named_fields()[k]),
                i <= table@.len(),
                names@.len() == i,
                forall|k: int| 0 <= k < i ==> #[trigger] names@[k]@ == canonical_name(named_fields()[k]),
            decreases table@.len() - i,
        {
            assert(describes(table@[i as int], named_fields()[i as int]));
            names.push(String::from_str(table[i].name));
            i = i + 1;
        }
        names.push(String::from_str("txxx:<description>"));
        names
    }
}

impl std::str::FromStr for TagField {
    type Err = String;

    fn from_str(s: &str) -> (r: Result<TagField, String>)
        ensures
            match r {
                Ok(f) => parse_field(s@) == Some(f@),
                Err(e) => parse_field(s@) is None && e@ == unknown_tag_message(s@),
            },
    {
        TagField::parse_name(s)
    }
}

} // verus!
