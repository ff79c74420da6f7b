//! `idk schema`: where a config file finds the published schema.

use crate::text::concat;
use vstd::prelude::*;

verus! {

/// Whether a path's first component is `dot` (`Path::starts_with` for `.`
/// and `..` on Unix): the path is `dot` itself or continues with `/`.
pub open spec fn starts_with_component(path: Seq<char>, dot: Seq<char>) -> bool {
    path == dot || (path.len() > dot.len() && path.take(dot.len() as int) == dot && path[dot.len() as int]
        == '/')
}

/// Whether a path is absolute (starts at the root).
pub open spec fn is_absolute(path: Seq<char>) -> bool {
    path.len() > 0 && path[0] == '/'
}

/// `./idk.yaml.json` for a bare relative path, so editors resolve it next to
/// the config; other paths unchanged.
pub open spec fn reference_for(path: Seq<char>) -> Seq<char> {
    if !is_absolute(path) && !starts_with_component(path, "."@) && !starts_with_component(
        path,
        ".."@,
    ) {
        "./"@ + path
    } else {
        path
    }
}

/// Whether `path` starts with the component `dot`.
fn component_starts(path: &str, dot: &str) -> (r: bool)
    ensures
        r == starts_with_component(path@, dot@),
{
    let n = path.unicode_len();
    let m = dot.unicode_len();
    if n < m {
        return false;
    }
    let head = String::from_str(path.substring_char(0, m));
    assert(head@ =~= path@.take(m as int));
    if !crate::tag_field::str_eq(&head, dot) {
        proof {
            if path@ == dot@ {
                assert(path@.take(m as int) =~= dot@);
            }
        }
        return false;
    }
    if n == m {
        assert(path@ =~= dot@);
        return true;
    }
    path.get_char(m) == '/'
}

/// `./idk.yaml.json` for a bare relative path, so editors resolve it next to the config.
pub fn schema_reference(path: &str) -> (r: String)
    ensures
        r@ == reference_for(path@),
{
    let absolute = path.unicode_len() > 0 && path.get_char(0) == '/';
    if !absolute && !component_starts(path, ".") && !component_starts(path, "..") {
        concat("./", path)
    } else {
        String::from_str(path)
    }
}

} // verus!
