//! Sets of strings kept as sorted vectors.
//!
//! `String`'s `Ord` compares UTF-8 bytes, which orders strings exactly as
//! comparing their characters by code point does; that is the order used here.

use vstd::prelude::*;

verus! {

/// Whether `a` sorts before `b` (lexicographic, by code point).
pub open spec fn text_lt(a: Seq<char>, b: Seq<char>) -> bool
    decreases a.len(),
{
    if a.len() == 0 {
        b.len() > 0
    } else if b.len() == 0 {
        false
    } else if a[0] != b[0] {
        a[0] < b[0]
    } else {
        text_lt(a.skip(1), b.skip(1))
    }
}

/// Whether `s` is strictly increasing, hence free of duplicates.
pub open spec fn strictly_sorted(s: Seq<Seq<char>>) -> bool {
    forall|i: int, j: int| 0 <= i < j < s.len() ==> text_lt(#[trigger] s[i], #[trigger] s[j])
}

/// The views of a vector of strings.
pub open spec fn strings_view(v: Seq<String>) -> Seq<Seq<char>> {
    v.map_values(|s: String| s@)
}

/// No string sorts before itself.
pub proof fn lemma_text_lt_irreflexive(a: Seq<char>)
    ensures
        !text_lt(a, a),
    decreases a.len(),
{
    if a.len() > 0 {
        lemma_text_lt_irreflexive(a.skip(1));
    }
}

/// The order is transitive.
pub proof fn lemma_text_lt_transitive(a: Seq<char>, b: Seq<char>, c: Seq<char>)
    requires
        text_lt(a, b),
        text_lt(b, c),
    ensures
        text_lt(a, c),
    decreases a.len(),
{
    if a.len() > 0 && b.len() > 0 && c.len() > 0 && a[0] == b[0] && b[0] == c[0] {
        lemma_text_lt_transitive(a.skip(1), b.skip(1), c.skip(1));
    }
}

/// Two different strings are ordered one way or the other.
pub proof fn lemma_text_lt_total(a: Seq<char>, b: Seq<char>)
    requires
        a != b,
    ensures
        text_lt(a, b) || text_lt(b, a),
    decreases a.len(),
{
    if a.len() > 0 && b.len() > 0 && a[0] == b[0] {
        if a.skip(1) == b.skip(1) {
            assert(a =~= seq![a[0]] + a.skip(1));
            assert(b =~= seq![b[0]] + b.skip(1));
        }
        lemma_text_lt_total(a.skip(1), b.skip(1));
    } else if a.len() == 0 && b.len() == 0 {
        assert(a =~= b);
    }
}

/// Comparing after a common prefix of length `i`.
proof fn lemma_text_lt_after_prefix(a: Seq<char>, b: Seq<char>, i: int)
    requires
        0 <= i <= a.len(),
        i <= b.len(),
        forall|j: int| 0 <= j < i ==> a[j] == b[j],
    ensures
        text_lt(a, b) == text_lt(a.skip(i), b.skip(i)),
    decreases i,
{
    if i > 0 {
        lemma_text_lt_after_prefix(a.skip(1), b.skip(1), i - 1);
        assert(a.skip(1).skip(i - 1) =~= a.skip(i));
        assert(b.skip(1).skip(i - 1) =~= b.skip(i));
    } else {
        assert(a.skip(0) =~= a);
        assert(b.skip(0) =~= b);
    }
}

/// Whether `a` sorts before `b`.
pub fn str_lt(a: &str, b: &str) -> (r: bool)
    ensures
        r == text_lt(a@, b@),
{
    let la = a.unicode_len();
    let lb = b.unicode_len();
    let mut i: usize = 0;
    while i < la && i < lb && a.get_char(i) == b.get_char(i)
        invariant
            la == a@.len(),
            lb == b@.len(),
            i <= la,
            i <= lb,
            forall|j: int| 0 <= j < i ==> a@[j] == b@[j],
        decreases la - i,
    {
        i = i + 1;
    }
    proof {
        lemma_text_lt_after_prefix(a@, b@, i as int);
        if i < la && i < lb {
            assert(a@.skip(i as int)[0] == a@[i as int]);
            assert(b@.skip(i as int)[0] == b@[i as int]);
        }
    }
    if i == la {
        i < lb
    } else if i == lb {
        false
    } else {
        a.get_char(i) < b.get_char(i)
    }
}

/// Adds `key` to a strictly sorted vector, keeping it strictly sorted.
pub fn insert_sorted(keys: &mut Vec<String>, key: String)
    requires
        strictly_sorted(strings_view(old(keys)@)),
    ensures
        strictly_sorted(strings_view(final(keys)@)),
        strings_view(final(keys)@).to_set() == strings_view(old(keys)@).to_set().insert(key@),
{
    let ghost before = strings_view(keys@);
    let mut i: usize = 0;
    while i < keys.len() && str_lt(keys[i].as_str(), key.as_str())
        invariant
            before == strings_view(keys@),
            strictly_sorted(before),
            i <= keys@.len(),
            forall|j: int| 0 <= j < i ==> text_lt(#[trigger] before[j], key@),
        decreases keys@.len() - i,
    {
        assert(before[i as int] == keys@[i as int]@);
        i = i + 1;
    }
    if i < keys.len() && keys[i] == key {
        assert(before[i as int] == key@);
        assert(before.to_set().insert(key@) =~= before.to_set());
        return;
    }
    proof {
        if i < keys@.len() {
            assert(before[i as int] == keys@[i as int]@);
            assert(!text_lt(before[i as int], key@));
            lemma_text_lt_total(before[i as int], key@);
        }
    }
    keys.insert(i, key);
    let ghost after = strings_view(keys@);
    proof {
        assert(after =~= before.insert(i as int, key@));
        assert forall|p: int, q: int| 0 <= p < q < after.len() implies text_lt(
            #[trigger] after[p],
            #[trigger] after[q],
        ) by {
            if q < i {
            } else if q == i {
            } else if p < i {
                assert(after[p] == before[p]);
                assert(after[q] == before[q - 1]);
            } else if p == i {
                if q - 1 > i {
                    lemma_text_lt_transitive(key@, before[i as int], before[q - 1]);
                }
            } else {
                assert(after[p] == before[p - 1]);
                assert(after[q] == before[q - 1]);
            }
        }
        assert forall|s: Seq<char>| #[trigger] after.to_set().contains(s) == before.to_set().insert(
            key@,
        ).contains(s) by {
            if after.contains(s) {
                let k = choose|k: int| 0 <= k < after.len() && after[k] == s;
                if k < i {
                    assert(before[k] == s);
                } else if k > i {
                    assert(before[k - 1] == s);
                }
            }
            if before.contains(s) {
                let k = choose|k: int| 0 <= k < before.len() && before[k] == s;
                if k < i {
                    assert(after[k] == s);
                } else {
                    assert(after[k + 1] == s);
                }
            }
            if s == key@ {
                assert(after[i as int] == s);
            }
        }
        assert(after.to_set() =~= before.to_set().insert(key@));
    }
}

} // verus!
