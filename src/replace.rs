//! Rewriting every rendering of one name into the same rendering of another.
use vstd::prelude::*;

use crate::naming::{Naming, NamingCase};
use crate::text::{chars_of, replace_chars, replaced, string_of};

verus! {

/// The number of renderings of a name.
pub const CASE_COUNT: usize = 8;

/// The renderings in the order in which they are replaced and detected:
/// each plural before its singular, so that a plural that extends its
/// singular is still seen whole.
pub open spec fn case_at(i: int) -> NamingCase {
    if i == 0 {
        NamingCase::PluralSnake
    } else if i == 1 {
        NamingCase::SingularSnake
    } else if i == 2 {
        NamingCase::PluralKebab
    } else if i == 3 {
        NamingCase::SingularKebab
    } else if i == 4 {
        NamingCase::PluralLowerCamel
    } else if i == 5 {
        NamingCase::SingularLowerCamel
    } else if i == 6 {
        NamingCase::PluralUpperCamel
    } else {
        NamingCase::SingularUpperCamel
    }
}

/// The rendering at position `i` of the replacement order.
pub fn case_in_order(i: usize) -> (c: NamingCase)
    requires
        i < CASE_COUNT,
    ensures
        c == case_at(i as int),
{
    if i == 0 {
        NamingCase::PluralSnake
    } else if i == 1 {
        NamingCase::SingularSnake
    } else if i == 2 {
        NamingCase::PluralKebab
    } else if i == 3 {
        NamingCase::SingularKebab
    } else if i == 4 {
        NamingCase::PluralLowerCamel
    } else if i == 5 {
        NamingCase::SingularLowerCamel
    } else if i == 6 {
        NamingCase::PluralUpperCamel
    } else {
        NamingCase::SingularUpperCamel
    }
}

/// `x` after the first `k` replacement steps, step `i` replacing the
/// rendering `case_at(i)` of `from` by the same rendering of `to`.
pub open spec fn substituted_upto(x: Seq<char>, from: Naming, to: Naming, k: nat) -> Seq<char>
    decreases k,
{
    if k == 0 {
        x
    } else {
        let c = case_at(k - 1);
        replaced(substituted_upto(x, from, to, (k - 1) as nat), from.variant(c), to.variant(c))
    }
}

/// `x` with every rendering of `from` replaced, in order, by that of `to`.
pub open spec fn substituted(x: Seq<char>, from: Naming, to: Naming) -> Seq<char> {
    substituted_upto(x, from, to, CASE_COUNT as nat)
}

/// Replaces in `text` each rendering of `from` by the same rendering of
/// `to`, one rendering after the other in the order of `case_at`.
pub fn substitute_all(text: &str, from: &Naming, to: &Naming) -> (r: String)
    ensures
        r@ == substituted(text@, *from, *to),
{
    let mut cur = chars_of(text);
    let mut k: usize = 0;
    while k < CASE_COUNT
        invariant
            k <= CASE_COUNT,
            cur@ == substituted_upto(text@, *from, *to, k as nat),
        decreases CASE_COUNT - k,
    {
        let c = case_in_order(k);
        let p = chars_of(from.case(c));
        let t = chars_of(to.case(c));
        cur = replace_chars(&cur, &p, &t);
        k = k + 1;
    }
    string_of(&cur)
}

/// Replacing a pattern by itself leaves the text as it was.
pub proof fn lemma_replaced_same(s: Seq<char>, p: Seq<char>)
    ensures
        replaced(s, p, p) == s,
    decreases s.len(),
{
    if s.len() == 0 {
    } else if p.len() == 0 {
        lemma_replaced_same(s.drop_first(), p);
        assert(p + seq![s[0]] + s.drop_first() =~= s);
    } else if p.len() <= s.len() && s.subrange(0, p.len() as int) == p {
        let rest = s.subrange(p.len() as int, s.len() as int);
        lemma_replaced_same(rest, p);
        assert(p + rest =~= s);
    } else {
        lemma_replaced_same(s.drop_first(), p);
        assert(seq![s[0]] + s.drop_first() =~= s);
    }
}

proof fn lemma_substituted_upto_same(x: Seq<char>, n: Naming, k: nat)
    ensures
        substituted_upto(x, n, n, k) == x,
    decreases k,
{
    if k > 0 {
        lemma_substituted_upto_same(x, n, (k - 1) as nat);
        let c = case_at(k - 1);
        lemma_replaced_same(x, n.variant(c));
    }
}

/// Substituting a name for itself changes no text.
pub proof fn lemma_substitute_identity(x: Seq<char>, n: Naming)
    ensures
        substituted(x, n, n) == x,
{
    lemma_substituted_upto_same(x, n, CASE_COUNT as nat);
}

/// Before the first occurrence of a character that `s` lacks, the pieces
/// of `replaced(s, a, b)` hold no copy of it.
proof fn lemma_marker_not_early(s: Seq<char>, a: Seq<char>, b: Seq<char>, k: int)
    requires
        a.len() > 0,
        0 <= k < b.len(),
        forall|i: int| 0 <= i < k ==> b[i] != b[k],
        !s.contains(b[k]),
    ensures
        forall|i: int|
            0 <= i < k && i < replaced(s, a, b).len() ==> #[trigger] replaced(s, a, b)[i] != b[k],
    decreases s.len(),
{
    if s.len() == 0 {
    } else if a.len() <= s.len() && s.subrange(0, a.len() as int) == a {
        let rest = s.subrange(a.len() as int, s.len() as int);
        assert forall|j: int| 0 <= j < rest.len() implies rest[j] != b[k] by {
            assert(rest[j] == s[j + a.len()]);
        }
        lemma_marker_not_early(rest, a, b, k);
    } else {
        let rest = s.drop_first();
        assert forall|j: int| 0 <= j < rest.len() implies rest[j] != b[k] by {
            assert(rest[j] == s[j + 1]);
        }
        assert(s[0] != b[k]) by {
            assert(s.contains(s[0]));
        }
        lemma_marker_not_early(rest, a, b, k);
        let z = replaced(rest, a, b);
        assert(replaced(s, a, b) == seq![s[0]] + z);
        assert forall|i: int|
            0 <= i < k && i < replaced(s, a, b).len() implies #[trigger] replaced(s, a, b)[i]
            != b[k] by {
            if i > 0 {
                assert(replaced(s, a, b)[i] == z[i - 1]);
            }
        }
    }
}

/// Replacing `a` by `b` and then `b` by `a` gives back the text, where `a`
/// is not empty and `b` holds a character that the text lacks.
pub proof fn lemma_replace_round_trip(s: Seq<char>, a: Seq<char>, b: Seq<char>, m: char)
    requires
        a.len() > 0,
        b.contains(m),
        !s.contains(m),
    ensures
        replaced(replaced(s, a, b), b, a) == s,
    decreases s.len(),
{
    let k = choose|k: int| 0 <= k < b.len() && b[k] == m && forall|i: int| 0 <= i < k ==> b[i] != m;
    assert(exists|k: int| 0 <= k < b.len() && b[k] == m && forall|i: int| 0 <= i < k ==> b[i] != m) by {
        lemma_first_index(b, m);
    }
    if s.len() == 0 {
    } else if a.len() <= s.len() && s.subrange(0, a.len() as int) == a {
        let rest = s.subrange(a.len() as int, s.len() as int);
        assert forall|j: int| 0 <= j < rest.len() implies rest[j] != m by {
            assert(rest[j] == s[j + a.len()]);
            assert(s.contains(s[j + a.len()]));
        }
        lemma_replace_round_trip(rest, a, b, m);
        let z = replaced(rest, a, b);
        let y = b + z;
        assert(y.subrange(0, b.len() as int) =~= b);
        assert(y.subrange(b.len() as int, y.len() as int) =~= z);
        assert(a + rest =~= s);
    } else {
        let rest = s.drop_first();
        assert forall|j: int| 0 <= j < rest.len() implies rest[j] != m by {
            assert(rest[j] == s[j + 1]);
            assert(s.contains(s[j + 1]));
        }
        assert(s[0] != m) by {
            assert(s.contains(s[0]));
        }
        lemma_replace_round_trip(rest, a, b, m);
        lemma_marker_not_early(rest, a, b, k);
        let z = replaced(rest, a, b);
        let y = seq![s[0]] + z;
        assert(y.drop_first() =~= z);
        if b.len() <= y.len() && y.subrange(0, b.len() as int) == b {
            assert(y.subrange(0, b.len() as int)[k] == b[k]);
            if k > 0 {
                assert(y[k] == z[k - 1]);
            }
        }
        assert(seq![s[0]] + rest =~= s);
    }
}

/// A character that a sequence holds has a first position in it.
proof fn lemma_first_index(b: Seq<char>, m: char)
    requires
        b.contains(m),
    ensures
        exists|k: int| 0 <= k < b.len() && b[k] == m && forall|i: int| 0 <= i < k ==> b[i] != m,
    decreases b.len(),
{
    if b[0] == m {
        assert(0 <= 0 < b.len() && b[0] == m && forall|i: int| 0 <= i < 0 ==> b[i] != m);
    } else {
        let j = choose|j: int| 0 <= j < b.len() && b[j] == m;
        let r = b.drop_first();
        assert(r[j - 1] == m);
        lemma_first_index(r, m);
        let k = choose|k: int| 0 <= k < r.len() && r[k] == m && forall|i: int| 0 <= i < k ==> r[i] != m;
        assert forall|i: int| 0 <= i < k + 1 implies b[i] != m by {
            if i > 0 {
                assert(b[i] == r[i - 1]);
            }
        }
        assert(b[k + 1] == m);
    }
}

} // verus!
