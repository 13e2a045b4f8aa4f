//! Case-insensitive ordering of group and variant names.
//!
//! Keys are compared by the sequence of their characters' code points
//! with ASCII letters taken to lower case, in lexicographic order. The
//! stored names keep their original casing; only lookups and ordering
//! go through this fold.
use vstd::prelude::*;

verus! {

use vstd::string::StrSliceExecFns;

/// The code point of a character with an ASCII capital letter folded
/// to lower case.
pub open spec fn lower_code(c: char) -> u32 {
    if 65 <= c as u32 && c as u32 <= 90 {
        (c as u32 + 32) as u32
    } else {
        c as u32
    }
}

/// A name folded for lookup: the sequence of its characters' code
/// points, ASCII letters in lower case.
pub open spec fn lower_seq(s: Seq<char>) -> Seq<u32> {
    s.map_values(|c: char| lower_code(c))
}

/// Lexicographic order on sequences of code points; a proper prefix
/// comes first.
pub open spec fn lex_lt(a: Seq<u32>, b: Seq<u32>) -> bool
    decreases a.len(),
{
    if b.len() == 0 {
        false
    } else if a.len() == 0 {
        true
    } else if a[0] < b[0] {
        true
    } else if a[0] > b[0] {
        false
    } else {
        lex_lt(a.skip(1), b.skip(1))
    }
}

/// Of two distinct sequences one is lexicographically smaller; a
/// sequence is never smaller than itself.
pub proof fn lemma_lex_total(a: Seq<u32>, b: Seq<u32>)
    ensures
        lex_lt(a, b) || lex_lt(b, a) || a == b,
        lex_lt(a, b) ==> !lex_lt(b, a),
        lex_lt(a, b) ==> a != b,
    decreases a.len(),
{
    if b.len() == 0 || a.len() == 0 {
        if a.len() == 0 && b.len() == 0 {
            assert(a =~= b);
        }
    } else if a[0] == b[0] {
        lemma_lex_total(a.skip(1), b.skip(1));
        if !lex_lt(a, b) && !lex_lt(b, a) {
            assert(a.skip(1) == b.skip(1));
            assert forall|i: int| 0 <= i < a.len() implies a[i] == b[i] by {
                if i > 0 {
                    assert(a[i] == a.skip(1)[i - 1]);
                    assert(b[i] == b.skip(1)[i - 1]);
                }
            }
            assert(a =~= b);
        }
        if lex_lt(a, b) && a == b {
            assert(lex_lt(a.skip(1), a.skip(1)));
        }
    }
}

/// Lexicographic order is transitive.
pub proof fn lemma_lex_trans(a: Seq<u32>, b: Seq<u32>, c: Seq<u32>)
    requires
        lex_lt(a, b),
        lex_lt(b, c),
    ensures
        lex_lt(a, c),
    decreases a.len(),
{
    if a.len() == 0 {
        if c.len() == 0 {
            assert(b.len() > 0);
        }
    } else {
        if b.len() > 0 && c.len() > 0 {
            if a[0] == b[0] && b[0] == c[0] {
                lemma_lex_trans(a.skip(1), b.skip(1), c.skip(1));
            }
        }
    }
}

/// Dropping an equal prefix of the two sequences does not change their
/// order.
pub proof fn lemma_lex_skip(a: Seq<u32>, b: Seq<u32>, i: int)
    requires
        0 <= i <= a.len(),
        i <= b.len(),
        forall|j: int| 0 <= j < i ==> a[j] == b[j],
    ensures
        lex_lt(a, b) == lex_lt(a.skip(i), b.skip(i)),
    decreases i,
{
    if i > 0 {
        assert(a.len() > 0 && b.len() > 0);
        assert(a[0] == b[0]);
        assert forall|j: int| 0 <= j < i - 1 implies a.skip(1)[j] == b.skip(1)[j] by {
            assert(a.skip(1)[j] == a[j + 1]);
            assert(b.skip(1)[j] == b[j + 1]);
        }
        lemma_lex_skip(a.skip(1), b.skip(1), i - 1);
        assert(a.skip(1).skip(i - 1) =~= a.skip(i));
        assert(b.skip(1).skip(i - 1) =~= b.skip(i));
        assert(lex_lt(a, b) == lex_lt(a.skip(1), b.skip(1)));
    } else {
        assert(a.skip(0) =~= a);
        assert(b.skip(0) =~= b);
    }
}

/// The outcome of a key comparison.
#[derive(Debug, Clone, Copy, PartialEq, Eq, Structural)]
pub enum KeyOrd {
    Less,
    Equal,
    Greater,
}

/// Compare two names case-insensitively, in the lexicographic order of
/// their folded code points.
pub fn key_cmp(a: &str, b: &str) -> (r: KeyOrd)
    ensures
        (r == KeyOrd::Less) == lex_lt(lower_seq(a@), lower_seq(b@)),
        (r == KeyOrd::Greater) == lex_lt(lower_seq(b@), lower_seq(a@)),
        (r == KeyOrd::Equal) == (lower_seq(a@) == lower_seq(b@)),
{
    let alen: usize = a.unicode_len();
    let blen: usize = b.unicode_len();
    let ghost la = lower_seq(a@);
    let ghost lb = lower_seq(b@);
    let n: usize = if alen < blen {
        alen
    } else {
        blen
    };
    let mut i: usize = 0;
    while i < n
        invariant
            i <= n,
            n == if alen < blen {
                alen
            } else {
                blen
            },
            alen == a@.len(),
            blen == b@.len(),
            la == lower_seq(a@),
            lb == lower_seq(b@),
            forall|j: int| 0 <= j < i ==> la[j] == lb[j],
        decreases n - i,
    {
        let ca = lower_char_code(a.get_char(i));
        let cb = lower_char_code(b.get_char(i));
        proof {
            assert(la[i as int] == lower_code(a@[i as int]));
            assert(lb[i as int] == lower_code(b@[i as int]));
        }
        if ca < cb {
            proof {
                lemma_lex_skip(la, lb, i as int);
                assert(la.skip(i as int)[0] == la[i as int]);
                assert(lb.skip(i as int)[0] == lb[i as int]);
                assert(lex_lt(la.skip(i as int), lb.skip(i as int)));
                lemma_lex_total(la, lb);
            }
            return KeyOrd::Less;
        }
        if cb < ca {
            proof {
                lemma_lex_skip(lb, la, i as int);
                assert(la.skip(i as int)[0] == la[i as int]);
                assert(lb.skip(i as int)[0] == lb[i as int]);
                assert(lex_lt(lb.skip(i as int), la.skip(i as int)));
                lemma_lex_total(la, lb);
            }
            return KeyOrd::Greater;
        }
        i = i + 1;
    }
    proof {
        lemma_lex_skip(la, lb, n as int);
        lemma_lex_skip(lb, la, n as int);
        lemma_lex_total(la, lb);
        if alen == blen {
            assert(la =~= lb);
        }
    }
    if alen < blen {
        KeyOrd::Less
    } else if blen < alen {
        KeyOrd::Greater
    } else {
        KeyOrd::Equal
    }
}

/// The folded code point of one character.
pub fn lower_char_code(c: char) -> (r: u32)
    ensures
        r == lower_code(c),
{
    let code = c as u32;
    if 65 <= code && code <= 90 {
        code + 32
    } else {
        code
    }
}

/// Whether two names are the same key, comparing case-insensitively.
pub fn eq_ci(a: &str, b: &str) -> (r: bool)
    ensures
        r == (lower_seq(a@) == lower_seq(b@)),
{
    match key_cmp(a, b) {
        KeyOrd::Equal => true,
        _ => false,
    }
}

} // verus!
