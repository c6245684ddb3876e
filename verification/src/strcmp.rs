//! Lexicographic comparison of strings by code point, the order in which
//! tag keys and set members are encoded.

use vstd::prelude::*;
use vstd::string::*;

verus! {

/// Strict lexicographic order on character sequences by code point.
pub open spec fn lex_lt(a: Seq<char>, b: Seq<char>) -> bool
    decreases a.len(),
{
    if b.len() == 0 {
        false
    } else if a.len() == 0 {
        true
    } else if a[0] < b[0] {
        true
    } else if a[0] == b[0] {
        lex_lt(a.drop_first(), b.drop_first())
    } else {
        false
    }
}

/// How one key stands to another.
#[derive(Debug, Clone, Copy, PartialEq, Eq)]
pub enum KeyOrder {
    Less,
    Equal,
    Greater,
}

pub proof fn lemma_lex_asym(a: Seq<char>, b: Seq<char>)
    requires
        lex_lt(a, b),
    ensures
        !lex_lt(b, a),
        a != b,
    decreases a.len(),
{
    if b.len() == 0 {
    } else if a.len() == 0 {
    } else if a[0] < b[0] {
    } else if a[0] == b[0] {
        lemma_lex_asym(a.drop_first(), b.drop_first());
        assert(a != b) by {
            if a == b {
                assert(a.drop_first() =~= b.drop_first());
            }
        }
    }
}

pub proof fn lemma_lex_trichotomy(a: Seq<char>, b: Seq<char>)
    ensures
        lex_lt(a, b) || lex_lt(b, a) || a == b,
    decreases a.len(),
{
    if a.len() == 0 || b.len() == 0 {
        if a.len() == 0 && b.len() == 0 {
            assert(a =~= b);
        }
    } else if a[0] == b[0] {
        lemma_lex_trichotomy(a.drop_first(), b.drop_first());
        if a.drop_first() == b.drop_first() {
            assert(a.drop_first().len() == a.len() - 1);
            assert(b.drop_first().len() == b.len() - 1);
            assert(a.len() == b.len());
            assert forall|i: int| 0 <= i < a.len() implies a[i] == b[i] by {
                if i > 0 {
                    assert(a[i] == a.drop_first()[i - 1]);
                    assert(b[i] == b.drop_first()[i - 1]);
                }
            }
            assert(a =~= b);
        }
    }
}

proof fn lemma_lex_at_index(a: Seq<char>, b: Seq<char>, i: int)
    requires
        0 <= i < a.len(),
        i < b.len(),
        forall|k: int| 0 <= k < i ==> a[k] == b[k],
        a[i] < b[i],
    ensures
        lex_lt(a, b),
    decreases i,
{
    if i > 0 {
        lemma_lex_at_index(a.drop_first(), b.drop_first(), i - 1);
    }
}

proof fn lemma_lex_prefix(a: Seq<char>, b: Seq<char>)
    requires
        a.len() < b.len(),
        forall|k: int| 0 <= k < a.len() ==> a[k] == b[k],
    ensures
        lex_lt(a, b),
    decreases a.len(),
{
    if a.len() > 0 {
        lemma_lex_prefix(a.drop_first(), b.drop_first());
    }
}

/// Compares two strings character by character, by code point.
pub fn str_compare(a: &str, b: &str) -> (r: KeyOrder)
    ensures
        r == KeyOrder::Less <==> lex_lt(a@, b@),
        r == KeyOrder::Equal <==> a@ == b@,
        r == KeyOrder::Greater <==> lex_lt(b@, a@),
{
    let na = a.unicode_len();
    let nb = b.unicode_len();
    let mut i: usize = 0;
    while i < na && i < nb
        invariant
            na == a@.len(),
            nb == b@.len(),
            0 <= i <= na,
            i <= nb,
            forall|k: int| 0 <= k < i ==> a@[k] == b@[k],
        decreases na - i,
    {
        let ca = a.get_char(i);
        let cb = b.get_char(i);
        if ca < cb {
            proof {
                lemma_lex_at_index(a@, b@, i as int);
                lemma_lex_asym(a@, b@);
            }
            return KeyOrder::Less;
        }
        if cb < ca {
            proof {
                lemma_lex_at_index(b@, a@, i as int);
                lemma_lex_asym(b@, a@);
            }
            return KeyOrder::Greater;
        }
        proof {
            assert(ca == cb);
        }
        i = i + 1;
    }
    if na == nb {
        proof {
            assert(a@ =~= b@);
            lemma_lex_trichotomy(a@, b@);
            if lex_lt(a@, b@) {
                lemma_lex_asym(a@, b@);
            }
        }
        KeyOrder::Equal
    } else if na < nb {
        proof {
            lemma_lex_prefix(a@, b@);
            lemma_lex_asym(a@, b@);
        }
        KeyOrder::Less
    } else {
        proof {
            lemma_lex_prefix(b@, a@);
            lemma_lex_asym(b@, a@);
        }
        KeyOrder::Greater
    }
}

/// Whether two strings hold the same characters.
pub fn str_eq(a: &str, b: &str) -> (r: bool)
    ensures
        r == (a@ == b@),
{
    match str_compare(a, b) {
        KeyOrder::Equal => true,
        _ => false,
    }
}

} // verus!
