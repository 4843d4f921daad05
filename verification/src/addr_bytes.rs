//! Byte-level lexicographic order on account identities.
//!
//! Every ledger engine in this crate stores its per-account records in a
//! list kept strictly ascending by the UTF-8 bytes of the owning account's
//! text, the same order an ordered key-value store yields when it scans
//! string keys. This module defines that order as a spec function, proves
//! the ordering facts the stores need, and gives an executable three-way
//! comparison.
use vstd::prelude::*;

verus! {

use vstd::string::StringSliceAdditionalSpecFns;
use vstd::utf8::encode_utf8;

/// The storage key of an account identity: the UTF-8 bytes of its text.
pub open spec fn key_of(s: Seq<char>) -> Seq<u8> {
    encode_utf8(s)
}

/// Strict lexicographic order on byte strings: `a` comes before `b`.
pub open spec fn lex_lt(a: Seq<u8>, b: Seq<u8>) -> bool
    decreases a.len(),
{
    if b.len() == 0 {
        false
    } else if a.len() == 0 {
        true
    } else if a[0] < b[0] {
        true
    } else if a[0] > b[0] {
        false
    } else {
        lex_lt(a.skip(1), b.skip(1))
    }
}

/// The order is irreflexive and asymmetric: at most one of
/// `a < b`, `a == b`, `b < a` holds.
pub proof fn lemma_lex_asymmetric(a: Seq<u8>, b: Seq<u8>)
    ensures
        lex_lt(a, b) ==> !lex_lt(b, a),
        lex_lt(a, b) ==> a != b,
    decreases a.len(),
{
    if a.len() > 0 && b.len() > 0 && a[0] == b[0] {
        lemma_lex_asymmetric(a.skip(1), b.skip(1));
        if lex_lt(a, b) && a == b {
            assert(a.skip(1) == b.skip(1));
        }
    } else {
        if lex_lt(a, b) && a == b {
            assert(a.len() == b.len());
        }
    }
}

/// The order is total: two byte strings that are not equal are ordered.
pub proof fn lemma_lex_total(a: Seq<u8>, b: Seq<u8>)
    ensures
        a == b || lex_lt(a, b) || lex_lt(b, a),
    decreases a.len(),
{
    if a.len() > 0 && b.len() > 0 && a[0] == b[0] {
        lemma_lex_total(a.skip(1), b.skip(1));
        if a.skip(1) == b.skip(1) {
            assert(a =~= seq![a[0]] + a.skip(1));
            assert(b =~= seq![b[0]] + b.skip(1));
        }
    } else if a.len() == 0 && b.len() == 0 {
        assert(a =~= b);
    }
}

/// The order is transitive.
pub proof fn lemma_lex_transitive(a: Seq<u8>, b: Seq<u8>, c: Seq<u8>)
    requires
        lex_lt(a, b),
        lex_lt(b, c),
    ensures
        lex_lt(a, c),
    decreases a.len() + b.len() + c.len(),
{
    if a.len() == 0 {
        assert(c.len() > 0);
    } else {
        assert(b.len() > 0 && c.len() > 0);
        if a[0] == b[0] && b[0] == c[0] {
            lemma_lex_transitive(a.skip(1), b.skip(1), c.skip(1));
        }
    }
}

/// Result of a three-way byte comparison.
#[derive(PartialEq, Eq, Structural, Clone, Copy)]
pub enum ByteCmp {
    Lt,
    Eq,
    Gt,
}

/// Once two byte strings agree on a common prefix, their order is decided
/// by what remains.
proof fn lemma_lex_common_prefix(a: Seq<u8>, b: Seq<u8>, i: int)
    requires
        0 <= i <= a.len(),
        i <= b.len(),
        a.subrange(0, i) == b.subrange(0, i),
    ensures
        lex_lt(a, b) == lex_lt(a.skip(i), b.skip(i)),
    decreases i,
{
    if i > 0 {
        assert(a[0] == b[0]) by {
            assert(a.subrange(0, i)[0] == a[0]);
            assert(b.subrange(0, i)[0] == b[0]);
        }
        assert(a.len() > 0 && b.len() > 0);
        assert(lex_lt(a, b) == lex_lt(a.skip(1), b.skip(1)));
        assert(a.skip(1).subrange(0, i - 1) == b.skip(1).subrange(0, i - 1)) by {
            assert(a.skip(1).subrange(0, i - 1) =~= a.subrange(0, i).skip(1));
            assert(b.skip(1).subrange(0, i - 1) =~= b.subrange(0, i).skip(1));
        }
        lemma_lex_common_prefix(a.skip(1), b.skip(1), i - 1);
        assert(a.skip(1).skip(i - 1) =~= a.skip(i));
        assert(b.skip(1).skip(i - 1) =~= b.skip(i));
    } else {
        assert(a.skip(0) =~= a);
        assert(b.skip(0) =~= b);
    }
}

/// Three-way comparison of two byte slices in lexicographic order.
pub fn cmp_bytes(a: &[u8], b: &[u8]) -> (r: ByteCmp)
    ensures
        (r is Lt) == lex_lt(a@, b@),
        (r is Eq) == (a@ == b@),
        (r is Gt) == lex_lt(b@, a@),
{
    let a_len: usize = a.len();
    let b_len: usize = b.len();
    let mut i: usize = 0;
    while i < a_len && i < b_len
        invariant
            i <= a_len,
            i <= b_len,
            a_len == a@.len(),
            b_len == b@.len(),
            a@.subrange(0, i as int) == b@.subrange(0, i as int),
        decreases a@.len() - i,
    {
        let x = a[i];
        let y = b[i];
        proof {
            lemma_lex_common_prefix(a@, b@, i as int);
            lemma_lex_common_prefix(b@, a@, i as int);
        }
        if x < y {
            proof {
                if a@ == b@ {
                    assert(a@[i as int] == b@[i as int]);
                }
            }
            return ByteCmp::Lt;
        }
        if x > y {
            proof {
                if a@ == b@ {
                    assert(a@[i as int] == b@[i as int]);
                }
            }
            return ByteCmp::Gt;
        }
        assert(a@.subrange(0, i + 1) == b@.subrange(0, i + 1)) by {
            assert(a@.subrange(0, i + 1) =~= a@.subrange(0, i as int).push(a@[i as int]));
            assert(b@.subrange(0, i + 1) =~= b@.subrange(0, i as int).push(b@[i as int]));
        }
        i = i + 1;
    }
    proof {
        lemma_lex_common_prefix(a@, b@, i as int);
        lemma_lex_common_prefix(b@, a@, i as int);
    }
    if a_len == b_len {
        assert(a@ =~= b@) by {
            assert forall|k: int| 0 <= k < a@.len() implies a@[k] == b@[k] by {
                assert(a@.subrange(0, i as int)[k] == a@[k]);
                assert(b@.subrange(0, i as int)[k] == b@[k]);
            }
        }
        ByteCmp::Eq
    } else if a_len < b_len {
        proof {
            if a@ == b@ {
                assert(a@.len() == b@.len());
            }
        }
        ByteCmp::Lt
    } else {
        proof {
            if a@ == b@ {
                assert(a@.len() == b@.len());
            }
        }
        ByteCmp::Gt
    }
}

/// Three-way comparison of two account identities by their storage keys.
pub fn cmp_addr(a: &str, b: &str) -> (r: ByteCmp)
    ensures
        (r is Lt) == lex_lt(key_of(a@), key_of(b@)),
        (r is Eq) == (key_of(a@) == key_of(b@)),
        (r is Gt) == lex_lt(key_of(b@), key_of(a@)),
{
    cmp_bytes(a.as_bytes(), b.as_bytes())
}

/// Whether two account identities have the same storage key.
pub fn same_addr(a: &str, b: &str) -> (r: bool)
    ensures
        r == (key_of(a@) == key_of(b@)),
{
    matches!(cmp_addr(a, b), ByteCmp::Eq)
}

} // verus!
