//! A sorted association list from account identity to amount: the model of
//! an ordered key-value store with string keys. Entries are kept strictly
//! ascending by the key's UTF-8 bytes, so keys are unique and a range scan
//! yields them in ascending order.
use vstd::prelude::*;

verus! {

use crate::addr_bytes::{ByteCmp, cmp_addr, key_of, lex_lt, lemma_lex_asymmetric,
    lemma_lex_total, lemma_lex_transitive};

/// The storage key of an entry.
pub open spec fn entry_key(e: (String, u128)) -> Seq<u8> {
    key_of(e.0@)
}

/// Index of the first entry filed under key `k`, or `-1` if there is none.
pub open spec fn kv_find(s: Seq<(String, u128)>, k: Seq<u8>) -> int
    decreases s.len(),
{
    if s.len() == 0 {
        -1
    } else if entry_key(s[0]) == k {
        0
    } else {
        let r = kv_find(s.skip(1), k);
        if r == -1 {
            -1
        } else {
            r + 1
        }
    }
}

/// Whether some entry is filed under key `k`.
pub open spec fn kv_has(s: Seq<(String, u128)>, k: Seq<u8>) -> bool {
    kv_find(s, k) >= 0
}

/// What `kv_find` finds: a valid index whose entry carries the key, with no
/// earlier entry carrying it; or `-1` when no entry does.
pub proof fn lemma_kv_find(s: Seq<(String, u128)>, k: Seq<u8>)
    ensures
        -1 <= kv_find(s, k) < s.len(),
        kv_find(s, k) >= 0 ==> entry_key(s[kv_find(s, k)]) == k,
        forall|i: int| 0 <= i < kv_find(s, k) ==> entry_key(s[i]) != k,
        kv_find(s, k) == -1 ==> forall|i: int| 0 <= i < s.len() ==> entry_key(s[i]) != k,
    decreases s.len(),
{
    if s.len() > 0 && entry_key(s[0]) != k {
        lemma_kv_find(s.skip(1), k);
        assert forall|i: int| 1 <= i < s.len() implies s.skip(1)[i - 1] == s[i] by {}
    }
}

/// `kv_find` returns the position of the first entry carrying the key.
pub proof fn lemma_kv_find_at(s: Seq<(String, u128)>, k: Seq<u8>, i: int)
    requires
        0 <= i < s.len(),
        entry_key(s[i]) == k,
        forall|j: int| 0 <= j < i ==> entry_key(s[j]) != k,
    ensures
        kv_find(s, k) == i,
    decreases s.len(),
{
    if i > 0 {
        lemma_kv_find_at(s.skip(1), k, i - 1);
    }
}

/// A key is present exactly when some entry carries it.
pub proof fn lemma_kv_has_iff_mem(s: Seq<(String, u128)>, k: Seq<u8>)
    ensures
        kv_has(s, k) <==> exists|i: int| 0 <= i < s.len() && entry_key(#[trigger] s[i]) == k,
{
    lemma_kv_find(s, k);
    if kv_find(s, k) >= 0 {
        assert(entry_key(s[kv_find(s, k)]) == k);
    }
}

/// The entries are strictly ascending by storage key.
pub open spec fn kv_sorted(s: Seq<(String, u128)>) -> bool {
    forall|i: int, j: int| 0 <= i < j < s.len() ==> lex_lt(entry_key(s[i]), entry_key(s[j]))
}

/// Index at which an entry with key `k` is inserted to keep the list
/// sorted.
pub open spec fn kv_ins(s: Seq<(String, u128)>, k: Seq<u8>) -> int
    decreases s.len(),
{
    if s.len() == 0 {
        0
    } else if lex_lt(entry_key(s[0]), k) {
        1 + kv_ins(s.skip(1), k)
    } else {
        0
    }
}

/// `kv_ins` is the boundary between the entries before `k` and those after.
pub proof fn lemma_kv_ins_at(s: Seq<(String, u128)>, k: Seq<u8>, i: int)
    requires
        0 <= i <= s.len(),
        forall|j: int| 0 <= j < i ==> lex_lt(entry_key(s[j]), k),
        forall|j: int| i <= j < s.len() ==> lex_lt(k, entry_key(s[j])),
    ensures
        kv_ins(s, k) == i,
    decreases s.len(),
{
    if i > 0 {
        lemma_kv_ins_at(s.skip(1), k, i - 1);
    } else if s.len() > 0 {
        lemma_lex_asymmetric(k, entry_key(s[0]));
    }
}

/// Where key `k` sits in a sorted list: `(true, i)` when entry `i` carries
/// `k`; `(false, i)` when no entry does and `i` is its insertion point.
pub fn kv_locate(entries: &Vec<(String, u128)>, addr: &str) -> (r: (bool, usize))
    requires
        kv_sorted(entries@),
    ensures
        ({
            let s = entries@;
            let k = key_of(addr@);
            &&& (r.0 ==> r.1 < s.len() && kv_find(s, k) == r.1 as int)
            &&& (!r.0 ==> {
                &&& kv_find(s, k) == -1
                &&& r.1 as int == kv_ins(s, k)
                &&& r.1 <= s.len()
                &&& forall|j: int| 0 <= j < r.1 ==> lex_lt(entry_key(s[j]), k)
                &&& forall|j: int| r.1 <= j < s.len() ==> lex_lt(k, entry_key(s[j]))
            })
        }),
{
    let ghost s = entries@;
    let ghost k = key_of(addr@);
    let n = entries.len();
    let mut i: usize = 0;
    while i < n
        invariant
            s == entries@,
            k == key_of(addr@),
            kv_sorted(s),
            n == entries.len(),
            i <= n,
            forall|j: int| 0 <= j < i ==> lex_lt(entry_key(s[j]), k),
        decreases n - i,
    {
        let c = cmp_addr(entries[i].0.as_str(), addr);
        match c {
            ByteCmp::Lt => {
                i = i + 1;
            },
            ByteCmp::Eq => {
                proof {
                    assert forall|j: int| 0 <= j < i implies entry_key(s[j]) != k by {
                        lemma_lex_asymmetric(entry_key(s[j]), k);
                    }
                    lemma_kv_find_at(s, k, i as int);
                }
                return (true, i);
            },
            ByteCmp::Gt => {
                proof {
                    assert forall|j: int| i <= j < s.len() implies lex_lt(k, entry_key(s[j])) by {
                        if j > i {
                            lemma_lex_transitive(k, entry_key(s[i as int]), entry_key(s[j]));
                        }
                    }
                    assert forall|j: int| 0 <= j < s.len() implies entry_key(s[j]) != k by {
                        if j < i {
                            lemma_lex_asymmetric(entry_key(s[j]), k);
                        } else {
                            lemma_lex_asymmetric(k, entry_key(s[j]));
                        }
                    }
                    lemma_kv_find(s, k);
                    if kv_find(s, k) >= 0 {
                        assert(entry_key(s[kv_find(s, k)]) == k);
                    }
                    lemma_kv_ins_at(s, k, i as int);
                }
                return (false, i);
            },
        }
    }
    proof {
        assert forall|j: int| 0 <= j < s.len() implies entry_key(s[j]) != k by {
            lemma_lex_asymmetric(entry_key(s[j]), k);
        }
        lemma_kv_find(s, k);
        if kv_find(s, k) >= 0 {
            assert(entry_key(s[kv_find(s, k)]) == k);
        }
        lemma_kv_ins_at(s, k, n as int);
    }
    (false, n)
}

/// The list after storing `amount` under the key of `e`: an existing entry
/// keeps its stored identity and takes the new amount; a fresh entry is
/// inserted at its sorted place.
pub open spec fn kv_upsert(s: Seq<(String, u128)>, e: (String, u128)) -> Seq<(String, u128)> {
    let k = entry_key(e);
    if kv_has(s, k) {
        s.update(kv_find(s, k), (s[kv_find(s, k)].0, e.1))
    } else {
        s.insert(kv_ins(s, k), e)
    }
}

/// Storing keeps the list sorted and grows it only for a fresh key.
pub proof fn lemma_kv_upsert_sorted(s: Seq<(String, u128)>, e: (String, u128))
    requires
        kv_sorted(s),
    ensures
        kv_sorted(kv_upsert(s, e)),
        kv_upsert(s, e).len() == s.len() + (if kv_has(s, entry_key(e)) { 0int } else { 1 }),
{
    let k = entry_key(e);
    lemma_kv_find(s, k);
    if kv_has(s, k) {
        let i = kv_find(s, k);
        let t = s.update(i, (s[i].0, e.1));
        assert(entry_key(t[i]) == entry_key(s[i]));
        assert forall|x: int, y: int| 0 <= x < y < t.len() implies lex_lt(
            entry_key(t[x]), entry_key(t[y])) by {}
    } else {
        let i = kv_ins(s, k);
        lemma_kv_ins_props(s, k);
        let t = s.insert(i, e);
        assert forall|x: int, y: int| 0 <= x < y < t.len() implies lex_lt(
            entry_key(t[x]), entry_key(t[y])) by {
            assert(forall|j: int| 0 <= j < i ==> t[j] == s[j]);
            assert(t[i] == e);
            assert(forall|j: int| i < j < t.len() ==> t[j] == s[j - 1]);
            assert forall|j: int| 0 <= j < i implies lex_lt(entry_key(s[j]), k) by {}
            assert forall|j: int| i <= j < s.len() implies lex_lt(k, entry_key(s[j])) by {
                lemma_lex_total(entry_key(s[j]), k);
                if entry_key(s[j]) == k {
                    lemma_kv_has_iff_mem(s, k);
                }
            }
        }
    }
}

/// In a sorted list, everything before the insertion point of `k` comes
/// before `k`, and nothing at or after it does.
pub proof fn lemma_kv_ins_props(s: Seq<(String, u128)>, k: Seq<u8>)
    requires
        kv_sorted(s),
    ensures
        0 <= kv_ins(s, k) <= s.len(),
        forall|j: int| 0 <= j < kv_ins(s, k) ==> lex_lt(entry_key(s[j]), k),
        forall|j: int| kv_ins(s, k) <= j < s.len() ==> !lex_lt(entry_key(s[j]), k),
    decreases s.len(),
{
    if s.len() > 0 {
        assert(kv_sorted(s.skip(1))) by {
            assert(forall|x: int| 0 <= x < s.skip(1).len() ==> s.skip(1)[x] == s[x + 1]);
        }
        lemma_kv_ins_props(s.skip(1), k);
        assert(forall|x: int| 0 <= x < s.skip(1).len() ==> s.skip(1)[x] == s[x + 1]);
        if lex_lt(entry_key(s[0]), k) {
            assert forall|j: int| 0 <= j < kv_ins(s, k) implies lex_lt(entry_key(s[j]), k) by {
                if j > 0 {
                    assert(s.skip(1)[j - 1] == s[j]);
                }
            }
            assert forall|j: int| kv_ins(s, k) <= j < s.len() implies !lex_lt(
                entry_key(s[j]), k) by {
                assert(s.skip(1)[j - 1] == s[j]);
            }
        } else {
            assert forall|j: int| 0 <= j < s.len() implies !lex_lt(entry_key(s[j]), k) by {
                if j > 0 && lex_lt(entry_key(s[j]), k) {
                    lemma_lex_transitive(entry_key(s[0]), entry_key(s[j]), k);
                }
            }
        }
    }
}

/// Storing under one key leaves every other key's presence alone, and makes
/// the stored key present.
pub proof fn lemma_kv_upsert_has(s: Seq<(String, u128)>, e: (String, u128), k2: Seq<u8>)
    requires
        kv_sorted(s),
    ensures
        kv_has(kv_upsert(s, e), k2) <==> (kv_has(s, k2) || entry_key(e) == k2),
{
    let k = entry_key(e);
    let t = kv_upsert(s, e);
    lemma_kv_find(s, k);
    lemma_kv_has_iff_mem(s, k2);
    lemma_kv_has_iff_mem(t, k2);
    lemma_kv_has_iff_mem(s, k);
    if kv_has(s, k) {
        let i = kv_find(s, k);
        assert(entry_key(t[i]) == k);
        assert forall|j: int| 0 <= j < s.len() implies entry_key(t[j]) == entry_key(s[j]) by {}
    } else {
        let i = kv_ins(s, k);
        lemma_kv_ins_props(s, k);
        assert(t[i] == e);
        assert(forall|j: int| 0 <= j < i ==> t[j] == s[j]);
        assert(forall|j: int| i < j < t.len() ==> t[j] == s[j - 1]);
        if kv_has(s, k2) {
            let w = choose|w: int| 0 <= w < s.len() && entry_key(s[w]) == k2;
            if w < i {
                assert(entry_key(t[w]) == k2);
            } else {
                assert(entry_key(t[w + 1]) == k2);
            }
        }
        if kv_has(t, k2) && k2 != k {
            let w = choose|w: int| 0 <= w < t.len() && entry_key(t[w]) == k2;
            if w < i {
                assert(entry_key(s[w]) == k2);
            } else if w > i {
                assert(entry_key(s[w - 1]) == k2);
            }
        }
    }
}

/// Store `amount` under `addr`, keeping the list sorted; reports whether a
/// fresh entry was inserted.
pub fn kv_store(entries: &mut Vec<(String, u128)>, addr: String, amount: u128) -> (inserted:
    bool)
    requires
        kv_sorted(old(entries)@),
    ensures
        final(entries)@ == kv_upsert(old(entries)@, (addr, amount)),
        kv_sorted(final(entries)@),
        inserted == !kv_has(old(entries)@, key_of(addr@)),
{
    let ghost s = entries@;
    let ghost e = (addr, amount);
    let (found, idx) = kv_locate(entries, addr.as_str());
    proof {
        assert(entry_key(e) == key_of(addr@));
        lemma_kv_upsert_sorted(s, e);
    }
    if found {
        let kept = entries[idx].0.clone();
        proof {
            assert(kept == s[idx as int].0);
        }
        entries.set(idx, (kept, amount));
        proof {
            assert(final(entries)@ =~= kv_upsert(s, e));
        }
        false
    } else {
        entries.insert(idx, (addr, amount));
        proof {
            assert(final(entries)@ =~= kv_upsert(s, e));
        }
        true
    }
}

/// The list after deleting key `k`: the entry carrying it is removed; a
/// missing key changes nothing.
pub open spec fn kv_removed(s: Seq<(String, u128)>, k: Seq<u8>) -> Seq<(String, u128)> {
    if kv_has(s, k) {
        s.remove(kv_find(s, k))
    } else {
        s
    }
}

/// Deleting keeps the list sorted, leaves every other key's presence alone,
/// and makes the deleted key absent.
pub proof fn lemma_kv_removed(s: Seq<(String, u128)>, k: Seq<u8>)
    requires
        kv_sorted(s),
    ensures
        kv_sorted(kv_removed(s, k)),
        kv_removed(s, k).len() == s.len() - (if kv_has(s, k) { 1int } else { 0 }),
        forall|k2: Seq<u8>| #[trigger] kv_has(kv_removed(s, k), k2) <==> (kv_has(s, k2)
            && k2 != k),
{
    lemma_kv_find(s, k);
    if kv_has(s, k) {
        let i = kv_find(s, k);
        let t = s.remove(i);
        assert(forall|j: int| 0 <= j < i ==> t[j] == s[j]);
        assert(forall|j: int| i <= j < t.len() ==> t[j] == s[j + 1]);
        assert forall|x: int, y: int| 0 <= x < y < t.len() implies lex_lt(
            entry_key(t[x]), entry_key(t[y])) by {}
        assert forall|k2: Seq<u8>| #[trigger] kv_has(t, k2) <==> (kv_has(s, k2) && k2 != k) by {
            lemma_kv_has_iff_mem(t, k2);
            lemma_kv_has_iff_mem(s, k2);
            if kv_has(s, k2) && k2 != k {
                let w = choose|w: int| 0 <= w < s.len() && entry_key(s[w]) == k2;
                if w < i {
                    assert(entry_key(t[w]) == k2);
                } else {
                    assert(entry_key(t[w - 1]) == k2);
                }
            }
            if kv_has(t, k2) {
                let w = choose|w: int| 0 <= w < t.len() && entry_key(t[w]) == k2;
                if w < i {
                    assert(entry_key(s[w]) == k2);
                } else {
                    assert(entry_key(s[w + 1]) == k2);
                }
                if k2 == k {
                    if w < i {
                        lemma_lex_asymmetric(entry_key(s[w]), entry_key(s[i]));
                    } else {
                        lemma_lex_asymmetric(entry_key(s[i]), entry_key(s[w + 1]));
                    }
                }
            }
        }
    } else {
        assert forall|k2: Seq<u8>| #[trigger] kv_has(kv_removed(s, k), k2) <==> (kv_has(s, k2)
            && k2 != k) by {
            lemma_kv_has_iff_mem(s, k2);
            lemma_kv_has_iff_mem(s, k);
            if kv_has(s, k2) && k2 == k {
            }
        }
    }
}

/// Delete the entry under `addr`, keeping the list sorted; reports whether
/// one was there.
pub fn kv_delete(entries: &mut Vec<(String, u128)>, addr: &str) -> (found: bool)
    requires
        kv_sorted(old(entries)@),
    ensures
        final(entries)@ == kv_removed(old(entries)@, key_of(addr@)),
        kv_sorted(final(entries)@),
        found == kv_has(old(entries)@, key_of(addr@)),
{
    let ghost s = entries@;
    let ghost k = key_of(addr@);
    let (found, idx) = kv_locate(entries, addr);
    proof {
        lemma_kv_removed(s, k);
    }
    if found {
        entries.remove(idx);
        proof {
            assert(final(entries)@ =~= kv_removed(s, k));
        }
        true
    } else {
        false
    }
}

/// The list after storing the first `i` entries of `m`, in order.
pub open spec fn kv_upsert_prefix(
    s0: Seq<(String, u128)>,
    m: Seq<(String, u128)>,
    i: int,
) -> Seq<(String, u128)>
    decreases i,
{
    if i <= 0 {
        s0
    } else {
        kv_upsert(kv_upsert_prefix(s0, m, i - 1), m[i - 1])
    }
}

/// How many of the first `i` entries of `m` were fresh when stored in
/// order.
pub open spec fn kv_fresh_count(s0: Seq<(String, u128)>, m: Seq<(String, u128)>, i: int) -> int
    decreases i,
{
    if i <= 0 {
        0
    } else {
        kv_fresh_count(s0, m, i - 1) + (if kv_has(
            kv_upsert_prefix(s0, m, i - 1), entry_key(m[i - 1]),
        ) {
            0int
        } else {
            1
        })
    }
}

/// Storing a prefix keeps the list sorted, and a key is present afterwards
/// exactly when it was present before or one of the stored entries carries
/// it.
pub proof fn lemma_kv_upsert_prefix(s0: Seq<(String, u128)>, m: Seq<(String, u128)>, i: int)
    requires
        kv_sorted(s0),
        0 <= i <= m.len(),
    ensures
        kv_sorted(kv_upsert_prefix(s0, m, i)),
        forall|k: Seq<u8>| #[trigger] kv_has(kv_upsert_prefix(s0, m, i), k) <==> (kv_has(s0, k)
            || exists|j: int| 0 <= j < i && entry_key(#[trigger] m[j]) == k),
        kv_upsert_prefix(s0, m, i).len() == s0.len() + kv_fresh_count(s0, m, i),
        0 <= kv_fresh_count(s0, m, i) <= i,
    decreases i,
{
    if i > 0 {
        lemma_kv_upsert_prefix(s0, m, i - 1);
        let prev = kv_upsert_prefix(s0, m, i - 1);
        lemma_kv_upsert_sorted(prev, m[i - 1]);
        assert forall|k: Seq<u8>| #[trigger] kv_has(kv_upsert_prefix(s0, m, i), k) <==> (
            kv_has(s0, k) || exists|j: int| 0 <= j < i && entry_key(#[trigger] m[j]) == k) by {
            lemma_kv_upsert_has(prev, m[i - 1], k);
            if kv_has(kv_upsert_prefix(s0, m, i), k) && entry_key(m[i - 1]) == k {
                assert(0 <= i - 1 < i && entry_key(m[i - 1]) == k);
            }
        }
    }
}

/// The fresh-entry count grows with the prefix.
pub proof fn lemma_kv_fresh_count_mono(
    s0: Seq<(String, u128)>,
    m: Seq<(String, u128)>,
    i: int,
    j: int,
)
    requires
        0 <= i <= j,
    ensures
        kv_fresh_count(s0, m, i) <= kv_fresh_count(s0, m, j),
    decreases j - i,
{
    if i < j {
        lemma_kv_fresh_count_mono(s0, m, i, j - 1);
    }
}

/// The list after deleting the keys of the first `i` entries of `m`, in
/// order.
pub open spec fn kv_removed_prefix(
    s0: Seq<(String, u128)>,
    m: Seq<(String, u128)>,
    i: int,
) -> Seq<(String, u128)>
    decreases i,
{
    if i <= 0 {
        s0
    } else {
        kv_removed(kv_removed_prefix(s0, m, i - 1), entry_key(m[i - 1]))
    }
}

/// Deleting a prefix keeps the list sorted, and a key is present afterwards
/// exactly when it was present before and none of the deleted entries
/// carries it.
pub proof fn lemma_kv_removed_prefix(s0: Seq<(String, u128)>, m: Seq<(String, u128)>, i: int)
    requires
        kv_sorted(s0),
        0 <= i <= m.len(),
    ensures
        kv_sorted(kv_removed_prefix(s0, m, i)),
        forall|k: Seq<u8>| #[trigger] kv_has(kv_removed_prefix(s0, m, i), k) <==> (kv_has(s0, k)
            && forall|j: int| 0 <= j < i ==> entry_key(#[trigger] m[j]) != k),
    decreases i,
{
    if i > 0 {
        lemma_kv_removed_prefix(s0, m, i - 1);
        let prev = kv_removed_prefix(s0, m, i - 1);
        lemma_kv_removed(prev, entry_key(m[i - 1]));
    }
}

/// The length of the longest prefix of entries whose keys do not come after
/// `k`: where a page that starts after `k` begins.
pub open spec fn kv_page_from(s: Seq<(String, u128)>, k: Seq<u8>) -> int
    decreases s.len(),
{
    if s.len() == 0 {
        0
    } else if lex_lt(k, entry_key(s[0])) {
        0
    } else {
        1 + kv_page_from(s.skip(1), k)
    }
}

/// `kv_page_from` is the boundary between the entries at or before `k` and
/// those after it.
pub proof fn lemma_kv_page_from_at(s: Seq<(String, u128)>, k: Seq<u8>, i: int)
    requires
        0 <= i <= s.len(),
        forall|j: int| 0 <= j < i ==> !lex_lt(k, entry_key(s[j])),
        i < s.len() ==> lex_lt(k, entry_key(s[i])),
    ensures
        kv_page_from(s, k) == i,
    decreases s.len(),
{
    if i > 0 {
        lemma_kv_page_from_at(s.skip(1), k, i - 1);
    }
}

/// Where a page that starts after `after` begins in an entry list.
pub fn kv_page_start_pos(entries: &Vec<(String, u128)>, after: &str) -> (r: usize)
    ensures
        r as int == kv_page_from(entries@, key_of(after@)),
        r <= entries@.len(),
{
    let ghost s = entries@;
    let ghost k = key_of(after@);
    let n = entries.len();
    let mut i: usize = 0;
    while i < n
        invariant
            s == entries@,
            k == key_of(after@),
            n == entries.len(),
            i <= n,
            forall|j: int| 0 <= j < i ==> !lex_lt(k, entry_key(s[j])),
        decreases n - i,
    {
        let c = cmp_addr(after, entries[i].0.as_str());
        if matches!(c, ByteCmp::Lt) {
            proof {
                lemma_kv_page_from_at(s, k, i as int);
            }
            return i;
        }
        i = i + 1;
    }
    proof {
        lemma_kv_page_from_at(s, k, n as int);
    }
    n
}

} // verus!
