//! Small verified string helpers shared by the catalog and the exporter.

use vstd::prelude::*;

verus! {

/// Character-wise string equality, proved against the views.
pub fn str_eq(a: &str, b: &str) -> (r: bool)
    ensures
        r == (a@ == b@),
{
    let alen = a.unicode_len();
    let blen = b.unicode_len();
    if alen != blen {
        return false;
    }
    let mut i: usize = 0;
    while i < alen
        invariant
            i <= alen,
            alen == a@.len(),
            alen == b@.len(),
            forall|j: int| 0 <= j < i ==> a@[j] == b@[j],
        decreases alen - i,
    {
        if a.get_char(i) != b.get_char(i) {
            return false;
        }
        i += 1;
    }
    proof {
        assert(a@ =~= b@);
    }
    true
}

/// Some element's key equals `k`.
pub open spec fn has_key<T>(s: Seq<T>, key: spec_fn(T) -> Seq<char>, k: Seq<char>) -> bool {
    exists|i: int| 0 <= i < s.len() && key(#[trigger] s[i]) == k
}

/// Index of the first element whose key equals `k`, or -1.
pub open spec fn first_key_index<T>(
    s: Seq<T>,
    key: spec_fn(T) -> Seq<char>,
    k: Seq<char>,
) -> int
    decreases s.len(),
{
    if s.len() == 0 {
        -1
    } else if key(s[0]) == k {
        0
    } else {
        let r = first_key_index(s.drop_first(), key, k);
        if r == -1 {
            -1
        } else {
            r + 1
        }
    }
}

/// What `first_key_index` returns: -1 exactly when the key is absent, and
/// otherwise the first matching position.
pub proof fn lemma_first_key_index<T>(s: Seq<T>, key: spec_fn(T) -> Seq<char>, k: Seq<char>)
    ensures
        first_key_index(s, key, k) == -1 <==> !has_key(s, key, k),
        first_key_index(s, key, k) != -1 ==> {
            let r = first_key_index(s, key, k);
            &&& 0 <= r < s.len()
            &&& key(s[r]) == k
            &&& forall|j: int| 0 <= j < r ==> key(#[trigger] s[j]) != k
        },
    decreases s.len(),
{
    if s.len() > 0 && key(s[0]) != k {
        lemma_first_key_index(s.drop_first(), key, k);
        assert(forall|j: int| 0 <= j < s.drop_first().len() ==> s.drop_first()[j] == s[
            j + 1
        ]);
        if first_key_index(s.drop_first(), key, k) == -1 {
            assert forall|i: int| 0 <= i < s.len() implies key(#[trigger] s[i]) != k by {
                if i > 0 {
                    assert(s.drop_first()[i - 1] == s[i]);
                }
            }
        } else {
            let rd = first_key_index(s.drop_first(), key, k);
            assert(s[rd + 1] == s.drop_first()[rd]);
            assert(key(s[rd + 1]) == k);
            assert(has_key(s, key, k));
            assert forall|j: int| 0 <= j < rd + 1 implies key(#[trigger] s[j]) != k by {
                if j > 0 {
                    assert(s.drop_first()[j - 1] == s[j]);
                }
            }
        }
    }
}

/// A position that matches, with no match before it, is the first match.
pub proof fn lemma_first_key_index_is<T>(
    s: Seq<T>,
    key: spec_fn(T) -> Seq<char>,
    k: Seq<char>,
    i: int,
)
    requires
        0 <= i < s.len(),
        key(s[i]) == k,
        forall|j: int| 0 <= j < i ==> key(#[trigger] s[j]) != k,
    ensures
        first_key_index(s, key, k) == i,
    decreases s.len(),
{
    if i > 0 {
        assert(forall|j: int| 0 <= j < s.drop_first().len() ==> s.drop_first()[j] == s[
            j + 1
        ]);
        lemma_first_key_index_is(s.drop_first(), key, k, i - 1);
    }
}

} // verus!
