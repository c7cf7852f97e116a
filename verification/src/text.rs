//! Character-level helpers shared by the name grammar and the ordered
//! collections.
//!
//! Names are compared the way Rust compares strings: lexicographically by
//! the bytes of their UTF-8 encoding.

use vstd::prelude::*;
use vstd::utf8::{encode_utf8, encode_utf8_decode_utf8};

verus! {

/// How one name stands to another in the byte-wise lexicographic order.
#[derive(Clone, Copy, Debug, PartialEq, Eq)]
pub enum NameOrder {
    Before,
    Same,
    After,
}

/// `a` and `b` agree on their first `k` positions, and `a` is the smaller
/// one at position `k`: either `a` ends there and `b` goes on, or both go on
/// and `a` holds the smaller byte.
pub open spec fn bytes_precede_at(a: Seq<u8>, b: Seq<u8>, k: int) -> bool {
    &&& 0 <= k <= a.len()
    &&& k < b.len()
    &&& forall|j: int| 0 <= j < k ==> a[j] == b[j]
    &&& (k < a.len() ==> a[k] < b[k])
}

/// Strict lexicographic order on byte sequences.
pub open spec fn bytes_lt(a: Seq<u8>, b: Seq<u8>) -> bool {
    exists|k: int| bytes_precede_at(a, b, k)
}

/// Strict order on names: the order of their UTF-8 encodings.
pub open spec fn name_lt(a: Seq<char>, b: Seq<char>) -> bool {
    bytes_lt(encode_utf8(a), encode_utf8(b))
}

/// No byte sequence precedes itself.
pub proof fn lemma_bytes_lt_irreflexive(a: Seq<u8>)
    ensures
        !bytes_lt(a, a),
{
}

/// The byte order is transitive.
pub proof fn lemma_bytes_lt_transitive(a: Seq<u8>, b: Seq<u8>, c: Seq<u8>)
    requires
        bytes_lt(a, b),
        bytes_lt(b, c),
    ensures
        bytes_lt(a, c),
{
    let k1 = choose|k: int| bytes_precede_at(a, b, k);
    let k2 = choose|k: int| bytes_precede_at(b, c, k);
    let k = if k1 <= k2 { k1 } else { k2 };
    assert(bytes_precede_at(a, c, k));
}

/// Two names with the same encoding are the same name.
pub proof fn lemma_encoding_injective(a: Seq<char>, b: Seq<char>)
    requires
        encode_utf8(a) == encode_utf8(b),
    ensures
        a == b,
{
    encode_utf8_decode_utf8(a);
    encode_utf8_decode_utf8(b);
}

/// No name precedes itself, so names in strict order are distinct.
pub proof fn lemma_name_lt_irreflexive(a: Seq<char>)
    ensures
        !name_lt(a, a),
{
    lemma_bytes_lt_irreflexive(encode_utf8(a));
}

/// The name order is transitive.
pub proof fn lemma_name_lt_transitive(a: Seq<char>, b: Seq<char>, c: Seq<char>)
    requires
        name_lt(a, b),
        name_lt(b, c),
    ensures
        name_lt(a, c),
{
    lemma_bytes_lt_transitive(encode_utf8(a), encode_utf8(b), encode_utf8(c));
}

/// The name order is asymmetric.
pub proof fn lemma_name_lt_asymmetric(a: Seq<char>, b: Seq<char>)
    requires
        name_lt(a, b),
    ensures
        !name_lt(b, a),
{
    if name_lt(b, a) {
        lemma_name_lt_transitive(a, b, a);
        lemma_name_lt_irreflexive(a);
    }
}

/// Compares two names in the byte-wise lexicographic order. Exactly one of
/// the three answers holds of any two names.
pub fn name_order(a: &str, b: &str) -> (r: NameOrder)
    ensures
        r == NameOrder::Before <==> name_lt(a@, b@),
        r == NameOrder::Same <==> a@ == b@,
        r == NameOrder::After <==> name_lt(b@, a@),
{
    let x = a.as_bytes();
    let y = b.as_bytes();
    let ghost xs = encode_utf8(a@);
    let ghost ys = encode_utf8(b@);
    let n: usize = x.len();
    let m: usize = y.len();
    let mut i: usize = 0;
    while i < n && i < m
        invariant
            x@ == xs,
            y@ == ys,
            xs == encode_utf8(a@),
            ys == encode_utf8(b@),
            n == xs.len(),
            m == ys.len(),
            i <= n,
            i <= m,
            forall|j: int| 0 <= j < i ==> xs[j] == ys[j],
        decreases n - i,
    {
        if x[i] < y[i] {
            proof {
                assert(bytes_precede_at(xs, ys, i as int));
                lemma_name_lt_asymmetric(a@, b@);
            }
            return NameOrder::Before;
        }
        if x[i] > y[i] {
            proof {
                assert(bytes_precede_at(ys, xs, i as int));
                lemma_name_lt_asymmetric(b@, a@);
            }
            return NameOrder::After;
        }
        i += 1;
    }
    if n < m {
        proof {
            assert(bytes_precede_at(xs, ys, n as int));
            lemma_name_lt_asymmetric(a@, b@);
        }
        NameOrder::Before
    } else if m < n {
        proof {
            assert(bytes_precede_at(ys, xs, m as int));
            lemma_name_lt_asymmetric(b@, a@);
        }
        NameOrder::After
    } else {
        proof {
            assert(xs =~= ys);
            lemma_encoding_injective(a@, b@);
            lemma_name_lt_irreflexive(a@);
        }
        NameOrder::Same
    }
}

/// Whether two strings hold the same name.
pub fn same_name(a: &str, b: &str) -> (r: bool)
    ensures
        r <==> a@ == b@,
{
    match name_order(a, b) {
        NameOrder::Same => true,
        _ => false,
    }
}

/// The index of the last `c` of `s` before `end`, or -1 where there is none.
pub open spec fn last_index(s: Seq<char>, c: char, end: int) -> int
    decreases end,
{
    if end <= 0 || end > s.len() {
        -1
    } else if s[end - 1] == c {
        end - 1
    } else {
        last_index(s, c, end - 1)
    }
}

/// Finds the position behind the last `c` of `cs`: 0 where there is none.
pub fn after_last(cs: &Vec<char>, c: char) -> (end: usize)
    ensures
        end == last_index(cs@, c, cs.len() as int) + 1,
        end <= cs.len(),
{
    let mut end: usize = cs.len();
    while end > 0 && cs[end - 1] != c
        invariant
            end <= cs.len(),
            last_index(cs@, c, cs.len() as int) == last_index(cs@, c, end as int),
        decreases end,
    {
        end -= 1;
    }
    end
}

/// Collects the characters of `s` into a vector.
pub fn chars_of(s: &str) -> (v: Vec<char>)
    ensures
        v@ == s@,
{
    let mut v: Vec<char> = Vec::new();
    for c in it: s.chars()
        invariant
            v@ == s@.take(it.index() as int),
            it.seq() == s@,
    {
        v.push(c);
    }
    v
}

} // verus!
