// The order in which function names are kept: the lexicographic order of
// their bytes.

use vstd::prelude::*;
use vstd::string::*;
use vstd::utf8::*;

verus! {

/// How a name stands to another in the order.
#[derive(Clone, Copy, Debug, PartialEq, Eq, Structural)]
pub enum NameOrder {
    /// The first name comes before the second.
    Before,
    /// The two names are the same.
    Same,
    /// The first name comes after the second.
    After,
}

/// Whether `a` and `b` agree on their first `k` bytes.
pub open spec fn agree_until(a: Seq<u8>, b: Seq<u8>, k: int) -> bool {
    &&& 0 <= k <= a.len()
    &&& k <= b.len()
    &&& forall|i: int| 0 <= i < k ==> a[i] == b[i]
}

/// Whether `a` and `b` part at index `k` in favour of `a`: they agree
/// before `k`, and there `a` ends while `b` goes on, or `a` has the
/// smaller byte.
pub open spec fn parts_at(a: Seq<u8>, b: Seq<u8>, k: int) -> bool {
    &&& agree_until(a, b, k)
    &&& k < b.len()
    &&& k < a.len() ==> a[k] < b[k]
}

/// The lexicographic order of byte strings: `a` comes strictly before `b`.
pub open spec fn bytes_precede(a: Seq<u8>, b: Seq<u8>) -> bool {
    exists|k: int| parts_at(a, b, k)
}

/// The order of names: `a` comes strictly before `b` when the bytes of `a`
/// come before the bytes of `b`.
pub open spec fn name_precedes(a: Seq<char>, b: Seq<char>) -> bool {
    bytes_precede(encode_utf8(a), encode_utf8(b))
}

/// No byte string comes before itself.
pub proof fn lemma_bytes_irreflexive(a: Seq<u8>)
    ensures
        !bytes_precede(a, a),
{
}

/// The order of byte strings is transitive.
pub proof fn lemma_bytes_transitive(a: Seq<u8>, b: Seq<u8>, c: Seq<u8>)
    requires
        bytes_precede(a, b),
        bytes_precede(b, c),
    ensures
        bytes_precede(a, c),
{
    let j = choose|j: int| parts_at(a, b, j);
    let k = choose|k: int| parts_at(b, c, k);
    if j <= k {
        assert(parts_at(a, c, j));
    } else {
        assert(parts_at(a, c, k));
    }
}

/// Two names with the same bytes are the same name.
pub proof fn lemma_same_bytes_same_name(a: Seq<char>, b: Seq<char>)
    requires
        encode_utf8(a) == encode_utf8(b),
    ensures
        a == b,
{
    encode_utf8_decode_utf8(a);
    encode_utf8_decode_utf8(b);
}

/// No name comes before itself.
pub proof fn lemma_name_irreflexive(a: Seq<char>)
    ensures
        !name_precedes(a, a),
{
    lemma_bytes_irreflexive(encode_utf8(a));
}

/// The order of names is transitive.
pub proof fn lemma_name_transitive(a: Seq<char>, b: Seq<char>, c: Seq<char>)
    requires
        name_precedes(a, b),
        name_precedes(b, c),
    ensures
        name_precedes(a, c),
{
    lemma_bytes_transitive(encode_utf8(a), encode_utf8(b), encode_utf8(c));
}

/// Of two names, at most one comes before the other.
pub proof fn lemma_name_asymmetric(a: Seq<char>, b: Seq<char>)
    requires
        name_precedes(a, b),
    ensures
        !name_precedes(b, a),
        a != b,
{
    if name_precedes(b, a) {
        lemma_name_transitive(a, b, a);
    }
    lemma_name_irreflexive(a);
}

/// Of two different names, one comes before the other.
pub proof fn lemma_name_total(a: Seq<char>, b: Seq<char>)
    ensures
        a == b || name_precedes(a, b) || name_precedes(b, a),
{
    let x = encode_utf8(a);
    let y = encode_utf8(b);
    lemma_bytes_total(x, y, 0);
    if x == y {
        lemma_same_bytes_same_name(a, b);
    }
}

proof fn lemma_bytes_total(a: Seq<u8>, b: Seq<u8>, k: int)
    requires
        agree_until(a, b, k),
    ensures
        a == b || bytes_precede(a, b) || bytes_precede(b, a),
    decreases a.len() - k,
{
    if k == a.len() {
        if k == b.len() {
            assert(a =~= b);
        } else {
            assert(parts_at(a, b, k));
        }
    } else if k == b.len() {
        assert(parts_at(b, a, k));
    } else if a[k] < b[k] {
        assert(parts_at(a, b, k));
    } else if b[k] < a[k] {
        assert(parts_at(b, a, k));
    } else {
        lemma_bytes_total(a, b, k + 1);
    }
}

/// Compares two names in the order of their bytes.
pub fn compare_names(a: &str, b: &str) -> (order: NameOrder)
    ensures
        order == NameOrder::Before <==> name_precedes(a@, b@),
        order == NameOrder::Same <==> a@ == b@,
        order == NameOrder::After <==> name_precedes(b@, a@),
{
    let x = a.as_bytes();
    let y = b.as_bytes();
    let mut k: usize = 0;
    while k < x.len() && k < y.len() && x[k] == y[k]
        invariant
            agree_until(x@, y@, k as int),
        decreases x.len() - k,
    {
        k += 1;
    }
    proof {
        if name_precedes(a@, b@) {
            lemma_name_asymmetric(a@, b@);
        }
        if name_precedes(b@, a@) {
            lemma_name_asymmetric(b@, a@);
        }
    }
    if k == x.len() {
        if k == y.len() {
            proof {
                assert(x@ =~= y@);
                lemma_same_bytes_same_name(a@, b@);
            }
            NameOrder::Same
        } else {
            assert(parts_at(x@, y@, k as int));
            NameOrder::Before
        }
    } else if k == y.len() {
        assert(parts_at(y@, x@, k as int));
        NameOrder::After
    } else if x[k] < y[k] {
        assert(parts_at(x@, y@, k as int));
        NameOrder::Before
    } else {
        assert(parts_at(y@, x@, k as int));
        NameOrder::After
    }
}

} // verus!
