//! The order of asset codes: byte-wise, as the standard library orders
//! strings.

use vstd::prelude::*;
use vstd::utf8::encode_utf8;

verus! {

/// `x` is a proper prefix of `y`, or is less at the first byte where they
/// differ.
pub open spec fn bytes_before(x: Seq<u8>, y: Seq<u8>) -> bool {
    exists|k: int| #[trigger] first_difference_less(x, y, k)
}

/// `x` and `y` agree below `k`, and there `x` has ended or has the lesser
/// byte.
pub open spec fn first_difference_less(x: Seq<u8>, y: Seq<u8>, k: int) -> bool {
    &&& 0 <= k <= x.len()
    &&& k < y.len()
    &&& forall|j: int| 0 <= j < k ==> x[j] == y[j]
    &&& k == x.len() || x[k] < y[k]
}

/// The code `a` sorts before the code `b`: by the bytes of their UTF-8 forms.
pub open spec fn code_before(a: Seq<char>, b: Seq<char>) -> bool {
    bytes_before(encode_utf8(a), encode_utf8(b))
}

/// No code sorts before itself.
pub proof fn law_code_order_is_irreflexive(a: Seq<char>)
    ensures
        !code_before(a, a),
{
}

/// The order of codes is transitive.
pub proof fn law_code_order_is_transitive(a: Seq<char>, b: Seq<char>, c: Seq<char>)
    requires
        code_before(a, b),
        code_before(b, c),
    ensures
        code_before(a, c),
{
    let (x, y, z) = (encode_utf8(a), encode_utf8(b), encode_utf8(c));
    let j = choose|j: int| first_difference_less(x, y, j);
    let k = choose|k: int| first_difference_less(y, z, k);
    let least = if j <= k {
        j
    } else {
        k
    };
    assert(first_difference_less(x, z, least));
}

/// Of two codes one sorts before the other, or they are the same code.
pub proof fn law_code_order_is_total(a: Seq<char>, b: Seq<char>)
    ensures
        code_before(a, b) || a == b || code_before(b, a),
{
    let (x, y) = (encode_utf8(a), encode_utf8(b));
    let k = common_prefix(x, y);
    lemma_common_prefix(x, y);
    if k == x.len() && k == y.len() {
        assert(x =~= y);
        lemma_same_bytes_same_code(a, b);
    } else if k == x.len() || (k < y.len() && x[k] < y[k]) {
        assert(first_difference_less(x, y, k));
    } else {
        assert(first_difference_less(y, x, k));
    }
}

spec fn common_prefix(x: Seq<u8>, y: Seq<u8>) -> int
    decreases x.len(),
{
    if x.len() == 0 || y.len() == 0 || x[0] != y[0] {
        0
    } else {
        1 + common_prefix(x.drop_first(), y.drop_first())
    }
}

proof fn lemma_common_prefix(x: Seq<u8>, y: Seq<u8>)
    ensures
        0 <= common_prefix(x, y) <= x.len(),
        common_prefix(x, y) <= y.len(),
        forall|j: int| 0 <= j < common_prefix(x, y) ==> x[j] == y[j],
        common_prefix(x, y) < x.len() && common_prefix(x, y) < y.len() ==> x[common_prefix(x, y)]
            != y[common_prefix(x, y)],
    decreases x.len(),
{
    if x.len() == 0 || y.len() == 0 || x[0] != y[0] {
    } else {
        let (p, q) = (x.drop_first(), y.drop_first());
        lemma_common_prefix(p, q);
        assert forall|j: int| 0 <= j < common_prefix(x, y) implies x[j] == y[j] by {
            if j > 0 {
                assert(p[j - 1] == q[j - 1]);
            }
        }
    }
}

/// Codes with the same UTF-8 form are the same code.
proof fn lemma_same_bytes_same_code(a: Seq<char>, b: Seq<char>)
    requires
        encode_utf8(a) == encode_utf8(b),
    ensures
        a == b,
{
    vstd::utf8::encode_utf8_decode_utf8(a);
    vstd::utf8::encode_utf8_decode_utf8(b);
}

/// Where one code stands to another in the order of codes.
#[derive(Debug, Clone, Copy, PartialEq, Eq, Structural)]
pub enum Placement {
    Before,
    Same,
    After,
}

/// Where `a` stands to `b`.
pub fn place(a: &str, b: &str) -> (placement: Placement)
    ensures
        placement == Placement::Before <==> code_before(a@, b@),
        placement == Placement::Same <==> a@ == b@,
        placement == Placement::After <==> code_before(b@, a@),
{
    let x: &[u8] = a.as_bytes();
    let y: &[u8] = b.as_bytes();
    proof {
        law_code_order_is_irreflexive(a@);
        law_code_order_is_irreflexive(b@);
        if code_before(a@, b@) && code_before(b@, a@) {
            law_code_order_is_transitive(a@, b@, a@);
        }
    }
    let mut k: usize = 0;
    while k < x.len() && k < y.len() && x[k] == y[k]
        invariant
            k <= x@.len(),
            k <= y@.len(),
            forall|j: int| 0 <= j < k ==> x@[j] == y@[j],
        decreases x@.len() - k,
    {
        k += 1;
    }
    if k == x.len() && k == y.len() {
        proof {
            assert(x@ =~= y@);
            lemma_same_bytes_same_code(a@, b@);
        }
        Placement::Same
    } else if k == x.len() || (k < y.len() && x[k] < y[k]) {
        assert(first_difference_less(x@, y@, k as int));
        Placement::Before
    } else {
        assert(first_difference_less(y@, x@, k as int));
        Placement::After
    }
}

/// Whether `code` is among `codes`.
pub fn contains_code(codes: &[String], code: &str) -> (found: bool)
    ensures
        found == exists|i: int| 0 <= i < codes@.len() && #[trigger] codes@[i]@ == code@,
{
    let mut i: usize = 0;
    while i < codes.len()
        invariant
            i <= codes@.len(),
            forall|j: int| 0 <= j < i ==> #[trigger] codes@[j]@ != code@,
        decreases codes@.len() - i,
    {
        if place(codes[i].as_str(), code) == Placement::Same {
            return true;
        }
        i += 1;
    }
    false
}

/// Codes sort by the first byte where their UTF-8 forms differ: the one with
/// the lesser byte there, taken as a number, comes first.
pub proof fn law_lesser_byte_comes_first(a: Seq<char>, b: Seq<char>, k: int)
    requires
        0 <= k < encode_utf8(a).len(),
        k < encode_utf8(b).len(),
        forall|j: int| 0 <= j < k ==> #[trigger] encode_utf8(a)[j] == encode_utf8(b)[j],
        encode_utf8(a)[k] != encode_utf8(b)[k],
    ensures
        code_before(a, b) <==> (encode_utf8(a)[k] as int) < (encode_utf8(b)[k] as int),
        code_before(b, a) <==> (encode_utf8(b)[k] as int) < (encode_utf8(a)[k] as int),
{
    let (x, y) = (encode_utf8(a), encode_utf8(b));
    if x[k] < y[k] {
        assert(first_difference_less(x, y, k));
    } else {
        assert(first_difference_less(y, x, k));
    }
    law_code_order_is_irreflexive(a);
    if code_before(a, b) && code_before(b, a) {
        law_code_order_is_transitive(a, b, a);
    }
}

/// A code whose UTF-8 form is a proper prefix of another's comes first.
pub proof fn law_prefix_comes_first(a: Seq<char>, b: Seq<char>)
    requires
        encode_utf8(a).len() < encode_utf8(b).len(),
        forall|j: int|
            0 <= j < encode_utf8(a).len() ==> #[trigger] encode_utf8(a)[j] == encode_utf8(b)[j],
    ensures
        code_before(a, b),
        !code_before(b, a),
{
    let (x, y) = (encode_utf8(a), encode_utf8(b));
    assert(first_difference_less(x, y, x.len() as int));
    law_code_order_is_irreflexive(a);
    if code_before(b, a) {
        law_code_order_is_transitive(a, b, a);
    }
}

} // verus!
