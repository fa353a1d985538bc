//! The order in which field names are arranged.
//!
//! Names are compared byte by byte over their UTF-8 encoding: the first byte that differs
//! decides, and a proper prefix comes before every name that extends it.

use vstd::prelude::*;
use vstd::string::StringSliceAdditionalSpecFns;
use vstd::utf8::encode_utf8;

verus! {

/// `x` and `y` agree on their first `k` bytes.
pub open spec fn agree_before(x: Seq<u8>, y: Seq<u8>, k: int) -> bool {
    &&& 0 <= k <= x.len()
    &&& k <= y.len()
    &&& forall|j: int| 0 <= j < k ==> x[j] == y[j]
}

/// Position `k` shows that `x` comes before `y`: up to `k` they agree, and there `x` ends
/// while `y` goes on, or `x` holds the smaller byte.
pub open spec fn decides_at(x: Seq<u8>, y: Seq<u8>, k: int) -> bool {
    &&& agree_before(x, y, k)
    &&& k < y.len()
    &&& k < x.len() ==> x[k] < y[k]
}

/// Lexicographic order on byte strings.
pub open spec fn bytes_before(x: Seq<u8>, y: Seq<u8>) -> bool {
    exists|k: int| decides_at(x, y, k)
}

/// The order of field names.
pub open spec fn name_before(a: Seq<char>, b: Seq<char>) -> bool {
    bytes_before(encode_utf8(a), encode_utf8(b))
}

/// No byte string comes before itself.
pub proof fn lemma_bytes_before_irreflexive(x: Seq<u8>)
    ensures
        !bytes_before(x, x),
{
}

/// The order is transitive.
pub proof fn lemma_bytes_before_transitive(x: Seq<u8>, y: Seq<u8>, z: Seq<u8>)
    requires
        bytes_before(x, y),
        bytes_before(y, z),
    ensures
        bytes_before(x, z),
{
    let k1 = choose|k: int| decides_at(x, y, k);
    let k2 = choose|k: int| decides_at(y, z, k);
    let k = if k1 <= k2 { k1 } else { k2 };
    assert(decides_at(x, z, k));
}

/// Of two different byte strings one comes before the other.
pub proof fn lemma_bytes_before_total(x: Seq<u8>, y: Seq<u8>)
    requires
        x != y,
    ensures
        bytes_before(x, y) || bytes_before(y, x),
{
    lemma_first_difference(x, y, 0);
}

proof fn lemma_first_difference(x: Seq<u8>, y: Seq<u8>, k: int)
    requires
        x != y,
        agree_before(x, y, k),
    ensures
        bytes_before(x, y) || bytes_before(y, x),
    decreases x.len() - k,
{
    if k == x.len() {
        if k == y.len() {
            assert(x =~= y);
        } else {
            assert(decides_at(x, y, k));
        }
    } else if k == y.len() {
        assert(agree_before(y, x, k));
        assert(decides_at(y, x, k));
    } else if x[k] < y[k] {
        assert(decides_at(x, y, k));
    } else if y[k] < x[k] {
        assert(agree_before(y, x, k));
        assert(decides_at(y, x, k));
    } else {
        lemma_first_difference(x, y, k + 1);
    }
}

/// No name comes before itself.
pub proof fn lemma_name_before_irreflexive(a: Seq<char>)
    ensures
        !name_before(a, a),
{
    lemma_bytes_before_irreflexive(encode_utf8(a));
}

/// The order of names is transitive.
pub proof fn lemma_name_before_transitive(a: Seq<char>, b: Seq<char>, c: Seq<char>)
    requires
        name_before(a, b),
        name_before(b, c),
    ensures
        name_before(a, c),
{
    lemma_bytes_before_transitive(encode_utf8(a), encode_utf8(b), encode_utf8(c));
}

/// Of two different names one comes before the other.
pub proof fn lemma_name_before_total(a: Seq<char>, b: Seq<char>)
    requires
        a != b,
    ensures
        name_before(a, b) || name_before(b, a),
{
    lemma_encoding_injective(a, b);
    lemma_bytes_before_total(encode_utf8(a), encode_utf8(b));
}

/// Of two names of ASCII characters, the one whose first character is the smaller comes
/// first.
pub proof fn lemma_ascii_name_before(a: Seq<char>, b: Seq<char>)
    requires
        a.len() > 0,
        b.len() > 0,
        vstd::utf8::is_ascii_chars(a),
        vstd::utf8::is_ascii_chars(b),
        (a[0] as u32) < (b[0] as u32),
    ensures
        name_before(a, b),
{
    vstd::utf8::is_ascii_chars_encode_utf8(a);
    vstd::utf8::is_ascii_chars_encode_utf8(b);
    assert(decides_at(encode_utf8(a), encode_utf8(b), 0));
}

/// Two names with the same encoding are the same name.
pub proof fn lemma_encoding_injective(a: Seq<char>, b: Seq<char>)
    ensures
        (encode_utf8(a) == encode_utf8(b)) == (a == b),
{
    vstd::utf8::encode_utf8_decode_utf8(a);
    vstd::utf8::encode_utf8_decode_utf8(b);
}

/// Whether two strings hold the same characters.
pub fn same_name(a: &str, b: &str) -> (same: bool)
    ensures
        same == (a@ == b@),
{
    let x = a.as_bytes();
    let y = b.as_bytes();
    proof {
        lemma_encoding_injective(a@, b@);
    }
    if x.len() != y.len() {
        return false;
    }
    let mut i: usize = 0;
    while i < x.len()
        invariant
            x@.len() == y@.len(),
            agree_before(x@, y@, i as int),
            (x@ == y@) == (a@ == b@),
        decreases x.len() - i,
    {
        if x[i] != y[i] {
            return false;
        }
        i += 1;
    }
    assert(x@ =~= y@);
    true
}

/// Whether `a` comes before `b` in the order of field names.
pub fn comes_before(a: &str, b: &str) -> (before: bool)
    ensures
        before == name_before(a@, b@),
{
    let x = a.as_bytes();
    let y = b.as_bytes();
    let mut i: usize = 0;
    while i < x.len() && i < y.len()
        invariant
            x@ == encode_utf8(a@),
            y@ == encode_utf8(b@),
            agree_before(x@, y@, i as int),
        decreases x.len() - i,
    {
        if x[i] != y[i] {
            if x[i] < y[i] {
                assert(decides_at(x@, y@, i as int));
                return true;
            } else {
                assert(forall|k: int| !decides_at(x@, y@, k));
                return false;
            }
        }
        i += 1;
    }
    if i < y.len() {
        assert(decides_at(x@, y@, i as int));
        true
    } else {
        assert(forall|k: int| !decides_at(x@, y@, k));
        false
    }
}

} // verus!
