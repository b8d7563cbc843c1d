//! The order of identifiers: strings compared byte by byte in their UTF-8
//! encoding, the order in which keys are kept and enumerated.
use vstd::prelude::*;
use vstd::utf8::*;
use vstd::string::*;

verus! {

/// `a` and `b` hold the same bytes at every index below `k`.
pub open spec fn agree_upto(a: Seq<u8>, b: Seq<u8>, k: int) -> bool {
    &&& 0 <= k <= a.len()
    &&& k <= b.len()
    &&& forall|j: int| 0 <= j < k ==> a[j] == b[j]
}

/// Strict lexicographic order on byte sequences: after a common prefix,
/// either `a` ends and `b` goes on, or `a` holds the smaller byte.
pub open spec fn bytes_lt(a: Seq<u8>, b: Seq<u8>) -> bool {
    exists|k: int|
        #[trigger] agree_upto(a, b, k) && k < b.len() && (k == a.len() || a[k] < b[k])
}

/// Strict order on strings: the order of their UTF-8 encodings.
pub open spec fn precedes(a: Seq<char>, b: Seq<char>) -> bool {
    bytes_lt(encode_utf8(a), encode_utf8(b))
}

/// Where two byte sequences first differ, the bytes at that place decide.
pub proof fn lemma_bytes_lt_at(a: Seq<u8>, b: Seq<u8>, i: int)
    requires
        agree_upto(a, b, i),
        i < a.len(),
        i < b.len(),
        a[i] != b[i],
    ensures
        bytes_lt(a, b) == (a[i] < b[i]),
{
    if a[i] < b[i] {
        assert(agree_upto(a, b, i));
    }
    if bytes_lt(a, b) {
        let k = choose|k: int|
            #[trigger] agree_upto(a, b, k) && k < b.len() && (k == a.len() || a[k] < b[k]);
        assert(k == i);
    }
}

/// Where one byte sequence is a prefix of the other, the lengths decide.
pub proof fn lemma_bytes_lt_prefix(a: Seq<u8>, b: Seq<u8>, i: int)
    requires
        agree_upto(a, b, i),
        i == a.len() || i == b.len(),
    ensures
        bytes_lt(a, b) == (a.len() < b.len()),
        a.len() == b.len() ==> a == b,
{
    if a.len() < b.len() {
        assert(agree_upto(a, b, i));
    }
    if bytes_lt(a, b) {
        let k = choose|k: int|
            #[trigger] agree_upto(a, b, k) && k < b.len() && (k == a.len() || a[k] < b[k]);
        assert(k >= i);
    }
    if a.len() == b.len() {
        assert(a =~= b);
    }
}

/// No byte sequence comes before itself.
pub proof fn lemma_bytes_lt_irreflexive(a: Seq<u8>)
    ensures
        !bytes_lt(a, a),
{
}

/// The order on byte sequences is transitive.
pub proof fn lemma_bytes_lt_transitive(a: Seq<u8>, b: Seq<u8>, c: Seq<u8>)
    requires
        bytes_lt(a, b),
        bytes_lt(b, c),
    ensures
        bytes_lt(a, c),
{
    let k1 = choose|k: int|
        #[trigger] agree_upto(a, b, k) && k < b.len() && (k == a.len() || a[k] < b[k]);
    let k2 = choose|k: int|
        #[trigger] agree_upto(b, c, k) && k < c.len() && (k == b.len() || b[k] < c[k]);
    let k = if k1 <= k2 { k1 } else { k2 };
    assert(agree_upto(a, c, k));
}

/// Of two byte sequences one comes first, or they are equal.
pub proof fn lemma_bytes_lt_total(a: Seq<u8>, b: Seq<u8>, k: int)
    requires
        agree_upto(a, b, k),
    ensures
        bytes_lt(a, b) || bytes_lt(b, a) || a == b,
    decreases a.len() - k,
{
    if k == a.len() || k == b.len() {
        lemma_bytes_lt_prefix(a, b, k);
        assert(agree_upto(b, a, k));
        lemma_bytes_lt_prefix(b, a, k);
    } else if a[k] != b[k] {
        lemma_bytes_lt_at(a, b, k);
        assert(agree_upto(b, a, k));
        lemma_bytes_lt_at(b, a, k);
    } else {
        assert(agree_upto(a, b, k + 1));
        lemma_bytes_lt_total(a, b, k + 1);
    }
}

/// No string comes before itself.
pub proof fn lemma_precedes_irreflexive(a: Seq<char>)
    ensures
        !precedes(a, a),
{
    lemma_bytes_lt_irreflexive(encode_utf8(a));
}

/// The order on strings is transitive.
pub proof fn lemma_precedes_transitive(a: Seq<char>, b: Seq<char>, c: Seq<char>)
    requires
        precedes(a, b),
        precedes(b, c),
    ensures
        precedes(a, c),
{
    lemma_bytes_lt_transitive(encode_utf8(a), encode_utf8(b), encode_utf8(c));
}

/// Of two different strings one comes before the other.
pub proof fn lemma_precedes_total(a: Seq<char>, b: Seq<char>)
    ensures
        precedes(a, b) || precedes(b, a) || a == b,
{
    let x = encode_utf8(a);
    let y = encode_utf8(b);
    assert(agree_upto(x, y, 0));
    lemma_bytes_lt_total(x, y, 0);
    if x == y {
        encode_utf8_decode_utf8(a);
        encode_utf8_decode_utf8(b);
    }
}

/// No two strings come before each other.
pub proof fn lemma_precedes_asymmetric(a: Seq<char>, b: Seq<char>)
    requires
        precedes(a, b),
    ensures
        !precedes(b, a),
{
    if precedes(b, a) {
        lemma_precedes_transitive(a, b, a);
        lemma_precedes_irreflexive(a);
    }
}

/// Tells whether `a` comes before `b`.
pub fn string_lt(a: &String, b: &String) -> (r: bool)
    ensures
        r == precedes(a@, b@),
{
    let x = a.as_str().as_bytes();
    let y = b.as_str().as_bytes();
    let mut i: usize = 0;
    while i < x.len() && i < y.len()
        invariant
            x@ == encode_utf8(a@),
            y@ == encode_utf8(b@),
            agree_upto(x@, y@, i as int),
        decreases x.len() - i,
    {
        if x[i] != y[i] {
            proof {
                lemma_bytes_lt_at(x@, y@, i as int);
            }
            return x[i] < y[i];
        }
        i += 1;
    }
    proof {
        lemma_bytes_lt_prefix(x@, y@, i as int);
    }
    x.len() < y.len()
}

/// An optional string as a mathematical value.
pub open spec fn opt_text(s: Option<String>) -> Option<Seq<char>> {
    match s {
        Some(t) => Some(t@),
        None => None,
    }
}

/// A copy of an optional string.
pub fn clone_opt_string(s: &Option<String>) -> (r: Option<String>)
    ensures
        opt_text(r) == opt_text(*s),
{
    match s {
        Some(t) => Some(t.clone()),
        None => None,
    }
}

/// Whether a text can name an account: it is not empty.
pub open spec fn valid_address(a: Seq<char>) -> bool {
    a.len() > 0
}

/// Tells whether a text can name an account.
pub fn is_valid_address(a: &String) -> (r: bool)
    ensures
        r == valid_address(a@),
{
    !a.as_str().is_empty()
}

} // verus!
