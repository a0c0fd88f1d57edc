use vstd::prelude::*;
use vstd::slice::slice_subrange;
use vstd::string::StringSliceAdditionalSpecFns;
use vstd::utf8::{decode_utf8, encode_utf8, valid_utf8};

verus! {

broadcast use {vstd::utf8::encode_utf8_decode_utf8, vstd::utf8::decode_utf8_encode_utf8};

/// `b` holds a terminating zero at `n`, and none before it.
pub open spec fn terminated_at(b: Seq<u8>, n: int) -> bool {
    &&& 0 <= n < b.len()
    &&& b[n] == 0
    &&& forall|i: int| 0 <= i < n ==> b[i] != 0
}

/// `b` holds a zero byte somewhere.
pub open spec fn is_c_str(b: Seq<u8>) -> bool {
    exists|n: int| 0 <= n < b.len() && b[n] == 0
}

/// The position of the first zero byte of `b`.
pub open spec fn c_str_len(b: Seq<u8>) -> int
    recommends
        is_c_str(b),
{
    choose|n: int| terminated_at(b, n)
}

/// The bytes of the null-terminated string at the start of `b`.
pub open spec fn c_str_bytes(b: Seq<u8>) -> Seq<u8> {
    b.subrange(0, c_str_len(b))
}

/// `b` starts with a null-terminated string whose bytes are valid UTF-8.
pub open spec fn valid_c_str(b: Seq<u8>) -> bool {
    is_c_str(b) && valid_utf8(c_str_bytes(b))
}

/// The text of the null-terminated string at the start of `b`.
pub open spec fn c_str_text(b: Seq<u8>) -> Seq<char> {
    decode_utf8(c_str_bytes(b))
}

proof fn lemma_terminated_unique(b: Seq<u8>, n: int)
    requires
        terminated_at(b, n),
    ensures
        c_str_len(b) == n,
{
    let m = c_str_len(b);
    assert(terminated_at(b, m));
    if m < n {
        assert(b[m] != 0);
    } else if n < m {
        assert(b[n] != 0);
    }
}

/// Relies on std::str::from_utf8: it succeeds exactly on valid UTF-8, and
/// the text it gives is made of those bytes.
#[verifier::external_body]
fn utf8_to_str(b: &[u8]) -> (r: Option<&str>)
    ensures
        r is Some <==> valid_utf8(b@),
        r matches Some(s) ==> s.spec_bytes() == b@,
{
    std::str::from_utf8(b).ok()
}

/// Finds the terminating zero of a null-terminated string.
pub fn c_str_length(string: &[u8]) -> (n: usize)
    requires
        is_c_str(string@),
    ensures
        n as int == c_str_len(string@),
        terminated_at(string@, n as int),
{
    let mut i: usize = 0;
    while i < string.len() && string[i] != 0
        invariant
            i <= string@.len(),
            is_c_str(string@),
            forall|k: int| 0 <= k < i ==> string@[k] != 0,
        decreases string@.len() - i,
    {
        i = i + 1;
    }
    proof {
        if i == string.len() {
            let w = choose|w: int| 0 <= w < string@.len() && string@[w] == 0;
            assert(string@[w] != 0);
        }
        lemma_terminated_unique(string@, i as int);
    }
    i
}

/// Borrows the text of a null-terminated string, without copying it.
pub fn from_c_str_to_borrowed_str(string: &[u8]) -> (r: &str)
    requires
        valid_c_str(string@),
    ensures
        r.spec_bytes() == c_str_bytes(string@),
        r@ == c_str_text(string@),
{
    let n = c_str_length(string);
    let bytes = slice_subrange(string, 0, n);
    match utf8_to_str(bytes) {
        Some(s) => s,
        None => {
            proof {
                assert(false);
            }
            ""
        },
    }
}

/// Copies the text of a null-terminated string out into an owned `String`.
pub fn from_c_str_to_owned_string(string: &[u8]) -> (r: String)
    requires
        valid_c_str(string@),
    ensures
        r@ == c_str_text(string@),
        encode_utf8(r@) == c_str_bytes(string@),
{
    from_c_str_to_borrowed_str(string).to_owned()
}

/// Borrows the text held by the first `len` bytes of `value`, whatever
/// bytes follow them.
pub fn from_c_buf_to_borrowed_str(value: &[u8], len: usize) -> (r: &str)
    requires
        len <= value@.len(),
        valid_utf8(value@.subrange(0, len as int)),
    ensures
        r.spec_bytes() == value@.subrange(0, len as int),
        r@ == decode_utf8(value@.subrange(0, len as int)),
{
    let bytes = slice_subrange(value, 0, len);
    match utf8_to_str(bytes) {
        Some(s) => s,
        None => {
            proof {
                assert(false);
            }
            ""
        },
    }
}

/// Text decoded from a valid null-terminated string encodes back to the very
/// same bytes.
pub proof fn lemma_owned_text_round_trip(b: Seq<u8>)
    requires
        valid_c_str(b),
    ensures
        encode_utf8(c_str_text(b)) == c_str_bytes(b),
{
}

} // verus!
