//! Percent-encoding, the encoding of form fields, hexadecimal notation and
//! digests, as the crates that compute them define them.

use sha2::Digest;
use vstd::prelude::*;
use vstd::utf8::encode_utf8;

verus! {

/// The digit that stands for a value below sixteen, with `a` to `f` for ten
/// to fifteen.
pub open spec fn hex_digit_lower(n: int) -> char {
    if n < 10 {
        ((48 + n) as u8) as char
    } else {
        ((87 + n) as u8) as char
    }
}

/// The digit that stands for a value below sixteen, with `A` to `F` for ten
/// to fifteen.
pub open spec fn hex_digit_upper(n: int) -> char {
    if n < 10 {
        ((48 + n) as u8) as char
    } else {
        ((55 + n) as u8) as char
    }
}

/// Two lowercase hexadecimal digits for every byte, the high half first.
pub open spec fn hex_lower(bytes: Seq<u8>) -> Seq<char>
    decreases bytes.len(),
{
    if bytes.len() == 0 {
        Seq::empty()
    } else {
        hex_lower(bytes.drop_last()) + seq![
            hex_digit_lower(bytes.last() as int / 16),
            hex_digit_lower(bytes.last() as int % 16),
        ]
    }
}

/// The bytes that percent-encoding leaves as they are: ASCII letters and
/// digits, `-`, `.`, `_` and `~`.
pub open spec fn is_unreserved(b: u8) -> bool {
    (48 <= b && b <= 57) || (65 <= b && b <= 90) || (97 <= b && b <= 122) || b == 45 || b == 46
        || b == 95 || b == 126
}

/// Every byte that is not unreserved written as `%` and two uppercase
/// hexadecimal digits.
pub open spec fn percent_encoded_bytes(bytes: Seq<u8>) -> Seq<char>
    decreases bytes.len(),
{
    if bytes.len() == 0 {
        Seq::empty()
    } else {
        percent_encoded_bytes(bytes.drop_last()) + (if is_unreserved(bytes.last()) {
            seq![bytes.last() as char]
        } else {
            seq![
                '%',
                hex_digit_upper(bytes.last() as int / 16),
                hex_digit_upper(bytes.last() as int % 16),
            ]
        })
    }
}

/// The percent-encoded form of a text: that of its bytes in UTF-8.
pub open spec fn percent_encoded(s: Seq<char>) -> Seq<char> {
    percent_encoded_bytes(encode_utf8(s))
}

/// The bytes that the encoding of form fields leaves as they are: ASCII
/// letters and digits, `*`, `-`, `.` and `_`.
pub open spec fn is_form_unchanged(b: u8) -> bool {
    (48 <= b && b <= 57) || (65 <= b && b <= 90) || (97 <= b && b <= 122) || b == 42 || b == 45
        || b == 46 || b == 95
}

/// The bytes as a form field holds them: a space written as `+`, and
/// every other byte that is not left as it is as `%` and two uppercase
/// hexadecimal digits.
pub open spec fn form_encoded_bytes(bytes: Seq<u8>) -> Seq<char>
    decreases bytes.len(),
{
    if bytes.len() == 0 {
        Seq::empty()
    } else {
        form_encoded_bytes(bytes.drop_last()) + (if is_form_unchanged(bytes.last()) {
            seq![bytes.last() as char]
        } else if bytes.last() == 32 {
            seq!['+']
        } else {
            seq![
                '%',
                hex_digit_upper(bytes.last() as int / 16),
                hex_digit_upper(bytes.last() as int % 16),
            ]
        })
    }
}

/// A text as a form field holds it: its bytes in UTF-8, encoded.
pub open spec fn form_encoded(s: Seq<char>) -> Seq<char> {
    form_encoded_bytes(encode_utf8(s))
}

/// Name of what percent-decoding makes of a text: the decoded text, or
/// nothing where the decoded bytes are not UTF-8.
pub uninterp spec fn percent_decoded(s: Seq<char>) -> Option<Seq<char>>;

/// Name of the SHA-256 digest of a run of bytes.
pub uninterp spec fn sha256_digest(data: Seq<u8>) -> Seq<u8>;

/// `urlencoding::encode`: every byte of the text but ASCII letters, digits
/// and `-`, `.`, `_`, `~` becomes `%` and two uppercase hexadecimal digits.
#[verifier::external_body]
pub(crate) fn percent_encode(s: &str) -> (r: String)
    ensures
        r@ == percent_encoded(s@),
{
    urlencoding::encode(s).into_owned()
}

/// `urlencoding::decode`: the text with its `%xx` groups replaced by the
/// bytes they stand for, or `None` where the result is not UTF-8. The
/// contract only names the result.
#[verifier::external_body]
pub(crate) fn percent_decode(s: &str) -> (r: Option<String>)
    ensures
        match r {
            Some(t) => percent_decoded(s@) == Some(t@),
            None => percent_decoded(s@) is None,
        },
{
    match urlencoding::decode(s) {
        Ok(t) => Some(t.into_owned()),
        Err(_) => None,
    }
}

/// `sha2::Sha256::digest`: the digest of the bytes, which is 32 bytes long.
#[verifier::external_body]
pub(crate) fn sha256(data: &[u8]) -> (r: Vec<u8>)
    ensures
        r@ == sha256_digest(data@),
        r@.len() == 32,
{
    sha2::Sha256::digest(data).to_vec()
}

/// `hex::encode`: two lowercase hexadecimal digits for every byte.
#[verifier::external_body]
pub(crate) fn hex_encode(data: &[u8]) -> (r: String)
    ensures
        r@ == hex_lower(data@),
{
    hex::encode(data)
}

/// Hexadecimal notation is twice as long as the bytes, and holds digits and
/// the letters `a` to `f` only.
pub proof fn lemma_hex_lower_shape(bytes: Seq<u8>)
    ensures
        hex_lower(bytes).len() == 2 * bytes.len(),
        forall|i: int|
            0 <= i < hex_lower(bytes).len() ==> {
                let c = #[trigger] hex_lower(bytes)[i];
                ('0' <= c && c <= '9') || ('a' <= c && c <= 'f')
            },
    decreases bytes.len(),
{
    if bytes.len() > 0 {
        lemma_hex_lower_shape(bytes.drop_last());
        let b = bytes.last() as int;
        assert(0 <= b / 16 < 16 && 0 <= b % 16 < 16);
    }
}

} // verus!
