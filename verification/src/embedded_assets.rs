//! Names of the runtime assets (stylesheet, scripts) that are written next to
//! the executable: each file name carries a prefix of its content hash.

use crate::text::{push_char, push_str, string_from, chars_of};
use sha2::{Digest, Sha256};
use vstd::prelude::*;

verus! {

/// The SHA-256 digest of `data`, as the `sha2` crate computes it.
pub uninterp spec fn sha256(data: Seq<u8>) -> Seq<u8>;

/// `Sha256::digest`: the 32-byte SHA-256 digest of `data`, named [`sha256`].
#[verifier::external_body]
fn sha256_digest(data: &[u8]) -> (r: Vec<u8>)
    ensures
        r@ == sha256(data@),
        r@.len() == 32,
{
    Sha256::digest(data).to_vec()
}

pub open spec fn hex_char(v: u8) -> char {
    if v < 10 {
        ((48 + v) as u8) as char
    } else {
        ((87 + v) as u8) as char
    }
}

/// `bytes` in lower-case hexadecimal, two digits per byte.
pub open spec fn hex_lower(bytes: Seq<u8>) -> Seq<char>
    decreases bytes.len(),
{
    if bytes.len() == 0 {
        Seq::empty()
    } else {
        hex_lower(bytes.drop_last()) + seq![hex_char(bytes.last() / 16), hex_char(bytes.last() % 16)]
    }
}

/// Where each byte's two digits stand in [`hex_lower`].
pub proof fn lemma_hex_lower_digits(bytes: Seq<u8>)
    ensures
        hex_lower(bytes).len() == 2 * bytes.len(),
        forall|i: int|
            0 <= i < bytes.len() ==> hex_lower(bytes)[2 * i] == hex_char(#[trigger] bytes[i] / 16)
                && hex_lower(bytes)[2 * i + 1] == hex_char(bytes[i] % 16),
    decreases bytes.len(),
{
    if bytes.len() > 0 {
        let rest = bytes.drop_last();
        lemma_hex_lower_digits(rest);
        assert forall|i: int| 0 <= i < bytes.len() implies hex_lower(bytes)[2 * i] == hex_char(
            #[trigger] bytes[i] / 16,
        ) && hex_lower(bytes)[2 * i + 1] == hex_char(bytes[i] % 16) by {
            if i < rest.len() {
                assert(bytes[i] == rest[i]);
            }
        }
    }
}

fn hex_digit_char(v: u8) -> (c: char)
    requires
        v < 16,
    ensures
        c == hex_char(v),
{
    if v < 10 {
        (48 + v) as char
    } else {
        (87 + v) as char
    }
}

/// `bytes` in lower-case hexadecimal, as `format!("{:x}", digest)` prints a digest.
pub fn to_hex_lower(bytes: &[u8]) -> (r: String)
    ensures
        r@ == hex_lower(bytes@),
        r@.len() == 2 * bytes@.len(),
{
    let mut r = String::new();
    let mut k: usize = 0;
    while k < bytes.len()
        invariant
            k <= bytes@.len(),
            r@ == hex_lower(bytes@.take(k as int)),
            r@.len() == 2 * k,
        decreases bytes@.len() - k,
    {
        let b = bytes[k];
        push_char(&mut r, hex_digit_char(b / 16));
        push_char(&mut r, hex_digit_char(b % 16));
        assert(bytes@.take(k + 1).drop_last() =~= bytes@.take(k as int));
        k += 1;
    }
    assert(bytes@.take(bytes@.len() as int) =~= bytes@);
    r
}

/// The file name `<stem>-<first 16 hex digits>.<extension>` of an asset whose
/// content digest is `digest`, and the digest in full hex.
pub fn asset_names_for_digest(stem: &str, extension: &str, digest: &[u8]) -> (r: (String, String))
    requires
        digest@.len() >= 8,
    ensures
        r.1@ == hex_lower(digest@),
        r.0@ == stem@ + seq!['-'] + hex_lower(digest@).take(16) + seq!['.'] + extension@,
{
    let hash = to_hex_lower(digest);
    let hash_chars = chars_of(hash.as_str());
    let short = string_from(&hash_chars, 0, 16);
    assert(hash_chars@.subrange(0, 16) =~= hash@.take(16));
    let mut file = stem.to_owned();
    push_char(&mut file, '-');
    push_str(&mut file, short.as_str());
    push_char(&mut file, '.');
    push_str(&mut file, extension);
    (file, hash)
}

/// The file name `<stem>-<first 16 hex digits of the hash>.<extension>` of an
/// asset, and the full hex SHA-256 of its contents.
pub fn asset_file_name(stem: &str, extension: &str, contents: &[u8]) -> (r: (String, String))
    ensures
        r.1@ == hex_lower(sha256(contents@)),
        r.0@ == stem@ + seq!['-'] + hex_lower(sha256(contents@)).take(16) + seq!['.'] + extension@,
{
    let digest = sha256_digest(contents);
    asset_names_for_digest(stem, extension, digest.as_slice())
}

} // verus!
