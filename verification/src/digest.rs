//! SHA-256, HMAC-SHA-256 and their hexadecimal form.
use hmac::Mac;
use sha2::Digest;
use vstd::prelude::*;
use vstd::utf8::encode_utf8;

verus! {

/// The SHA-256 digest of some bytes.
pub uninterp spec fn sha256(data: Seq<u8>) -> Seq<u8>;

/// The HMAC-SHA-256 tag of a message under a key.
pub uninterp spec fn hmac_sha256(key: Seq<u8>, message: Seq<u8>) -> Seq<u8>;

/// The lower-case hexadecimal digit of a number from zero to fifteen.
pub open spec fn hex_digit(n: int) -> char {
    if n < 10 {
        ('0' as int + n) as char
    } else {
        ('a' as int + n - 10) as char
    }
}

/// Bytes in lower-case hexadecimal, two digits for each, the high one first.
pub open spec fn hex_text(data: Seq<u8>) -> Seq<char> {
    Seq::new(
        data.len() * 2,
        |i: int|
            if i % 2 == 0 {
                hex_digit(data[i / 2] as int / 16)
            } else {
                hex_digit(data[i / 2] as int % 16)
            },
    )
}

/// The SHA-256 digest of a text, over its UTF-8 bytes, in hexadecimal.
pub open spec fn text_digest(text: Seq<char>) -> Seq<char> {
    hex_text(sha256(encode_utf8(text)))
}

/// `Sha256::new`, `update` and `finalize` of the crate sha2. Believed: the digest is a
/// function of the bytes, and it is 32 bytes long.
#[verifier::external_body]
fn sha256_of(data: &[u8]) -> (res: Vec<u8>)
    ensures
        res@ == sha256(data@),
        res@.len() == 32,
{
    let mut hasher = sha2::Sha256::new();
    hasher.update(data);
    hasher.finalize().to_vec()
}

/// `Hmac::<Sha256>::new_from_slice`, `update`, `finalize` and `into_bytes` of the
/// crates hmac and sha2. Believed: a key of any length is accepted, and the tag is a
/// function of the key and the message and 32 bytes long.
#[verifier::external_body]
fn hmac_sha256_of(key: &[u8], message: &[u8]) -> (res: Vec<u8>)
    ensures
        res@ == hmac_sha256(key@, message@),
        res@.len() == 32,
{
    let mut mac = hmac::Hmac::<sha2::Sha256>::new_from_slice(key)
        .expect("HMAC key length is always valid");
    mac.update(message);
    mac.finalize().into_bytes().to_vec()
}

/// `hex::encode`. Believed: two lower-case hexadecimal digits for each byte, the high
/// one first.
#[verifier::external_body]
fn hex_encode(data: &[u8]) -> (res: String)
    ensures
        res@ == hex_text(data@),
{
    hex::encode(data)
}

/// The SHA-256 digest of a text in hexadecimal: 64 characters.
pub fn digest_text(text: &str) -> (res: String)
    ensures
        res@ == text_digest(text@),
        res@.len() == 64,
{
    let digest = sha256_of(text.as_bytes());
    hex_encode(digest.as_slice())
}

/// The HMAC-SHA-256 tag of a text under a text key, in hexadecimal: 64 characters.
pub fn mac_text(key: &str, message: &str) -> (res: String)
    ensures
        res@ == hex_text(hmac_sha256(encode_utf8(key@), encode_utf8(message@))),
        res@.len() == 64,
{
    let tag = hmac_sha256_of(key.as_bytes(), message.as_bytes());
    hex_encode(tag.as_slice())
}

proof fn hex_text_at(data: Seq<u8>, i: int)
    requires
        0 <= i < data.len(),
    ensures
        hex_text(data)[2 * i] == hex_digit(data[i] as int / 16),
        hex_text(data)[2 * i + 1] == hex_digit(data[i] as int % 16),
{
    let even = 2 * i;
    let odd = 2 * i + 1;
    assert(even % 2 == 0 && even / 2 == i);
    assert(odd % 2 == 1 && odd / 2 == i);
    assert(odd < data.len() * 2);
}

/// Bytes can be read back from their hexadecimal form.
pub proof fn hex_text_is_injective(a: Seq<u8>, b: Seq<u8>)
    requires
        hex_text(a) == hex_text(b),
    ensures
        a == b,
{
    assert(hex_text(a).len() == a.len() * 2);
    assert(hex_text(b).len() == b.len() * 2);
    assert forall|i: int| 0 <= i < a.len() implies a[i] == b[i] by {
        hex_text_at(a, i);
        hex_text_at(b, i);
        assert(a[i] as int / 16 == b[i] as int / 16);
        assert(a[i] as int % 16 == b[i] as int % 16);
    }
    assert(a =~= b);
}

/// The digest of a text is that of all its bytes, and no others.
pub proof fn digests_are_of_the_whole_text(text: Seq<char>)
    ensures
        text_digest(text) == hex_text(sha256(encode_utf8(text))),
{
}

} // verus!
