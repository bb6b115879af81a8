//! API keys: how they are made, kept and presented.
use vstd::prelude::*;
use vstd::utf8::encode_utf8;

use crate::digest::{digest_text, hex_text, sha256, text_digest};
use crate::secrets::{all_alphanumeric, random_alphanumeric};
use crate::text::{join2, optional_text};

verus! {

/// How many random characters an API key has.
pub const RANDOM_LENGTH: usize = 48;

/// How many characters of an API key are kept, for people to tell keys apart.
pub const PREFIX_LENGTH: usize = 11;

/// An API key. The raw key is shown once, and never kept; its prefix and its digest are.
pub struct ApiKey {
    pub raw_key: String,
    pub key_prefix: String,
    pub key_hash: String,
}

/// The value of an [`ApiKey`].
pub struct ApiKeyView {
    pub raw_key: Seq<char>,
    pub key_prefix: Seq<char>,
    pub key_hash: Seq<char>,
}

impl View for ApiKey {
    type V = ApiKeyView;

    open spec fn view(&self) -> ApiKeyView {
        ApiKeyView {
            raw_key: self.raw_key@,
            key_prefix: self.key_prefix@,
            key_hash: self.key_hash@,
        }
    }
}

/// The API key with the given random part.
pub open spec fn api_key(random: Seq<char>) -> ApiKeyView {
    let raw_key = "dk_"@ + random;
    ApiKeyView {
        raw_key,
        key_prefix: raw_key.take(PREFIX_LENGTH as int),
        key_hash: text_digest(raw_key),
    }
}

/// The API key with the given random part.
pub fn api_key_with(random: &str) -> (res: ApiKey)
    requires
        random@.len() >= 8,
        all_alphanumeric(random@),
    ensures
        res@ == api_key(random@),
{
    let raw_key = join2("dk_", random);
    proof {
        reveal_strlit("dk_");
        assert(raw_key@.len() == 3 + random@.len());
    }
    let key_prefix = raw_key.as_str().substring_char(0, PREFIX_LENGTH).to_string();
    let key_hash = digest_text(raw_key.as_str());
    ApiKey { raw_key, key_prefix, key_hash }
}

/// An API key with a random part of 48 letters and digits.
pub fn generate_api_key() -> (res: ApiKey)
    ensures
        exists|random: Seq<char>|
            random.len() == RANDOM_LENGTH && all_alphanumeric(random) && res@
                == #[trigger] api_key(random),
{
    let random = random_alphanumeric(RANDOM_LENGTH);
    api_key_with(random.as_str())
}

/// The API key of the demo business that is made on the first run: when there are no
/// businesses yet.
pub fn seed_demo(business_count: i64) -> (res: Option<ApiKey>)
    ensures
        business_count > 0 ==> res is None,
        business_count <= 0 ==> res is Some && exists|random: Seq<char>|
            random.len() == RANDOM_LENGTH && all_alphanumeric(random) && res->0@
                == #[trigger] api_key(random),
{
    if business_count > 0 {
        None
    } else {
        Some(generate_api_key())
    }
}

/// The digest by which an API key is looked up.
pub fn key_digest(raw_key: &str) -> (res: String)
    ensures
        res@ == text_digest(raw_key@),
{
    digest_text(raw_key)
}

/// The API key that an `Authorization` header presents: what follows `Bearer` and a space.
pub open spec fn bearer_key(header: Seq<char>) -> Option<Seq<char>> {
    if "Bearer "@.is_prefix_of(header) {
        Some(header.skip("Bearer "@.len() as int))
    } else {
        None
    }
}

/// The API key that an `Authorization` header presents, if it presents one.
pub fn presented_key(header: &str) -> (res: Option<String>)
    ensures
        optional_text(res) == bearer_key(header@),
{
    let scheme = "Bearer ";
    let length = scheme.unicode_len();
    let total = header.unicode_len();
    if total < length {
        return None;
    }
    let start = header.substring_char(0, length).to_string();
    if start == scheme.to_string() {
        proof {
            assert(header@.subrange(0, length as int) =~= "Bearer "@);
            assert forall|i: int| 0 <= i < length implies "Bearer "@[i] == header@[i] by {
                assert(header@.subrange(0, length as int)[i] == header@[i]);
            }
            assert("Bearer "@.is_prefix_of(header@));
            assert(header@.subrange(length as int, total as int) =~= header@.skip(length as int));
        }
        Some(header.substring_char(length, total).to_string())
    } else {
        proof {
            if "Bearer "@.is_prefix_of(header@) {
                assert(header@.subrange(0, length as int) =~= "Bearer "@);
            }
        }
        None
    }
}

/// An API key has 51 characters and starts with `dk_`. Its prefix is the first eleven of
/// them.
pub proof fn api_keys_have_their_form(random: Seq<char>)
    requires
        random.len() == RANDOM_LENGTH,
    ensures
        api_key(random).raw_key.len() == 51,
        "dk_"@.is_prefix_of(api_key(random).raw_key),
        api_key(random).key_prefix.len() == 11,
        api_key(random).key_prefix.is_prefix_of(api_key(random).raw_key),
{
    reveal_strlit("dk_");
}

/// A key that is presented as the owner was told is looked up by the digest that was kept.
pub proof fn presented_keys_are_found(random: Seq<char>)
    ensures
        ({
            let key = api_key(random);
            bearer_key("Bearer "@ + key.raw_key) == Some(key.raw_key) && text_digest(key.raw_key)
                == key.key_hash
        }),
{
    let raw = api_key(random).raw_key;
    let header = "Bearer "@ + raw;
    assert("Bearer "@.is_prefix_of(header)) by {
        assert(header.subrange(0, "Bearer "@.len() as int) =~= "Bearer "@);
    }
    assert(header.skip("Bearer "@.len() as int) =~= raw);
}

/// An API key is `dk_` and the whole random part. What is kept of it is its first eleven
/// characters and the digest of all of it.
pub proof fn api_keys_are_made_of_their_random_part(random: Seq<char>)
    ensures
        api_key(random).raw_key == "dk_"@ + random,
        random.len() >= 8 ==> api_key(random).key_prefix == "dk_"@ + random.take(8),
        api_key(random).key_hash == hex_text(sha256(encode_utf8("dk_"@ + random))),
{
    reveal_strlit("dk_");
    if random.len() >= 8 {
        assert(("dk_"@ + random).take(11) =~= "dk_"@ + random.take(8));
    }
}

/// Different random parts make different keys.
pub proof fn api_keys_differ(a: Seq<char>, b: Seq<char>)
    requires
        api_key(a).raw_key == api_key(b).raw_key,
    ensures
        a == b,
{
    assert(("dk_"@ + a).skip("dk_"@.len() as int) =~= a);
    assert(("dk_"@ + b).skip("dk_"@.len() as int) =~= b);
}

/// A header presents a key exactly where it is `Bearer`, a space and that key.
pub proof fn headers_present_what_follows_the_scheme(header: Seq<char>, key: Seq<char>)
    ensures
        bearer_key(header) == Some(key) <==> header == "Bearer "@ + key,
{
    let whole = "Bearer "@ + key;
    assert(whole.subrange(0, "Bearer "@.len() as int) =~= "Bearer "@);
    assert(whole.skip("Bearer "@.len() as int) =~= key);
    assert("Bearer "@.is_prefix_of(whole));
    if bearer_key(header) == Some(key) {
        assert(header.subrange(0, "Bearer "@.len() as int) =~= "Bearer "@);
        assert(header =~= "Bearer "@ + key);
    }
}

/// Nothing of an API key is lost in its value.
pub proof fn api_keys_are_shown_whole(key: ApiKey)
    ensures
        key@.raw_key == key.raw_key@,
        key@.key_prefix == key.key_prefix@,
        key@.key_hash == key.key_hash@,
{
}

} // verus!
