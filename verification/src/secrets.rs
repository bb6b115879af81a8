//! Random secrets.
use rand::Rng;
use vstd::prelude::*;

verus! {

/// Whether `c` is an ASCII letter or digit.
pub open spec fn is_alphanumeric(c: char) -> bool {
    ('a' <= c <= 'z') || ('A' <= c <= 'Z') || ('0' <= c <= '9')
}

/// Whether `text` is made of ASCII letters and digits alone.
pub open spec fn all_alphanumeric(text: Seq<char>) -> bool {
    forall|i: int| 0 <= i < text.len() ==> is_alphanumeric(#[trigger] text[i])
}

/// `thread_rng`, `sample_iter` and `Alphanumeric` of the crate rand. Believed: whatever is
/// drawn, it is `len` ASCII letters and digits. Which ones is left to chance.
#[verifier::external_body]
pub(crate) fn random_alphanumeric(len: usize) -> (res: String)
    ensures
        res@.len() == len,
        all_alphanumeric(res@),
{
    rand::thread_rng()
        .sample_iter(rand::distributions::Alphanumeric)
        .take(len)
        .map(char::from)
        .collect()
}

} // verus!
