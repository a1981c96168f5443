//! The payload format of shared mod-manager profiles: the line
//! `#r2modman`, then the profile's bytes in padded standard base64.
use base64::prelude::{Engine, BASE64_STANDARD};
use base64::DecodeError;
use vstd::prelude::*;
use vstd::string::*;
use vstd::utf8::*;

verus! {

broadcast use {vstd::utf8::group_utf8_lib, vstd::string::group_string_axioms};

#[verifier::external_type_specification]
#[verifier::external_body]
pub struct ExDecodeError(DecodeError);

/// The characters that start every profile payload.
pub open spec fn profile_prefix() -> Seq<char> {
    seq!['#', 'r', '2', 'm', 'o', 'd', 'm', 'a', 'n', '\n']
}

/// The bytes that start every profile payload.
pub open spec fn profile_prefix_bytes() -> Seq<u8> {
    encode_utf8(profile_prefix())
}

/// Whether a payload starts with the profile prefix.
pub open spec fn has_profile_prefix(payload: Seq<u8>) -> bool {
    payload.len() >= profile_prefix_bytes().len() && payload.subrange(
        0,
        profile_prefix_bytes().len() as int,
    ) == profile_prefix_bytes()
}

/// What follows the profile prefix in a payload.
pub open spec fn profile_body(payload: Seq<u8>) -> Seq<u8> {
    payload.subrange(profile_prefix_bytes().len() as int, payload.len() as int)
}

/// The padded standard base64 text of `data`.
pub uninterp spec fn base64_of(data: Seq<u8>) -> Seq<char>;

/// The bytes that padded standard base64 `text` stands for, or `None` if it
/// is not such text.
pub uninterp spec fn base64_decoded(text: Seq<u8>) -> Option<Seq<u8>>;

/// The largest input whose base64 length, four characters for every three
/// bytes begun, still fits in `usize`.
pub const MAX_ENCODABLE_LEN: usize = usize::MAX / 4 * 3;

/// Relies on `base64`'s `STANDARD` engine `encode`: the padded standard
/// base64 text of the bytes, four characters for every three bytes begun.
/// It panics only when that length overflows `usize`, which the bound rules out.
#[verifier::external_body]
fn encode_base64(data: &[u8]) -> (r: String)
    requires
        data@.len() <= MAX_ENCODABLE_LEN,
    ensures
        r@ == base64_of(data@),
        r@.len() == 4 * ((data@.len() + 2) / 3),
{
    BASE64_STANDARD.encode(data)
}

/// Relies on `base64`'s `STANDARD` engine `decode`: the bytes that the text
/// stands for, or an error for text that is not padded standard base64.
#[verifier::external_body]
fn decode_base64(text: &[u8]) -> (r: Result<Vec<u8>, DecodeError>)
    ensures
        match r {
            Ok(v) => base64_decoded(text@) == Some(v@),
            Err(_) => base64_decoded(text@) is None,
        },
{
    BASE64_STANDARD.decode(text)
}

/// The text that starts every profile payload.
pub fn profile_data_prefix() -> (r: &'static str)
    ensures
        r@ == profile_prefix(),
{
    proof {
        reveal_strlit("#r2modman\n");
    }
    "#r2modman\n"
}

/// Why a payload is not a profile.
#[derive(Debug)]
pub enum ProfileError {
    /// The payload does not start with the profile prefix.
    InvalidProfileData,
    /// The text after the prefix is not valid base64.
    Base64(DecodeError),
}

/// The padded standard base64 text of `data`, as icons are sent for
/// validation.
pub fn base64_text(data: &[u8]) -> (r: String)
    requires
        data@.len() <= MAX_ENCODABLE_LEN,
    ensures
        r@ == base64_of(data@),
{
    encode_base64(data)
}

/// The prefix in front of already encoded profile text.
pub fn frame_profile(encoded: &str) -> (r: String)
    ensures
        r@ == profile_prefix() + encoded@,
{
    let mut s = String::from_str(profile_data_prefix());
    s.append(encoded);
    s
}

/// The payload that stores the profile `data`: the prefix, then `data` in
/// base64.
pub fn encode_profile(data: &[u8]) -> (r: String)
    requires
        data@.len() <= MAX_ENCODABLE_LEN,
    ensures
        r@ == profile_prefix() + base64_of(data@),
{
    let encoded = encode_base64(data);
    frame_profile(encoded.as_str())
}

/// The part of a payload after the profile prefix, if it has the prefix.
pub fn strip_profile_prefix(payload: &[u8]) -> (r: Option<&[u8]>)
    ensures
        match r {
            Some(body) => has_profile_prefix(payload@) && body@ == profile_body(payload@),
            None => !has_profile_prefix(payload@),
        },
{
    let prefix = profile_data_prefix().as_bytes();
    let n = prefix.len();
    if payload.len() < n {
        return None;
    }
    let mut i: usize = 0;
    while i < n
        invariant
            prefix@ == profile_prefix_bytes(),
            n == prefix@.len(),
            n <= payload@.len(),
            0 <= i <= n,
            forall|j: int| 0 <= j < i ==> payload@[j] == prefix@[j],
        decreases n - i,
    {
        if payload[i] != prefix[i] {
            return None;
        }
        i = i + 1;
    }
    proof {
        assert(payload@.subrange(0, n as int) =~= prefix@);
    }
    let (_, body) = payload.split_at(n);
    Some(body)
}

/// The profile bytes stored in a payload: the payload must start with the
/// prefix, and the rest must be valid base64.
pub fn decode_profile(payload: &[u8]) -> (r: Result<Vec<u8>, ProfileError>)
    ensures
        match r {
            Ok(v) => has_profile_prefix(payload@) && base64_decoded(profile_body(payload@)) == Some(
                v@,
            ),
            Err(ProfileError::InvalidProfileData) => !has_profile_prefix(payload@),
            Err(ProfileError::Base64(_)) => has_profile_prefix(payload@) && base64_decoded(
                profile_body(payload@),
            ) is None,
        },
{
    match strip_profile_prefix(payload) {
        None => Err(ProfileError::InvalidProfileData),
        Some(body) => match decode_base64(body) {
            Ok(v) => Ok(v),
            Err(e) => Err(ProfileError::Base64(e)),
        },
    }
}

} // verus!
