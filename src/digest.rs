use vstd::prelude::*;
use vstd::utf8::encode_utf8;

verus! {

/// The SHA-256 digest of a byte string.
pub uninterp spec fn sha256_of(data: Seq<u8>) -> Seq<u8>;

/// The base58 text (Bitcoin alphabet) of a byte string.
pub uninterp spec fn base58_of(data: Seq<u8>) -> Seq<char>;

/// The storage address of content whose canonical bytes are `data`.
pub open spec fn address_of(data: Seq<u8>) -> Seq<char> {
    base58_of(sha256_of(data))
}

/// Relies on `sha2::Sha256::digest`: the SHA-256 digest of `data`, which is
/// always 32 bytes long.
#[verifier::external_body]
fn sha256(data: &[u8]) -> (r: Vec<u8>)
    ensures
        r@ == sha256_of(data@),
        r@.len() == 32,
{
    <sha2::Sha256 as sha2::Digest>::digest(data).to_vec()
}

/// Relies on `bs58::encode(..).into_string()`: the base58 text of `data`,
/// which is non-empty when `data` is.
#[verifier::external_body]
fn base58(data: &[u8]) -> (r: String)
    ensures
        r@ == base58_of(data@),
        data@.len() > 0 ==> r@.len() > 0,
{
    bs58::encode(data).into_string()
}

/// Hashes canonical content bytes into the address under which the content is
/// stored: SHA-256, then base58.
pub fn content_address(data: &[u8]) -> (r: String)
    ensures
        r@ == address_of(data@),
        r@.len() > 0,
{
    let d = sha256(data);
    base58(d.as_slice())
}

/// Appends the bytes of `s` (UTF-8) to `out`.
pub fn push_str_bytes(out: &mut Vec<u8>, s: &str)
    ensures
        final(out)@ == old(out)@ + encode_utf8(s@),
{
    out.extend_from_slice(s.as_bytes());
}

} // verus!
