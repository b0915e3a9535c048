//! The outside encoders whose outputs are recorded as expected values.
use vstd::prelude::*;

verus! {

/// RFC 4648 base32, with padding.
pub uninterp spec fn base32_of(data: Seq<u8>) -> Seq<char>;

/// RFC 4648 base32 with the extended hex alphabet, with padding.
pub uninterp spec fn base32hex_of(data: Seq<u8>) -> Seq<char>;

/// RFC 4648 base64, with padding.
pub uninterp spec fn base64_of(data: Seq<u8>) -> Seq<char>;

/// RFC 4648 URL-safe base64, with padding.
pub uninterp spec fn base64url_of(data: Seq<u8>) -> Seq<char>;

/// Bitcoin-alphabet base58.
pub uninterp spec fn base58_of(data: Seq<u8>) -> Seq<char>;

/// Monero's block-wise base58.
pub uninterp spec fn base58xmr_of(data: Seq<u8>) -> Seq<char>;

/// Bech32 (`modified == false`) or Bech32m (`modified == true`) of `data`,
/// regrouped into 5-bit words, under the human-readable part `hrp`.
pub uninterp spec fn bech32_of(hrp: Seq<char>, data: Seq<u8>, modified: bool) -> Seq<char>;

/// A human-readable part that bech32 accepts: 1 to 83 printable ASCII
/// characters, not both upper- and lower-case letters.
pub open spec fn hrp_ok(hrp: Seq<char>) -> bool {
    &&& 1 <= hrp.len() <= 83
    &&& forall|i: int| 0 <= i < hrp.len() ==> '!' <= #[trigger] hrp[i] <= '~'
    &&& !((exists|i: int| 0 <= i < hrp.len() && 'a' <= #[trigger] hrp[i] <= 'z')
        && (exists|j: int| 0 <= j < hrp.len() && 'A' <= #[trigger] hrp[j] <= 'Z'))
}

/// Relies on `data_encoding::BASE32.encode`, which panics above
/// `usize::MAX / 512` input bytes and gives an empty string for empty input.
#[verifier::external_body]
pub(crate) fn encode_base32(data: &[u8]) -> (r: String)
    requires
        data@.len() <= usize::MAX / 512,
    ensures
        r@ == base32_of(data@),
        data@.len() == 0 ==> r@.len() == 0,
{
    data_encoding::BASE32.encode(data)
}

/// Relies on `data_encoding::BASE32HEX.encode`, which panics above
/// `usize::MAX / 512` input bytes and gives an empty string for empty input.
#[verifier::external_body]
pub(crate) fn encode_base32hex(data: &[u8]) -> (r: String)
    requires
        data@.len() <= usize::MAX / 512,
    ensures
        r@ == base32hex_of(data@),
        data@.len() == 0 ==> r@.len() == 0,
{
    data_encoding::BASE32HEX.encode(data)
}

/// Relies on `data_encoding::BASE64.encode`, which panics above
/// `usize::MAX / 512` input bytes and gives an empty string for empty input.
#[verifier::external_body]
pub(crate) fn encode_base64(data: &[u8]) -> (r: String)
    requires
        data@.len() <= usize::MAX / 512,
    ensures
        r@ == base64_of(data@),
        data@.len() == 0 ==> r@.len() == 0,
{
    data_encoding::BASE64.encode(data)
}

/// Relies on `data_encoding::BASE64URL.encode`, which panics above
/// `usize::MAX / 512` input bytes and gives an empty string for empty input.
#[verifier::external_body]
pub(crate) fn encode_base64url(data: &[u8]) -> (r: String)
    requires
        data@.len() <= usize::MAX / 512,
    ensures
        r@ == base64url_of(data@),
        data@.len() == 0 ==> r@.len() == 0,
{
    data_encoding::BASE64URL.encode(data)
}

/// Relies on `bs58::encode(..).into_string()`: empty input gives an empty
/// string.
#[verifier::external_body]
pub(crate) fn encode_base58(data: &[u8]) -> (r: String)
    ensures
        r@ == base58_of(data@),
        data@.len() == 0 ==> r@.len() == 0,
{
    bs58::encode(data).into_string()
}

/// Relies on `base58_monero::encode`, which cuts the input into chunks of one
/// to eight bytes; its block encoder fails only on other sizes, so the call
/// always succeeds; empty input gives an empty string.
#[verifier::external_body]
pub(crate) fn encode_base58xmr(data: &[u8]) -> (r: Option<String>)
    ensures
        r is Some,
        r is Some ==> r->0@ == base58xmr_of(data@),
        r is Some && data@.len() == 0 ==> r->0@.len() == 0,
{
    base58_monero::encode(data).ok()
}

/// Relies on `bech32::encode` with `ToBase32::to_base32` on the data; the
/// call fails only when `check_hrp` rejects the human-readable part.
#[verifier::external_body]
pub(crate) fn encode_bech32(hrp: &str, data: &[u8], modified: bool) -> (r: Option<String>)
    ensures
        hrp_ok(hrp@) ==> r is Some,
        r is Some ==> r->0@ == bech32_of(hrp@, data@, modified),
{
    let variant = if modified { bech32::Variant::Bech32m } else { bech32::Variant::Bech32 };
    bech32::encode(hrp, bech32::ToBase32::to_base32(&data), variant).ok()
}

} // verus!
