//! What this library takes on trust from the crates it calls: `bytes` for the
//! buffers that hold resolved secrets, `base64` for inline values, `ring` for
//! the Ed25519 identity and `tun_tap` for the interface mode. Nothing in this
//! file is proved; every contract restates what the crate's source shows.

use bytes::Bytes;
use ring::error::KeyRejected;
use ring::signature::Ed25519KeyPair;
use ring::signature::KeyPair;
use tun_tap::Mode;
use vstd::prelude::*;

verus! {

/// `bytes::Bytes`, a shared immutable byte buffer.
#[verifier::external_type_specification]
#[verifier::external_body]
pub struct ExBytes(Bytes);

/// `base64::DecodeError`, the reason a text is not valid base64.
#[verifier::external_type_specification]
#[verifier::external_body]
pub struct ExDecodeError(base64::DecodeError);

/// `ring::signature::Ed25519KeyPair`, a signing key with its public key.
#[verifier::external_type_specification]
#[verifier::external_body]
pub struct ExEd25519KeyPair(Ed25519KeyPair);

/// `ring::error::KeyRejected`, the reason key material was refused.
#[verifier::external_type_specification]
#[verifier::external_body]
pub struct ExKeyRejected(KeyRejected);

/// `tun_tap::Mode`, an enum of the two variants `Tun` and `Tap`.
#[verifier::external_type_specification]
pub struct ExMode(Mode);

/// The bytes that a buffer holds, in order.
pub uninterp spec fn bytes_content(buffer: Bytes) -> Seq<u8>;

/// `Bytes::new` gives a buffer that holds no byte.
pub assume_specification[ Bytes::new ]() -> (buffer: Bytes)
    ensures
        bytes_content(buffer) == Seq::<u8>::empty(),
;

/// `Bytes::clone` gives a second handle on the same bytes.
pub assume_specification[ <Bytes as Clone>::clone ](buffer: &Bytes) -> (copy: Bytes)
    ensures
        bytes_content(copy) == bytes_content(*buffer),
;

/// `Bytes::from` on a vector takes the vector's bytes over, unchanged.
pub assume_specification[ <Bytes as From<Vec<u8>>>::from ](data: Vec<u8>) -> (buffer: Bytes)
    ensures
        bytes_content(buffer) == data@,
;

/// `Bytes::as_ref` lends the buffer's bytes as a slice.
pub assume_specification<'a>[ <Bytes as AsRef<[u8]>>::as_ref ](buffer: &'a Bytes) -> (slice:
    &'a [u8])
    ensures
        slice@ == bytes_content(*buffer),
;

/// What `base64::decode` makes of a text with the standard alphabet and
/// padding: the bytes it stands for, or `None` where it is not valid base64.
pub uninterp spec fn base64_decoded(text: Seq<char>) -> Option<Seq<u8>>;

/// `base64::decode`: the result depends on the text alone.
#[verifier::external_body]
#[allow(deprecated)]
pub(crate) fn decode_base64(text: &str) -> (outcome: Result<Vec<u8>, base64::DecodeError>)
    ensures
        match outcome {
            Ok(data) => base64_decoded(text@) == Some(data@),
            Err(_) => base64_decoded(text@) is None,
        },
{
    base64::decode(text)
}

/// The Ed25519 public key that belongs to a 32-byte seed.
pub uninterp spec fn ed25519_public_key(seed: Seq<u8>) -> Seq<u8>;

/// The public key that a key pair holds.
pub uninterp spec fn key_pair_public_key(pair: Ed25519KeyPair) -> Seq<u8>;

/// `Ed25519KeyPair::from_seed_unchecked` accepts a seed if and only if it is
/// 32 bytes long, and the public key of the pair it gives is computed from the
/// seed alone.
pub assume_specification[ Ed25519KeyPair::from_seed_unchecked ](seed: &[u8]) -> (outcome: Result<
    Ed25519KeyPair,
    KeyRejected,
>)
    ensures
        outcome is Ok <==> seed@.len() == 32,
        outcome matches Ok(pair) ==> key_pair_public_key(pair) == ed25519_public_key(seed@),
;

/// `KeyPair::public_key` on an Ed25519 key pair, copied out: the 32 bytes of
/// the public key that the pair holds.
#[verifier::external_body]
pub(crate) fn public_key_bytes(pair: &Ed25519KeyPair) -> (key: Vec<u8>)
    ensures
        key@ == key_pair_public_key(*pair),
        key@.len() == 32,
{
    pair.public_key().as_ref().to_vec()
}

} // verus!
