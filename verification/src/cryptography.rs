//! Key material and authenticated encryption at the transport boundary.
//!
//! Key-exchange and encryption internals are outside the core: the
//! library binds to them only through their call signatures.  The
//! primitives come from the `orion` crate and stand behind trusted
//! declarations; keys travel as plain 32-byte values, as the plugin holds
//! them.  What is verified here is the bookkeeping around the calls —
//! which plugin fields change, and how the buffer lengths relate.

use vstd::prelude::*;
use crate::errors::CoreError;
use crate::microchip::MicrochipPlugin;

verus! {

/// orion's error type: a single opaque variant.
#[verifier::external_type_specification]
#[verifier::external_body]
pub struct ExUnknownCryptoError(orion::errors::UnknownCryptoError);

/// Relies on `orion::util::secure_rand_bytes`: fills the buffer from the
/// operating system's randomness source, leaving its length unchanged; an
/// empty buffer is refused.
#[verifier::external_body]
fn fill_random(dst: &mut Vec<u8>) -> (r: Result<(), orion::errors::UnknownCryptoError>)
    ensures
        final(dst)@.len() == old(dst)@.len(),
        old(dst)@.len() == 0 ==> r is Err,
{
    orion::util::secure_rand_bytes(dst.as_mut_slice())
}

/// Relies on `orion::aead::seal` (XChaCha20Poly1305), with the key built
/// by `SecretKey::try_from`: the sealed buffer is a 24-byte random nonce,
/// then a ciphertext as long as the plaintext, then a 16-byte tag.  A key
/// of any length other than 32 bytes and an empty plaintext are refused.
/// The bytes depend on the random nonce, so nothing more is stated of
/// them.
#[verifier::external_body]
fn aead_seal(key: &[u8], plaintext: &[u8]) -> (r: Result<
    Vec<u8>,
    orion::errors::UnknownCryptoError,
>)
    ensures
        r matches Ok(c) ==> c@.len() == plaintext@.len() + 40,
        key@.len() != 32 ==> r is Err,
        plaintext@.len() == 0 ==> r is Err,
{
    let secret_key = orion::aead::SecretKey::try_from(key)?;
    orion::aead::seal(&secret_key, plaintext)
}

/// Relies on `orion::aead::open`, with the key built by
/// `SecretKey::try_from`: on success the plaintext is the sealed buffer
/// less the 24-byte nonce and the 16-byte tag.  A key of any length other
/// than 32 bytes, a buffer no longer than nonce and tag together, and any
/// buffer that fails authentication are refused.
#[verifier::external_body]
fn aead_open(key: &[u8], ciphertext: &[u8]) -> (r: Result<
    Vec<u8>,
    orion::errors::UnknownCryptoError,
>)
    ensures
        r matches Ok(p) ==> p@.len() + 40 == ciphertext@.len(),
        key@.len() != 32 ==> r is Err,
        ciphertext@.len() <= 40 ==> r is Err,
{
    let secret_key = orion::aead::SecretKey::try_from(key)?;
    orion::aead::open(&secret_key, ciphertext)
}

/// Install fresh key material into a plugin: a random 32-byte value for
/// each key field.  Nothing else of the plugin changes, and on a failure
/// of the randomness source the plugin is left untouched.
pub fn generate_keys(plugin: &mut MicrochipPlugin) -> (r: Result<(), CoreError>)
    ensures
        final(plugin)@.command_pool == old(plugin)@.command_pool,
        final(plugin)@.shutdown == old(plugin)@.shutdown,
        match r {
            Ok(u) => final(plugin)@.public_key.len() == 32 && final(plugin)@.private_key.len()
                == 32,
            Err(e) => e == CoreError::TransportError && *final(plugin) == *old(plugin),
        },
{
    let mut public_key: Vec<u8> = vec![0u8; 32];
    match fill_random(&mut public_key) {
        Ok(u) => {},
        Err(e) => {
            return Err(CoreError::TransportError);
        },
    }
    let mut private_key: Vec<u8> = vec![0u8; 32];
    match fill_random(&mut private_key) {
        Ok(u) => {},
        Err(e) => {
            return Err(CoreError::TransportError);
        },
    }
    plugin.public_key = public_key;
    plugin.private_key = private_key;
    Ok(())
}

/// Seal a message for the transport: on success the result is the
/// message's length plus the 40 bytes of nonce and tag.  A key that is
/// not 32 bytes long and an empty message are refused.
pub fn encrypt(tx_key: &[u8], message: Vec<u8>) -> (r: Result<Vec<u8>, CoreError>)
    ensures
        match r {
            Ok(c) => c@.len() == message@.len() + 40,
            Err(e) => e == CoreError::EncodingError,
        },
        tx_key@.len() != 32 ==> r is Err,
        message@.len() == 0 ==> r is Err,
{
    match aead_seal(tx_key, message.as_slice()) {
        Ok(c) => Ok(c),
        Err(e) => Err(CoreError::EncodingError),
    }
}

/// Open a sealed buffer from the transport: on success the message is 40
/// bytes shorter than the buffer.  A key that is not 32 bytes long, a
/// buffer too short to carry nonce and tag, and a buffer that fails
/// authentication are refused.
pub fn decrypt(rx_key: &[u8], message: Vec<u8>) -> (r: Result<Vec<u8>, CoreError>)
    ensures
        match r {
            Ok(p) => p@.len() + 40 == message@.len(),
            Err(e) => e == CoreError::DecodingError,
        },
        rx_key@.len() != 32 ==> r is Err,
        message@.len() <= 40 ==> r is Err,
{
    match aead_open(rx_key, message.as_slice()) {
        Ok(p) => Ok(p),
        Err(e) => Err(CoreError::DecodingError),
    }
}

} // verus!
