//! Binding of a long-term identity to a transport key.
//!
//! A peer proves that the holder of its durable signing key also controls the
//! Diffie-Hellman key of this session by signing the public half of that key.
//! The signature and the verifying key travel inside the handshake payload,
//! and the other side checks them against the static key that the Noise
//! engine reveals. Nothing else ties a session to an identity.

use vstd::prelude::*;
use ed25519_dalek::{Signature, SignatureError, Signer, SigningKey, Verifier, VerifyingKey};
use rand_core::OsRng;
use crate::error::SessionError;

verus! {

#[verifier::external_type_specification]
#[verifier::external_body]
pub struct ExSigningKey(SigningKey);

#[verifier::external_type_specification]
#[verifier::external_body]
pub struct ExVerifyingKey(VerifyingKey);

#[verifier::external_type_specification]
#[verifier::external_body]
pub struct ExSignature(Signature);

#[verifier::external_type_specification]
#[verifier::external_body]
pub struct ExSignatureError(SignatureError);

/// The 32 secret bytes that a signing key was made from: what
/// `SigningKey::to_bytes` answers.
pub uninterp spec fn signing_key_bytes(key: SigningKey) -> Seq<u8>;

/// The 32 bytes that a verifying key was decoded from: what
/// `VerifyingKey::to_bytes` answers.
pub uninterp spec fn verifying_key_bytes(key: VerifyingKey) -> Seq<u8>;

/// The 64 bytes of a signature: what `Signature::to_bytes` answers.
pub uninterp spec fn signature_bytes(signature: Signature) -> Seq<u8>;

/// The verifying key that belongs to the signing key with the bytes
/// `secret`: the bytes of what `SigningKey::verifying_key` answers.
pub uninterp spec fn ed25519_public_key(secret: Seq<u8>) -> Seq<u8>;

/// The signature that the signing key with the bytes `secret` gives to
/// `message`: the bytes of what `Signer::sign` answers. Ed25519 signs without
/// randomness.
pub uninterp spec fn ed25519_signature(secret: Seq<u8>, message: Seq<u8>) -> Seq<u8>;

/// Whether `bytes` decode as a verifying key: whether `VerifyingKey::try_from`
/// succeeds on them.
pub uninterp spec fn ed25519_key_decodes(bytes: Seq<u8>) -> bool;

/// Whether the verifying key with the bytes `key` accepts `signature` for
/// `message`: whether `Verifier::verify` succeeds.
pub uninterp spec fn ed25519_accepts(key: Seq<u8>, message: Seq<u8>, signature: Seq<u8>) -> bool;

/// Whether `key` is a verifying key that accepts `signature` for `message`.
pub open spec fn verifies(key: Seq<u8>, message: Seq<u8>, signature: Seq<u8>) -> bool {
    ed25519_key_decodes(key) && ed25519_accepts(key, message, signature)
}

/// `SigningKey::generate` on the operating system's random source, as
/// bytes. Nothing is said of the bytes: they are random. The call does not
/// return where the system has no random source.
#[verifier::external_body]
pub(crate) fn fresh_signing_key() -> (secret: [u8; 32]) {
    SigningKey::generate(&mut OsRng).to_bytes()
}

/// `SigningKey::try_from` a byte slice. It succeeds on slices of 32 bytes and
/// on no others, and the key keeps the bytes.
#[verifier::external_body]
fn decode_signing_key(bytes: &[u8]) -> (decoded: Result<SigningKey, SignatureError>)
    ensures
        decoded is Ok <==> bytes@.len() == 32,
        decoded matches Ok(key) ==> signing_key_bytes(key) == bytes@,
{
    SigningKey::try_from(bytes)
}

/// `SigningKey::verifying_key`, as bytes. The result depends on the secret
/// bytes alone and decodes as a verifying key again.
#[verifier::external_body]
fn public_key_of(key: &SigningKey) -> (public: [u8; 32])
    ensures
        public@ == ed25519_public_key(signing_key_bytes(*key)),
        ed25519_key_decodes(public@),
{
    key.verifying_key().to_bytes()
}

/// `Signer::sign` of a signing key, as bytes. The signature depends on the
/// secret bytes and the message alone, and the key's own verifying key
/// accepts it.
#[verifier::external_body]
fn sign(key: &SigningKey, message: &[u8]) -> (signature: [u8; 64])
    ensures
        signature@ == ed25519_signature(signing_key_bytes(*key), message@),
        verifies(ed25519_public_key(signing_key_bytes(*key)), message@, signature@),
{
    key.sign(message).to_bytes()
}

/// `Signature::try_from` a byte slice. It succeeds on slices of 64 bytes and
/// on no others, and the signature keeps the bytes.
#[verifier::external_body]
fn decode_signature(bytes: &[u8]) -> (decoded: Result<Signature, SignatureError>)
    ensures
        decoded is Ok <==> bytes@.len() == 64,
        decoded matches Ok(signature) ==> signature_bytes(signature) == bytes@,
{
    Signature::try_from(bytes)
}

/// `VerifyingKey::try_from` a byte slice. It fails on slices that are not 32
/// bytes long and on those that are no point of the curve; the key keeps the
/// bytes.
#[verifier::external_body]
fn decode_verifying_key(bytes: &[u8]) -> (decoded: Result<VerifyingKey, SignatureError>)
    ensures
        decoded is Ok <==> ed25519_key_decodes(bytes@),
        decoded is Ok ==> bytes@.len() == 32,
        decoded matches Ok(key) ==> verifying_key_bytes(key) == bytes@,
{
    VerifyingKey::try_from(bytes)
}

/// `Verifier::verify` of a verifying key. Whether it succeeds depends on the
/// bytes of the key, of the message and of the signature alone.
#[verifier::external_body]
fn verify(key: &VerifyingKey, message: &[u8], signature: &Signature) -> (verified: Result<
    (),
    SignatureError,
>)
    ensures
        verified is Ok <==> ed25519_accepts(
            verifying_key_bytes(*key),
            message@,
            signature_bytes(*signature),
        ),
{
    key.verify(message, signature)
}

/// What a binding check answers once it is known whether the signature and
/// the verifying key decoded and whether the key accepted the signature. A
/// signature that does not decode is reported first, then a key that does
/// not decode, then a signature that is not accepted.
pub open spec fn verdict(signature_decoded: bool, key_decoded: bool, accepted: bool) -> Result<
    (),
    SessionError,
> {
    if !signature_decoded {
        Err(SessionError::MalformedSignature)
    } else if !key_decoded {
        Err(SessionError::MalformedVerifyingKey)
    } else if !accepted {
        Err(SessionError::BindingVerificationFailure)
    } else {
        Ok(())
    }
}

/// Whether `signature` binds the identity `verifying_key` to the transport
/// key `dh_public_key`.
pub open spec fn binding_check(
    dh_public_key: Seq<u8>,
    verifying_key: Seq<u8>,
    signature: Seq<u8>,
) -> Result<(), SessionError> {
    verdict(
        signature.len() == 64,
        ed25519_key_decodes(verifying_key),
        ed25519_accepts(verifying_key, dh_public_key, signature),
    )
}

/// Answer of a binding check from the outcome of its three steps.
pub fn binding_verdict(signature_decoded: bool, key_decoded: bool, accepted: bool) -> (outcome:
    Result<(), SessionError>)
    ensures
        outcome == verdict(signature_decoded, key_decoded, accepted),
        outcome is Ok <==> signature_decoded && key_decoded && accepted,
{
    if !signature_decoded {
        Err(SessionError::MalformedSignature)
    } else if !key_decoded {
        Err(SessionError::MalformedVerifyingKey)
    } else if !accepted {
        Err(SessionError::BindingVerificationFailure)
    } else {
        Ok(())
    }
}

/// Checks that `signature` is the signature of `verifying_key` over
/// `dh_public_key`. The check reads its arguments and changes nothing.
pub fn verify_binding(dh_public_key: &[u8], verifying_key: &[u8], signature: &[u8]) -> (outcome:
    Result<(), SessionError>)
    ensures
        outcome == binding_check(dh_public_key@, verifying_key@, signature@),
        outcome is Ok <==> signature@.len() == 64 && verifies(
            verifying_key@,
            dh_public_key@,
            signature@,
        ),
{
    let decoded_signature = decode_signature(signature);
    let decoded_key = decode_verifying_key(verifying_key);
    let accepted = match (&decoded_signature, &decoded_key) {
        (Ok(s), Ok(k)) => verify(k, dh_public_key, s).is_ok(),
        _ => false,
    };
    binding_verdict(decoded_signature.is_ok(), decoded_key.is_ok(), accepted)
}

/// Signs `dh_public_key` with the signing key `signing_key`. It fails on a
/// signing key that is not 32 bytes long and on nothing else. What it
/// returns passes `verify_binding` for the identity of the signing key.
pub fn sign_binding(signing_key: &[u8], dh_public_key: &[u8]) -> (outcome: Result<
    [u8; 64],
    SessionError,
>)
    ensures
        outcome is Ok <==> signing_key@.len() == 32,
        outcome matches Err(error) ==> error == SessionError::MalformedSigningKey,
        outcome matches Ok(signature) ==> {
            &&& signature@ == ed25519_signature(signing_key@, dh_public_key@)
            &&& binding_check(dh_public_key@, ed25519_public_key(signing_key@), signature@) is Ok
        },
{
    match decode_signing_key(signing_key) {
        Ok(key) => Ok(sign(&key, dh_public_key)),
        Err(_) => Err(SessionError::MalformedSigningKey),
    }
}

/// The verifying key that stands for the identity of `signing_key`. It fails
/// on a signing key that is not 32 bytes long and on nothing else.
pub fn identity_of(signing_key: &[u8]) -> (outcome: Result<[u8; 32], SessionError>)
    ensures
        outcome is Ok <==> signing_key@.len() == 32,
        outcome matches Err(error) ==> error == SessionError::MalformedSigningKey,
        outcome matches Ok(public) ==> {
            &&& public@ == ed25519_public_key(signing_key@)
            &&& ed25519_key_decodes(public@)
        },
{
    match decode_signing_key(signing_key) {
        Ok(key) => Ok(public_key_of(&key)),
        Err(_) => Err(SessionError::MalformedSigningKey),
    }
}

} // verus!
