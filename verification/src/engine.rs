//! The Noise XX engine and the cipher streams it derives.
//!
//! The handshake arithmetic is not done here: a Noise engine on X25519,
//! ChaCha20-Poly1305 and BLAKE2s does it. This module says what the session
//! relies on: how far an engine has come through the three messages of the
//! XX pattern, whose turn it is, how many bytes each message adds to its
//! payload, and what the two cipher streams of a completed handshake do to a
//! frame.

use vstd::prelude::*;
use noise_protocol::{CipherState, HandshakeState, U8Array, DH};
use noise_rust_crypto::{Blake2s, ChaCha20Poly1305, X25519};
use crate::layout::{field, with_field};

verus! {

/// Number of messages of the XX pattern.
pub const XX_MESSAGES: usize = 3;

/// Bytes that message `index` of the XX pattern adds to its payload. The
/// first message carries a bare public key; the second a public key, an
/// encrypted static key with its tag and the tag of the payload; the third
/// an encrypted static key with its tag and the tag of the payload. A public
/// key takes 32 bytes and a tag 16.
pub open spec fn xx_overhead(index: nat) -> nat {
    if index == 0 {
        32
    } else if index == 1 {
        96
    } else {
        64
    }
}

/// Whether a peer that has seen `index` messages writes the next one. The
/// initiator writes the messages of even index.
pub open spec fn xx_write_turn(initiator: bool, index: nat) -> bool {
    (index % 2 == 0) == initiator
}

/// A Noise handshake state on the XX pattern, with a static key, no prologue
/// and no pre-shared key.
#[verifier::external_body]
pub struct Engine {
    inner: HandshakeState<X25519, ChaCha20Poly1305, Blake2s>,
}

/// One direction of an established channel: a cipher key and the counter of
/// the frames that passed.
#[verifier::external_body]
pub struct CipherStream {
    inner: CipherState<ChaCha20Poly1305>,
}

#[verifier::external_type_specification]
#[verifier::external_body]
pub struct ExNoiseError(noise_protocol::Error);

/// Whether the engine was made for the initiator: what
/// `HandshakeState::get_is_initiator` answers.
pub uninterp spec fn engine_initiator(engine: Engine) -> bool;

/// Number of handshake messages that the engine has written or read: the
/// count by which `HandshakeState::is_write_turn`, `get_next_message_overhead`
/// and `completed` go.
pub uninterp spec fn engine_messages(engine: Engine) -> nat;

/// The engine that `HandshakeState::new` makes on the XX pattern for the
/// side `initiator` with the static key `static_key`, an empty prologue and
/// nothing else. Nothing random goes into it.
pub uninterp spec fn engine_fresh(initiator: bool, static_key: Seq<u8>) -> Engine;

/// The message that `HandshakeState::write_message` makes of `payload` when
/// it takes the engine from `before` to `after`. The engine may draw an
/// ephemeral key when it writes; the engine after the write holds that key,
/// so the two engines and the payload fix the message.
pub uninterp spec fn engine_message(before: Engine, after: Engine, payload: Seq<u8>) -> Seq<u8>;

/// The engine as `HandshakeState::read_message` leaves it when `engine` has
/// read `message`, whether it accepted the message or not.
pub uninterp spec fn engine_after_read(engine: Engine, message: Seq<u8>) -> Engine;

/// The payload that `HandshakeState::read_message` finds when `engine` reads
/// `message`, if the engine accepts the message. The engine draws nothing at
/// random when it reads.
pub uninterp spec fn engine_opened(engine: Engine, message: Seq<u8>) -> Option<Seq<u8>>;

/// The peer's static public key as the engine knows it: what
/// `HandshakeState::get_rs` answers.
pub uninterp spec fn engine_remote_key(engine: Engine) -> Option<Seq<u8>>;

/// The keys of the two cipher streams that `HandshakeState::get_ciphers`
/// splits off the engine: first the one for the traffic from initiator to
/// responder, then the one for the traffic from responder to initiator.
pub uninterp spec fn engine_stream_keys(engine: Engine) -> (Seq<u8>, Seq<u8>);

/// Key of a cipher stream: the first part of what `CipherState::extract`
/// gives.
pub uninterp spec fn cipher_key(stream: CipherStream) -> Seq<u8>;

/// Nonce that a cipher stream uses for its next frame: what
/// `CipherState::get_next_n` answers.
pub uninterp spec fn cipher_counter(stream: CipherStream) -> nat;

/// The public half of the X25519 private key `private`: what `X25519::pubkey`
/// answers.
pub uninterp spec fn x25519_public_key(private: Seq<u8>) -> Seq<u8>;

/// The frame that ChaCha20-Poly1305 makes of `plaintext` under `key` and the
/// nonce `counter`, with no associated data: the ciphertext and its tag, as
/// `CipherState::encrypt_in_place` writes them.
pub uninterp spec fn aead_seal(key: Seq<u8>, counter: nat, plaintext: Seq<u8>) -> Seq<u8>;

/// The plaintext of `frame` under `key` and the nonce `counter`, if the tag
/// at the frame's end authenticates it, as `CipherState::decrypt_in_place`
/// finds it.
pub uninterp spec fn aead_open(key: Seq<u8>, counter: nat, frame: Seq<u8>) -> Option<Seq<u8>>;

/// `X25519::genkey`, as bytes. Nothing is said of the bytes: they are
/// random. The call does not return where the system has no random source.
#[verifier::external_body]
pub(crate) fn fresh_transport_key() -> (private: [u8; 32]) {
    *X25519::genkey()
}

/// `X25519::pubkey`. The public key depends on the private key alone.
#[verifier::external_body]
pub(crate) fn transport_public_key(private: &[u8; 32]) -> (public: [u8; 32])
    ensures
        public@ == x25519_public_key(private@),
{
    X25519::pubkey(&U8Array::from_slice(private))
}

/// `HandshakeState::new` on the XX pattern with the static key `static_key`,
/// an empty prologue and nothing else. The engine depends on its two
/// arguments alone and starts before the first message.
#[verifier::external_body]
pub(crate) fn engine_new(initiator: bool, static_key: &[u8; 32]) -> (engine: Engine)
    ensures
        engine == engine_fresh(initiator, static_key@),
        engine_initiator(engine) == initiator,
        engine_messages(engine) == 0,
{
    Engine {
        inner: HandshakeState::new(
            noise_protocol::patterns::noise_xx(),
            initiator,
            [],
            Some(U8Array::from_slice(static_key)),
            None,
            None,
            None,
        ),
    }
}

/// `HandshakeState::write_message` into a new vector of `length` bytes. The
/// engine panics when it is not its turn, when the handshake is over and
/// when `length` is not the payload's length plus the message's overhead:
/// `requires` leaves these out. It does not fail: a write fails only on a
/// pre-shared key that is missing, and the pattern has none, or on a key
/// exchange that is refused, and X25519 refuses none. It moves on by one
/// message. The message depends on the engine before, the payload and the
/// engine after, which holds the ephemeral key that the engine may have
/// drawn at random. The first message carries its payload in the clear
/// behind the 32 bytes of that key.
#[verifier::external_body]
pub(crate) fn engine_write(engine: &mut Engine, payload: &[u8], length: usize) -> (written: Result<
    Vec<u8>,
    noise_protocol::Error,
>)
    requires
        engine_messages(*old(engine)) < XX_MESSAGES,
        xx_write_turn(engine_initiator(*old(engine)), engine_messages(*old(engine))),
        length == payload@.len() + xx_overhead(engine_messages(*old(engine))),
    ensures
        engine_initiator(*final(engine)) == engine_initiator(*old(engine)),
        engine_messages(*final(engine)) == engine_messages(*old(engine)) + 1,
        written is Ok,
        written matches Ok(message) ==> message@.len() == length,
        written matches Ok(message) ==> message@ == engine_message(
            *old(engine),
            *final(engine),
            payload@,
        ),
        written matches Ok(message) ==> (engine_messages(*old(engine)) == 0 ==> message@.subrange(
            32,
            length as int,
        ) == payload@),
{
    let mut message = vec![0u8; length];
    match engine.inner.write_message(payload, &mut message) {
        Ok(()) => Ok(message),
        Err(error) => Err(error),
    }
}

/// `HandshakeState::read_message` into a new vector of `length` bytes. The
/// engine panics when it is its turn to write, when the handshake is over
/// and when the message is not `length` bytes plus its overhead long:
/// `requires` leaves these out. Whether it accepts the message, the
/// payload it then finds and the engine it leaves depend on the engine and
/// the message alone. Whatever it answers, it has moved on by one message.
/// The first message carries no key material but a public key, so the
/// engine accepts every first message and finds as payload what stands
/// behind the first 32 bytes. Where it accepts the second or the third
/// message, it has read the peer's static key from it.
#[verifier::external_body]
pub(crate) fn engine_read(engine: &mut Engine, message: &[u8], length: usize) -> (read: Result<
    Vec<u8>,
    noise_protocol::Error,
>)
    requires
        engine_messages(*old(engine)) < XX_MESSAGES,
        !xx_write_turn(engine_initiator(*old(engine)), engine_messages(*old(engine))),
        message@.len() == length + xx_overhead(engine_messages(*old(engine))),
    ensures
        engine_initiator(*final(engine)) == engine_initiator(*old(engine)),
        engine_messages(*final(engine)) == engine_messages(*old(engine)) + 1,
        *final(engine) == engine_after_read(*old(engine), message@),
        read is Ok <==> engine_opened(*old(engine), message@) is Some,
        engine_messages(*old(engine)) == 0 ==> read is Ok,
        read matches Ok(payload) ==> (engine_messages(*old(engine)) == 0 ==> payload@
            == message@.subrange(32, message@.len() as int)),
        read matches Ok(payload) ==> engine_opened(*old(engine), message@) == Some(payload@),
        read matches Ok(payload) ==> payload@.len() == length,
        read is Ok && engine_messages(*old(engine)) >= 1 ==> engine_remote_key(*final(engine))
            is Some,
{
    let mut payload = vec![0u8; length];
    match engine.inner.read_message(message, &mut payload) {
        Ok(()) => Ok(payload),
        Err(error) => Err(error),
    }
}

/// `HandshakeState::get_rs`: the peer's static public key, if the engine has
/// read it.
#[verifier::external_body]
pub(crate) fn engine_remote_static(engine: &Engine) -> (remote: Option<[u8; 32]>)
    ensures
        match remote {
            Some(key) => engine_remote_key(*engine) == Some(key@),
            None => engine_remote_key(*engine) is None,
        },
{
    engine.inner.get_rs()
}

/// `HandshakeState::get_ciphers` of an engine that is through all messages:
/// first the stream from initiator to responder, then the one from responder
/// to initiator. Their keys depend on the engine alone, and both start at
/// nonce 0.
#[verifier::external_body]
pub(crate) fn engine_ciphers(engine: &Engine) -> (streams: (CipherStream, CipherStream))
    requires
        engine_messages(*engine) == XX_MESSAGES,
    ensures
        cipher_key(streams.0) == engine_stream_keys(*engine).0,
        cipher_key(streams.1) == engine_stream_keys(*engine).1,
        cipher_counter(streams.0) == 0,
        cipher_counter(streams.1) == 0,
{
    let (first, second) = engine.inner.get_ciphers();
    (CipherStream { inner: first }, CipherStream { inner: second })
}

/// `CipherState::get_next_n`.
#[verifier::external_body]
pub(crate) fn cipher_next_counter(stream: &CipherStream) -> (counter: u64)
    ensures
        counter == cipher_counter(*stream),
{
    stream.inner.get_next_n()
}

/// `CipherState::encrypt_in_place` on the head of `buffer`. It panics when
/// the frame does not fit and when the nonce is used up: `requires` leaves
/// these out. The first `length` bytes become the frame of `length + 16`
/// bytes, the rest of the buffer stays, and the stream moves to the next
/// nonce. The frame opens again, under the key and the nonce that made it,
/// to the plaintext.
#[verifier::external_body]
pub(crate) fn cipher_seal(
    stream: &mut CipherStream,
    buffer: &mut Vec<u8>,
    length: usize,
) -> (sealed: usize)
    requires
        length + 16 <= old(buffer)@.len(),
        cipher_counter(*old(stream)) < u64::MAX,
    ensures
        sealed == length + 16,
        cipher_key(*final(stream)) == cipher_key(*old(stream)),
        cipher_counter(*final(stream)) == cipher_counter(*old(stream)) + 1,
        final(buffer)@ == with_field(
            old(buffer)@,
            0,
            aead_seal(
                cipher_key(*old(stream)),
                cipher_counter(*old(stream)),
                field(old(buffer)@, 0, length as int),
            ),
        ),
        aead_seal(
            cipher_key(*old(stream)),
            cipher_counter(*old(stream)),
            field(old(buffer)@, 0, length as int),
        ).len() == sealed,
        aead_open(
            cipher_key(*old(stream)),
            cipher_counter(*old(stream)),
            field(final(buffer)@, 0, sealed as int),
        ) == Some(field(old(buffer)@, 0, length as int)),
{
    stream.inner.encrypt_in_place(buffer.as_mut_slice(), length)
}

/// `CipherState::decrypt_in_place` on the head of `buffer`. It panics when
/// the frame is shorter than a tag or longer than the buffer and when the
/// nonce is used up: `requires` leaves these out. Where the tag
/// authenticates the frame, the plaintext of `length - 16` bytes replaces
/// the head of the buffer and the stream moves to the next nonce. Where it
/// does not, buffer and stream stay as they were.
#[verifier::external_body]
pub(crate) fn cipher_open(
    stream: &mut CipherStream,
    buffer: &mut Vec<u8>,
    length: usize,
) -> (opened: Result<usize, ()>)
    requires
        16 <= length <= old(buffer)@.len(),
        cipher_counter(*old(stream)) < u64::MAX,
    ensures
        cipher_key(*final(stream)) == cipher_key(*old(stream)),
        match aead_open(
            cipher_key(*old(stream)),
            cipher_counter(*old(stream)),
            field(old(buffer)@, 0, length as int),
        ) {
            Some(plaintext) => {
                &&& opened == Ok::<usize, ()>((length - 16) as usize)
                &&& plaintext.len() == length - 16
                &&& final(buffer)@ == with_field(old(buffer)@, 0, plaintext)
                &&& cipher_counter(*final(stream)) == cipher_counter(*old(stream)) + 1
            },
            None => {
                &&& opened is Err
                &&& final(buffer)@ == old(buffer)@
                &&& cipher_counter(*final(stream)) == cipher_counter(*old(stream))
            },
        },
{
    stream.inner.decrypt_in_place(buffer.as_mut_slice(), length)
}

} // verus!
