//! One session of the secure channel: handshake, then transport.
//!
//! A session is single-use. It starts uninitialized, goes through the three
//! messages of the handshake in the order its role prescribes, and ends in
//! transport, where it only encrypts and decrypts frames. A step that is
//! invoked out of order fails and changes nothing; a step that fails for any
//! other reason leaves the session failed for good, without an engine and
//! without cipher streams.

use vstd::prelude::*;
use crate::engine::{
    aead_open, aead_seal, cipher_counter, cipher_key, cipher_next_counter, cipher_open,
    cipher_seal, engine_after_read, engine_ciphers, engine_fresh, engine_initiator,
    engine_message, engine_messages, engine_new, engine_opened, engine_read, engine_remote_key,
    engine_remote_static, engine_stream_keys, engine_write, fresh_transport_key,
    transport_public_key, x25519_public_key, CipherStream, Engine,
};
use crate::error::SessionError;
use crate::identity::{
    binding_check, ed25519_key_decodes, ed25519_public_key, ed25519_signature,
    fresh_signing_key, identity_of, sign_binding, verify_binding,
};
use crate::layout::{
    disjoint, fetch, field, lemma_with_field_keeps, lemma_with_field_reads_back, read_field,
    store, with_field, write_field, zeroed, Field, ACK_LENGTH, ACK_OFFSET, ACK_PAYLOAD_LENGTH,
    BUFFER_SIZE, INITIATOR_SIGNATURE_OFFSET, INITIATOR_VERIFYING_KEY_OFFSET,
    PRIVATE_CRYPT_KEY_LENGTH, PRIVATE_CRYPT_KEY_OFFSET, PUBLIC_CRYPT_KEY_LENGTH,
    PUBLIC_CRYPT_KEY_OFFSET, RESPONDER_SIGNATURE_OFFSET, RESPONDER_VERIFYING_KEY_OFFSET,
    SIGNATURE_LENGTH, SIGNING_KEY_LENGTH, SIGNING_KEY_OFFSET, SYNACK_LENGTH, SYNACK_OFFSET,
    SYNACK_PAYLOAD_LENGTH, SYNACK_PAYLOAD_OFFSET, SYN_LENGTH, SYN_OFFSET, SYN_OVERHEAD,
    SYN_PAYLOAD_LENGTH, SYN_PAYLOAD_OFFSET, TAG_LENGTH, VERIFYING_KEY_LENGTH,
};

verus! {

/// Side of the handshake that a session plays.
#[derive(Clone, Copy, Debug, PartialEq, Eq, Structural)]
pub enum Role {
    Initiator,
    Responder,
}

/// How far a session has come.
#[derive(Clone, Copy, Debug, PartialEq, Eq, Structural)]
pub enum Phase {
    /// No handshake step was taken.
    Uninitialized,
    /// The initiator wrote SYN.
    SynSent,
    /// The responder read SYN.
    SynReceived,
    /// The responder wrote SYNACK.
    SynAckSent,
    /// The initiator read SYNACK and checked the responder's identity.
    SynAckReceived,
    /// The handshake is over; the session encrypts and decrypts frames.
    Complete,
    /// A step failed; the session has to be discarded.
    Failed,
}

/// What is known of a cipher stream: its key and the nonce of its next
/// frame.
pub struct StreamView {
    pub key: Seq<u8>,
    pub counter: nat,
}

/// What is known of a session.
pub struct SessionView {
    /// The shared buffer.
    pub buffer: Seq<u8>,
    pub phase: Phase,
    /// Set by the first handshake step and never changed after.
    pub role: Option<Role>,
    /// Whether the session holds a handshake engine.
    pub handshaking: bool,
    /// A record of the engine as it last stood, for the contracts to speak
    /// of: the one the session holds while it shakes hands; after that,
    /// when the session holds none any more, the one its streams were split
    /// off or the one that refused a message.
    pub last_engine: Option<Engine>,
    /// The stream that encrypts, once the handshake is over.
    pub send: Option<StreamView>,
    /// The stream that decrypts, once the handshake is over.
    pub recv: Option<StreamView>,
    /// The peer's transport key as the engine revealed it.
    pub remote_static: Option<Seq<u8>>,
    /// The peer's verifying key, once its signature over the peer's
    /// transport key was checked.
    pub remote_identity: Option<Seq<u8>>,
}

/// The offset of the verifying key that `role` owns.
pub open spec fn spec_verifying_key_offset(role: Role) -> int {
    match role {
        Role::Initiator => INITIATOR_VERIFYING_KEY_OFFSET as int,
        Role::Responder => RESPONDER_VERIFYING_KEY_OFFSET as int,
    }
}

/// The offset of the signature that `role` makes.
pub open spec fn spec_signature_offset(role: Role) -> int {
    match role {
        Role::Initiator => INITIATOR_SIGNATURE_OFFSET as int,
        Role::Responder => RESPONDER_SIGNATURE_OFFSET as int,
    }
}

/// The phase that follows `phase` for `role` when a step succeeds.
pub open spec fn successor(phase: Phase, role: Role) -> Option<Phase> {
    match (phase, role) {
        (Phase::Uninitialized, Role::Initiator) => Some(Phase::SynSent),
        (Phase::Uninitialized, Role::Responder) => Some(Phase::SynReceived),
        (Phase::SynSent, Role::Initiator) => Some(Phase::SynAckReceived),
        (Phase::SynReceived, Role::Responder) => Some(Phase::SynAckSent),
        (Phase::SynAckReceived, Role::Initiator) => Some(Phase::Complete),
        (Phase::SynAckSent, Role::Responder) => Some(Phase::Complete),
        _ => None,
    }
}

/// Whether a session may go from `before` to `after` in one operation: it
/// stays where it is, or it takes the one step that its role allows, or it
/// fails while it is still shaking hands. The role, once set, stays.
pub open spec fn progresses(before: SessionView, after: SessionView) -> bool {
    &&& before.role is Some ==> after.role == before.role
    &&& {
        ||| after.phase == before.phase
        ||| after.phase == Phase::Failed && before.phase != Phase::Complete
        ||| after.role matches Some(role) && successor(before.phase, role) == Some(after.phase)
    }
}

/// `buffer` after a session with the signing key `secret` was given its
/// identity for `role`.
pub open spec fn with_identity(buffer: Seq<u8>, role: Role, secret: Seq<u8>) -> Seq<u8> {
    with_field(
        with_field(buffer, SIGNING_KEY_OFFSET as int, secret),
        spec_verifying_key_offset(role),
        ed25519_public_key(secret),
    )
}

/// Contract of the key generation for `role`: the signing key and the
/// verifying key of `role` are replaced by a pair that belongs together,
/// and nothing else changes.
pub open spec fn identity_generated(before: SessionView, after: SessionView, role: Role) -> bool {
    &&& identity_matches(after.buffer, role)
    &&& after == (SessionView {
        buffer: with_identity(
            before.buffer,
            role,
            field(after.buffer, SIGNING_KEY_OFFSET as int, SIGNING_KEY_LENGTH as int),
        ),
        ..before
    })
}

/// `buffer` after the transport key pair of `private` was written to it.
pub open spec fn with_transport_keys(buffer: Seq<u8>, private: Seq<u8>) -> Seq<u8> {
    with_field(
        with_field(buffer, PRIVATE_CRYPT_KEY_OFFSET as int, private),
        PUBLIC_CRYPT_KEY_OFFSET as int,
        x25519_public_key(private),
    )
}

/// `buffer` after the transport key pair of `private` was written to it
/// together with the signature of the buffer's signing key over the public
/// half, which `role` sends in its payload.
pub open spec fn with_binding(buffer: Seq<u8>, role: Role, private: Seq<u8>) -> Seq<u8> {
    with_field(
        with_transport_keys(buffer, private),
        spec_signature_offset(role),
        ed25519_signature(
            field(buffer, SIGNING_KEY_OFFSET as int, SIGNING_KEY_LENGTH as int),
            x25519_public_key(private),
        ),
    )
}

/// Whether the verifying key that `buffer` holds for `role` is the one of
/// the signing key that it holds.
pub open spec fn identity_matches(buffer: Seq<u8>, role: Role) -> bool {
    field(buffer, spec_verifying_key_offset(role), VERIFYING_KEY_LENGTH as int)
        == ed25519_public_key(field(buffer, SIGNING_KEY_OFFSET as int, SIGNING_KEY_LENGTH as int))
}

/// Whether the verifying key and the signature that `buffer` holds for
/// `role` pass the binding check against the transport public key that it
/// holds: whether a peer that is shown these three will accept them.
pub open spec fn binding_in_place(buffer: Seq<u8>, role: Role) -> bool {
    binding_check(
        field(buffer, PUBLIC_CRYPT_KEY_OFFSET as int, PUBLIC_CRYPT_KEY_LENGTH as int),
        field(buffer, spec_verifying_key_offset(role), VERIFYING_KEY_LENGTH as int),
        field(buffer, spec_signature_offset(role), SIGNATURE_LENGTH as int),
    ) is Ok
}

/// Whether some signature binds `identity` to `transport_key`.
pub open spec fn bound(identity: Seq<u8>, transport_key: Seq<u8>) -> bool {
    exists|signature: Seq<u8>| #[trigger] binding_check(transport_key, identity, signature) is Ok
}

/// What is known of a stream that a session may hold.
pub open spec fn stream_view(stream: Option<CipherStream>) -> Option<StreamView> {
    match stream {
        Some(s) => Some(StreamView { key: cipher_key(s), counter: cipher_counter(s) }),
        None => None,
    }
}

/// The bytes of a key that a session may hold.
pub open spec fn key_view(key: Option<[u8; 32]>) -> Option<Seq<u8>> {
    match key {
        Some(k) => Some(k@),
        None => None,
    }
}

/// What a step answers when it is invoked out of order: it fails, and the
/// session stays exactly as it was.
pub open spec fn refused(
    before: SessionView,
    after: SessionView,
    outcome: Result<(), SessionError>,
) -> bool {
    outcome == Err::<(), SessionError>(SessionError::PreconditionViolation) && after == before
}

/// Whether the engine of `view` is one of `role` that is through `messages`
/// messages.
pub open spec fn engine_stands(view: SessionView, role: Role, messages: nat) -> bool {
    &&& view.last_engine matches Some(engine)
    &&& engine_initiator(engine) == (role == Role::Initiator)
    &&& engine_messages(engine) == messages
}

/// Whether a session is one that shakes hands as `role` in `phase`: it
/// holds an engine and nothing of the transport.
pub open spec fn shaking_hands(view: SessionView, role: Role, phase: Phase) -> bool {
    &&& view.phase == phase
    &&& view.role == Some(role)
    &&& view.handshaking
    &&& view.send is None
    &&& view.recv is None
}

/// Whether a session is one that has failed as `role`: it holds neither an
/// engine nor cipher streams.
pub open spec fn failed(view: SessionView, role: Role) -> bool {
    &&& view.phase == Phase::Failed
    &&& view.role == Some(role)
    &&& !view.handshaking
    &&& view.send is None
    &&& view.recv is None
}

/// Whether `buffer` is `before` with the transport key pair of `private` and
/// the signature that `role` sends: 32 bytes of private key, 32 bytes of
/// public key and 64 bytes of signature, each in its field, and every other
/// byte as it was.
pub open spec fn keys_written(
    before: Seq<u8>,
    buffer: Seq<u8>,
    role: Role,
    private: Seq<u8>,
) -> bool {
    let public = x25519_public_key(private);
    let secret = field(before, SIGNING_KEY_OFFSET as int, SIGNING_KEY_LENGTH as int);
    &&& public.len() == PUBLIC_CRYPT_KEY_LENGTH
    &&& ed25519_signature(secret, public).len() == SIGNATURE_LENGTH
    &&& buffer == with_binding(before, role, private)
    &&& Field::PrivateCryptKey.of(buffer) == private
    &&& Field::PublicCryptKey.of(buffer) == public
    &&& identity_matches(before, role) ==> binding_in_place(buffer, role)
}

/// Contract of the initiator's first step, with `private` the transport key
/// it uses. The step is open to an uninitialized session alone, and there
/// it succeeds. It writes the transport key pair and the initiator's
/// signature over the public half; where the buffer held the initiator's
/// own verifying key, the three pass the binding check. Then the SYN
/// message of `SYN_LENGTH` bytes, which a fresh engine with that transport
/// key makes of the SYN payload, is written to its field, and nothing else
/// changes. The message carries the SYN payload in the clear behind the
/// engine's ephemeral key.
pub open spec fn syn_written(
    before: SessionView,
    after: SessionView,
    private: Seq<u8>,
    outcome: Result<(), SessionError>,
) -> bool {
    if before.phase != Phase::Uninitialized {
        refused(before, after, outcome)
    } else {
        let keyed = with_binding(before.buffer, Role::Initiator, private);
        &&& outcome is Ok
        &&& keys_written(before.buffer, keyed, Role::Initiator, private)
        &&& after.buffer == with_field(keyed, SYN_OFFSET as int, Field::Syn.of(after.buffer))
        &&& after.last_engine matches Some(engine)
        &&& Field::Syn.of(after.buffer) == engine_message(
            engine_fresh(true, private),
            engine,
            Field::SynPayload.of(after.buffer),
        )
        &&& Field::Syn.of(after.buffer).subrange(SYN_OVERHEAD as int, SYN_LENGTH as int)
            == Field::SynPayload.of(after.buffer)
        &&& Field::PrivateCryptKey.of(after.buffer) == private
        &&& Field::PublicCryptKey.of(after.buffer) == x25519_public_key(private)
        &&& identity_matches(before.buffer, Role::Initiator) ==> binding_in_place(
            after.buffer,
            Role::Initiator,
        )
        &&& shaking_hands(after, Role::Initiator, Phase::SynSent)
        &&& engine_stands(after, Role::Initiator, 1)
        &&& after.remote_static is None
        &&& after.remote_identity is None
    }
}

/// Contract of the responder's first step, with `private` the transport key
/// it uses. The step is open to an uninitialized session alone, and there
/// it succeeds. It writes the transport key pair and the responder's
/// signature over the public half, which waits in the SYNACK payload for
/// the next step; where the buffer held the responder's own verifying key,
/// the three pass the binding check. Then a fresh engine with that
/// transport key reads the SYN message as it stands in its field. The
/// first message carries its payload in the clear, so the engine accepts
/// it and finds what stands behind the first 32 bytes; this payload is
/// written to its field, nothing else changes, and the session holds the
/// engine as the read has left it.
pub open spec fn syn_read(
    before: SessionView,
    after: SessionView,
    private: Seq<u8>,
    outcome: Result<(), SessionError>,
) -> bool {
    if before.phase != Phase::Uninitialized {
        refused(before, after, outcome)
    } else {
        let keyed = with_binding(before.buffer, Role::Responder, private);
        let message = Field::Syn.of(before.buffer);
        let payload = message.subrange(SYN_OVERHEAD as int, SYN_LENGTH as int);
        &&& outcome is Ok
        &&& keys_written(before.buffer, keyed, Role::Responder, private)
        &&& Field::PrivateCryptKey.of(after.buffer) == private
        &&& Field::PublicCryptKey.of(after.buffer) == x25519_public_key(private)
        &&& identity_matches(before.buffer, Role::Responder) ==> binding_in_place(
            after.buffer,
            Role::Responder,
        )
        &&& engine_opened(engine_fresh(false, private), message) == Some(payload)
        &&& after.last_engine == Some(engine_after_read(engine_fresh(false, private), message))
        &&& engine_stands(after, Role::Responder, 1)
        &&& shaking_hands(after, Role::Responder, Phase::SynReceived)
        &&& after.buffer == with_field(keyed, SYN_PAYLOAD_OFFSET as int, payload)
        &&& Field::SynPayload.of(after.buffer) == payload
        &&& after.remote_static is None
        &&& after.remote_identity is None
    }
}

/// Contract of the responder's second step. The step is open to a session
/// that has read SYN and to no other, and there it succeeds: the SYNACK
/// message of `SYNACK_LENGTH` bytes, which the engine makes of the SYNACK
/// payload, is written to its field, the engine has moved on by one
/// message, and nothing else changes.
pub open spec fn synack_written(
    before: SessionView,
    after: SessionView,
    outcome: Result<(), SessionError>,
) -> bool {
    if before.phase != Phase::SynReceived {
        refused(before, after, outcome)
    } else {
        &&& outcome is Ok
        &&& before.last_engine matches Some(engine_before)
        &&& after.last_engine matches Some(engine_after)
        &&& Field::Synack.of(after.buffer) == engine_message(
            engine_before,
            engine_after,
            Field::SynackPayload.of(before.buffer),
        )
        &&& engine_stands(after, Role::Responder, 2)
        &&& after == (SessionView {
            phase: Phase::SynAckSent,
            last_engine: after.last_engine,
            buffer: with_field(before.buffer, SYNACK_OFFSET as int, Field::Synack.of(after.buffer)),
            ..before
        })
    }
}

/// What a session knows of its peer after the binding check of `identity`
/// and `signature` against the transport key that its engine has read: the
/// key in any case, the identity where the check passed.
pub open spec fn peer_checked(
    after: SessionView,
    identity: Seq<u8>,
    signature: Seq<u8>,
    outcome: Result<(), SessionError>,
) -> bool {
    &&& after.last_engine matches Some(engine)
    &&& engine_remote_key(engine) matches Some(transport_key)
    &&& after.remote_static == Some(transport_key)
    &&& outcome == binding_check(transport_key, identity, signature)
    &&& after.remote_identity == if outcome is Ok {
        Some(identity)
    } else {
        None::<Seq<u8>>
    }
}

/// Contract of the initiator's second step. The step is open to a session
/// that has written SYN and to no other. Its engine reads the SYNACK
/// message as it stands in its field. Where the engine refuses it, the
/// session has failed and the buffer is as it was. Else the payload that
/// the engine finds is written to its field and nothing else changes in
/// the buffer, and the step answers as the binding check of the
/// responder's verifying key and signature, as they stand in the payload,
/// against the transport key that the engine has read: the session goes on
/// where the check passes and has failed where it does not.
pub open spec fn synack_read(
    before: SessionView,
    after: SessionView,
    outcome: Result<(), SessionError>,
) -> bool {
    if before.phase != Phase::SynSent {
        refused(before, after, outcome)
    } else {
        &&& before.last_engine matches Some(engine)
        &&& after.last_engine == Some(
            engine_after_read(engine, Field::Synack.of(before.buffer)),
        )
        &&& engine_stands(after, Role::Initiator, 2)
        &&& match engine_opened(engine, Field::Synack.of(before.buffer)) {
            None => {
                &&& outcome == Err::<(), SessionError>(SessionError::EngineRejection)
                &&& failed(after, Role::Initiator)
                &&& after.buffer == before.buffer
                &&& after.remote_static is None
                &&& after.remote_identity is None
            },
            Some(payload) => {
                &&& after.buffer == with_field(
                    before.buffer,
                    SYNACK_PAYLOAD_OFFSET as int,
                    payload,
                )
                &&& Field::SynackPayload.of(after.buffer) == payload
                &&& peer_checked(
                    after,
                    Field::ResponderVerifyingKey.of(after.buffer),
                    Field::ResponderSignature.of(after.buffer),
                    outcome,
                )
                &&& if outcome is Ok {
                    shaking_hands(after, Role::Initiator, Phase::SynAckReceived)
                } else {
                    failed(after, Role::Initiator)
                }
            },
        }
    }
}

/// The key of the stream on which `role` sends, of the two keys that the
/// engine gives: the initiator sends on the first and the responder on the
/// second.
pub open spec fn send_key(role: Role, keys: (Seq<u8>, Seq<u8>)) -> Seq<u8> {
    match role {
        Role::Initiator => keys.0,
        Role::Responder => keys.1,
    }
}

/// The key of the stream on which `role` receives: the one on which the
/// other side sends.
pub open spec fn recv_key(role: Role, keys: (Seq<u8>, Seq<u8>)) -> Seq<u8> {
    match role {
        Role::Initiator => keys.1,
        Role::Responder => keys.0,
    }
}

/// Whether `after` is a session that has just completed its handshake as
/// `role`: it holds no engine any more, and of the two streams that were
/// split off the engine as it stood after the third message it sends on
/// the one and receives on the other that its role assigns, both at nonce
/// 0.
pub open spec fn transport_opened(after: SessionView, role: Role) -> bool {
    &&& after.phase == Phase::Complete
    &&& after.role == Some(role)
    &&& !after.handshaking
    &&& engine_stands(after, role, 3)
    &&& after.last_engine matches Some(engine)
    &&& after.send == Some(
        StreamView { key: send_key(role, engine_stream_keys(engine)), counter: 0 },
    )
    &&& after.recv == Some(
        StreamView { key: recv_key(role, engine_stream_keys(engine)), counter: 0 },
    )
}

/// Contract of the initiator's last step. The step is open to a session
/// that has read SYNACK and to no other, and there it succeeds: the ACK
/// message of `ACK_LENGTH` bytes, which the engine makes of the empty
/// payload, is written to its field, nothing else changes in the buffer,
/// and the session holds its two cipher streams in place of the engine.
pub open spec fn ack_written(
    before: SessionView,
    after: SessionView,
    outcome: Result<(), SessionError>,
) -> bool {
    if before.phase != Phase::SynAckReceived {
        refused(before, after, outcome)
    } else {
        &&& outcome is Ok
        &&& before.last_engine matches Some(engine_before)
        &&& after.last_engine matches Some(engine_after)
        &&& Field::Ack.of(after.buffer) == engine_message(
            engine_before,
            engine_after,
            Seq::<u8>::empty(),
        )
        &&& transport_opened(after, Role::Initiator)
        &&& after.remote_static == before.remote_static
        &&& after.remote_identity == before.remote_identity
        &&& after.buffer == with_field(
            before.buffer,
            ACK_OFFSET as int,
            Field::Ack.of(after.buffer),
        )
    }
}

/// Contract of the responder's last step. The step is open to a session
/// that has written SYNACK and to no other, and it never changes the
/// buffer: the ACK message carries no payload. Its engine reads the ACK
/// message as it stands in its field. Where the engine refuses it, the
/// session has failed. Else the step answers as the binding check of the
/// initiator's verifying key and signature, as they stand in the SYN
/// payload, against the transport key that the engine has read: where the
/// check passes the session holds its two cipher streams in place of the
/// engine, where it does not the session has failed.
pub open spec fn ack_read(
    before: SessionView,
    after: SessionView,
    outcome: Result<(), SessionError>,
) -> bool {
    if before.phase != Phase::SynAckSent {
        refused(before, after, outcome)
    } else {
        &&& before.last_engine matches Some(engine)
        &&& after.last_engine == Some(engine_after_read(engine, Field::Ack.of(before.buffer)))
        &&& after.buffer == before.buffer
        &&& engine_stands(after, Role::Responder, 3)
        &&& match engine_opened(engine, Field::Ack.of(before.buffer)) {
            None => {
                &&& outcome == Err::<(), SessionError>(SessionError::EngineRejection)
                &&& failed(after, Role::Responder)
                &&& after.remote_static is None
                &&& after.remote_identity is None
            },
            Some(_) => {
                &&& peer_checked(
                    after,
                    Field::InitiatorVerifyingKey.of(before.buffer),
                    Field::InitiatorSignature.of(before.buffer),
                    outcome,
                )
                &&& if outcome is Ok {
                    transport_opened(after, Role::Responder)
                } else {
                    failed(after, Role::Responder)
                }
            },
        }
    }
}

/// Contract of `encrypt`. A session without a send stream refuses. A
/// plaintext that leaves no room for its tag, and a stream whose nonces are
/// used up, are rejected. In both cases nothing changes. Else the first
/// `length` bytes of the buffer become the frame that the send stream makes
/// of them at its present nonce, `TAG_LENGTH` bytes longer; the rest of the
/// buffer stays, the stream moves on by one nonce, and the step answers the
/// frame's length. The frame opens again under the same key and nonce.
pub open spec fn encrypted(
    before: SessionView,
    after: SessionView,
    length: int,
    outcome: Result<usize, SessionError>,
) -> bool {
    match before.send {
        None => outcome == Err::<usize, SessionError>(SessionError::PreconditionViolation)
            && after == before,
        Some(stream) => if length + TAG_LENGTH > BUFFER_SIZE || stream.counter >= u64::MAX {
            outcome == Err::<usize, SessionError>(SessionError::EngineRejection) && after
                == before
        } else {
            let plaintext = field(before.buffer, 0, length);
            let frame = aead_seal(stream.key, stream.counter, plaintext);
            &&& outcome == Ok::<usize, SessionError>((length + TAG_LENGTH) as usize)
            &&& frame.len() == length + TAG_LENGTH
            &&& aead_open(stream.key, stream.counter, frame) == Some(plaintext)
            &&& after == (SessionView {
                buffer: with_field(before.buffer, 0, frame),
                send: Some(StreamView { key: stream.key, counter: stream.counter + 1 }),
                ..before
            })
        },
    }
}

/// Contract of `decrypt`. A session without a receive stream refuses. A
/// frame shorter than a tag or longer than the buffer, and a stream whose
/// nonces are used up, are rejected, and so is a frame that the receive
/// stream cannot authenticate at its present nonce. In all these cases
/// nothing changes. Else the plaintext, `TAG_LENGTH` bytes shorter than the
/// frame, replaces the head of the buffer; the rest of the buffer stays,
/// the stream moves on by one nonce, and the step answers the plaintext's
/// length.
pub open spec fn decrypted(
    before: SessionView,
    after: SessionView,
    length: int,
    outcome: Result<usize, SessionError>,
) -> bool {
    match before.recv {
        None => outcome == Err::<usize, SessionError>(SessionError::PreconditionViolation)
            && after == before,
        Some(stream) => if length < TAG_LENGTH || length > BUFFER_SIZE || stream.counter
            >= u64::MAX {
            outcome == Err::<usize, SessionError>(SessionError::EngineRejection) && after
                == before
        } else {
            match aead_open(stream.key, stream.counter, field(before.buffer, 0, length)) {
                None => outcome == Err::<usize, SessionError>(SessionError::EngineRejection)
                    && after == before,
                Some(plaintext) => {
                    &&& outcome == Ok::<usize, SessionError>((length - TAG_LENGTH) as usize)
                    &&& plaintext.len() == length - TAG_LENGTH
                    &&& after == (SessionView {
                        buffer: with_field(before.buffer, 0, plaintext),
                        recv: Some(StreamView { key: stream.key, counter: stream.counter + 1 }),
                        ..before
                    })
                },
            }
        },
    }
}

/// Copies 32 bytes into a key.
fn to_key(bytes: &Vec<u8>) -> (key: [u8; 32])
    requires
        bytes@.len() == 32,
    ensures
        key@ == bytes@,
{
    let mut key: [u8; 32] = [0u8; 32];
    let mut i: usize = 0;
    while i < 32
        invariant
            i <= 32,
            bytes@.len() == 32,
            forall|j: int| 0 <= j < i ==> key@[j] == bytes@[j],
        decreases 32 - i,
    {
        key[i] = bytes[i];
        i = i + 1;
    }
    assert(key@ =~= bytes@);
    key
}

/// A write that touches neither the transport public key nor the verifying
/// key and the signature of `role` leaves their binding as it was.
proof fn lemma_binding_kept(buffer: Seq<u8>, offset: int, data: Seq<u8>, role: Role)
    requires
        buffer.len() == BUFFER_SIZE,
        0 <= offset,
        offset + data.len() <= BUFFER_SIZE,
        disjoint(
            offset,
            data.len() as int,
            PUBLIC_CRYPT_KEY_OFFSET as int,
            PUBLIC_CRYPT_KEY_LENGTH as int,
        ),
        disjoint(
            offset,
            data.len() as int,
            spec_verifying_key_offset(role),
            VERIFYING_KEY_LENGTH as int,
        ),
        disjoint(offset, data.len() as int, spec_signature_offset(role), SIGNATURE_LENGTH as int),
    ensures
        binding_in_place(with_field(buffer, offset, data), role) == binding_in_place(buffer, role),
{
    lemma_with_field_keeps(
        buffer,
        offset,
        data,
        PUBLIC_CRYPT_KEY_OFFSET as int,
        PUBLIC_CRYPT_KEY_LENGTH as int,
    );
    lemma_with_field_keeps(
        buffer,
        offset,
        data,
        spec_verifying_key_offset(role),
        VERIFYING_KEY_LENGTH as int,
    );
    lemma_with_field_keeps(
        buffer,
        offset,
        data,
        spec_signature_offset(role),
        SIGNATURE_LENGTH as int,
    );
}

/// Writes the transport key pair of `private` and the signature of the
/// buffer's signing key over its public half, for `role` to send.
fn write_binding(buffer: &mut Vec<u8>, role: Role, private: &[u8; 32])
    requires
        old(buffer)@.len() == BUFFER_SIZE,
    ensures
        final(buffer)@ == with_binding(old(buffer)@, role, private@),
        final(buffer)@.len() == BUFFER_SIZE,
        keys_written(old(buffer)@, final(buffer)@, role, private@),
        forall|i: int|
            PUBLIC_CRYPT_KEY_OFFSET + PUBLIC_CRYPT_KEY_LENGTH <= i < BUFFER_SIZE && !(
            spec_signature_offset(role) <= i < spec_signature_offset(role) + SIGNATURE_LENGTH)
                ==> final(buffer)@[i] == old(buffer)@[i],
{
    let public = transport_public_key(private);
    write_field(buffer, PRIVATE_CRYPT_KEY_OFFSET, private.as_slice());
    let ghost first = buffer@;
    write_field(buffer, PUBLIC_CRYPT_KEY_OFFSET, public.as_slice());
    let ghost second = buffer@;
    proof {
        lemma_with_field_reads_back(old(buffer)@, PRIVATE_CRYPT_KEY_OFFSET as int, private@);
        lemma_with_field_reads_back(first, PUBLIC_CRYPT_KEY_OFFSET as int, public@);
        lemma_with_field_keeps(
            old(buffer)@,
            PRIVATE_CRYPT_KEY_OFFSET as int,
            private@,
            SIGNING_KEY_OFFSET as int,
            SIGNING_KEY_LENGTH as int,
        );
        lemma_with_field_keeps(
            first,
            PUBLIC_CRYPT_KEY_OFFSET as int,
            public@,
            SIGNING_KEY_OFFSET as int,
            SIGNING_KEY_LENGTH as int,
        );
        lemma_with_field_keeps(
            first,
            PUBLIC_CRYPT_KEY_OFFSET as int,
            public@,
            PRIVATE_CRYPT_KEY_OFFSET as int,
            PRIVATE_CRYPT_KEY_LENGTH as int,
        );
    }
    let secret = read_field(buffer, SIGNING_KEY_OFFSET, SIGNING_KEY_LENGTH);
    let signature = match sign_binding(secret.as_slice(), public.as_slice()) {
        Ok(signature) => signature,
        Err(_) => vstd::pervasive::unreached(),
    };
    let offset = match role {
        Role::Initiator => INITIATOR_SIGNATURE_OFFSET,
        Role::Responder => RESPONDER_SIGNATURE_OFFSET,
    };
    write_field(buffer, offset, signature.as_slice());
    proof {
        let identity = spec_verifying_key_offset(role);
        lemma_with_field_reads_back(second, offset as int, signature@);
        lemma_with_field_keeps(
            second,
            offset as int,
            signature@,
            PRIVATE_CRYPT_KEY_OFFSET as int,
            PRIVATE_CRYPT_KEY_LENGTH as int,
        );
        lemma_with_field_keeps(
            second,
            offset as int,
            signature@,
            PUBLIC_CRYPT_KEY_OFFSET as int,
            PUBLIC_CRYPT_KEY_LENGTH as int,
        );
        lemma_with_field_keeps(
            old(buffer)@,
            PRIVATE_CRYPT_KEY_OFFSET as int,
            private@,
            identity,
            VERIFYING_KEY_LENGTH as int,
        );
        lemma_with_field_keeps(
            first,
            PUBLIC_CRYPT_KEY_OFFSET as int,
            public@,
            identity,
            VERIFYING_KEY_LENGTH as int,
        );
        lemma_with_field_keeps(
            second,
            offset as int,
            signature@,
            identity,
            VERIFYING_KEY_LENGTH as int,
        );
    }
}

/// The state of one connection. The host makes one per connection and never
/// shares it.
pub struct Session {
    buffer: Vec<u8>,
    phase: Phase,
    role: Option<Role>,
    engine: Option<Engine>,
    last_engine: Ghost<Option<Engine>>,
    send: Option<CipherStream>,
    recv: Option<CipherStream>,
    remote_static: Option<[u8; 32]>,
    remote_identity: Option<[u8; 32]>,
}

impl View for Session {
    type V = SessionView;

    closed spec fn view(&self) -> SessionView {
        SessionView {
            buffer: self.buffer@,
            phase: self.phase,
            role: self.role,
            handshaking: self.engine is Some,
            last_engine: self.last_engine@,
            send: stream_view(self.send),
            recv: stream_view(self.recv),
            remote_static: key_view(self.remote_static),
            remote_identity: key_view(self.remote_identity),
        }
    }
}

/// Puts the two streams of an engine, the one to the responder and the one
/// to the initiator, in the order in which `role` uses them: first the one
/// it sends on, then the one it receives on.
pub fn assign_streams(
    role: Role,
    to_responder: CipherStream,
    to_initiator: CipherStream,
) -> (pair: (CipherStream, CipherStream))
    ensures
        pair == (match role {
            Role::Initiator => (to_responder, to_initiator),
            Role::Responder => (to_initiator, to_responder),
        }),
{
    match role {
        Role::Initiator => (to_responder, to_initiator),
        Role::Responder => (to_initiator, to_responder),
    }
}

impl Session {
    /// The invariant of a session: the buffer has its size, and phase, role,
    /// engine, streams and what is known of the peer agree.
    pub closed spec fn wf(&self) -> bool {
        &&& self.buffer@.len() == BUFFER_SIZE
        &&& (self.phase == Phase::Complete) == (self.send is Some)
        &&& (self.phase == Phase::Complete) == (self.recv is Some)
        &&& (self.engine is Some) == (self.phase == Phase::SynSent || self.phase
            == Phase::SynReceived || self.phase == Phase::SynAckSent || self.phase
            == Phase::SynAckReceived)
        &&& self.engine is Some ==> self.last_engine@ == self.engine
        &&& (self.phase == Phase::Uninitialized) == (self.role is None)
        &&& self.remote_identity matches Some(identity) ==> {
            &&& self.remote_static matches Some(transport_key)
            &&& bound(identity@, transport_key@)
        }
        &&& match self.phase {
            Phase::Uninitialized => {
                &&& self.last_engine@ is None
                &&& self.remote_static is None
                &&& self.remote_identity is None
            },
            Phase::SynSent => engine_stands(self@, Role::Initiator, 1) && self.role == Some(
                Role::Initiator,
            ) && self.remote_static is None,
            Phase::SynReceived => engine_stands(self@, Role::Responder, 1) && self.role == Some(
                Role::Responder,
            ) && self.remote_static is None,
            Phase::SynAckSent => engine_stands(self@, Role::Responder, 2) && self.role == Some(
                Role::Responder,
            ) && self.remote_static is None,
            Phase::SynAckReceived => engine_stands(self@, Role::Initiator, 2) && self.role
                == Some(Role::Initiator) && self.remote_identity is Some,
            Phase::Complete => {
                &&& self.role matches Some(role)
                &&& engine_stands(self@, role, 3)
                &&& self.last_engine@ matches Some(engine)
                &&& self.send matches Some(send)
                &&& self.recv matches Some(recv)
                &&& cipher_key(send) == send_key(role, engine_stream_keys(engine))
                &&& cipher_key(recv) == recv_key(role, engine_stream_keys(engine))
                &&& self.remote_identity is Some
            },
            Phase::Failed => true,
        }
    }

    /// A session holds a handshake engine exactly while it shakes hands and
    /// a pair of cipher streams exactly when its handshake is complete,
    /// never both; before its first step and after a failure it holds
    /// neither. While it shakes hands its engine is one of its role that is
    /// through as many messages as its phase tells. Once it has checked its
    /// peer it knows an identity that signed the peer's transport key. Once
    /// its handshake is complete it sends and receives on the streams of
    /// the engine that its role assigns.
    pub proof fn lemma_handshaking_or_transporting(&self)
        requires
            self.wf(),
        ensures
            self@.buffer.len() == BUFFER_SIZE,
            self@.send is Some <==> self@.recv is Some,
            self@.send is Some <==> self@.phase == Phase::Complete,
            !(self@.handshaking && self@.send is Some),
            self@.handshaking <==> self@.phase == Phase::SynSent || self@.phase
                == Phase::SynReceived || self@.phase == Phase::SynAckSent || self@.phase
                == Phase::SynAckReceived,
            self@.phase == Phase::Uninitialized <==> self@.role is None,
            self@.phase == Phase::Uninitialized ==> self@.last_engine is None,
            self@.phase == Phase::SynSent ==> engine_stands(self@, Role::Initiator, 1),
            self@.phase == Phase::SynReceived ==> engine_stands(self@, Role::Responder, 1),
            self@.phase == Phase::SynAckSent ==> engine_stands(self@, Role::Responder, 2),
            self@.phase == Phase::SynAckReceived ==> engine_stands(self@, Role::Initiator, 2),
            self@.phase == Phase::SynSent || self@.phase == Phase::SynAckReceived ==> self@.role
                == Some(Role::Initiator),
            self@.phase == Phase::SynReceived || self@.phase == Phase::SynAckSent ==> self@.role
                == Some(Role::Responder),
            self@.phase == Phase::Complete || self@.phase == Phase::SynAckReceived ==> {
                &&& self@.remote_identity matches Some(identity)
                &&& self@.remote_static matches Some(transport_key)
                &&& bound(identity, transport_key)
            },
            self@.phase == Phase::Complete ==> {
                &&& self@.role matches Some(role)
                &&& self@.last_engine matches Some(engine)
                &&& self@.send matches Some(send)
                &&& self@.recv matches Some(recv)
                &&& engine_stands(self@, role, 3)
                &&& send.key == send_key(role, engine_stream_keys(engine))
                &&& recv.key == recv_key(role, engine_stream_keys(engine))
            },
    {
    }

    /// A new session: a zeroed buffer and nothing else.
    pub fn new() -> (session: Session)
        ensures
            session.wf(),
            session@ == (SessionView {
                buffer: zeroed(),
                phase: Phase::Uninitialized,
                role: None,
                handshaking: false,
                last_engine: None,
                send: None,
                recv: None,
                remote_static: None,
                remote_identity: None,
            }),
    {
        let buffer: Vec<u8> = vec![0u8; BUFFER_SIZE];
        assert(buffer@ =~= zeroed());
        Session {
            buffer,
            phase: Phase::Uninitialized,
            role: None,
            engine: None,
            last_engine: Ghost(None),
            send: None,
            recv: None,
            remote_static: None,
            remote_identity: None,
        }
    }

    /// The shared buffer.
    pub fn buffer(&self) -> (bytes: &[u8])
        ensures
            bytes@ == self@.buffer,
    {
        self.buffer.as_slice()
    }

    /// How far the session has come.
    pub fn phase(&self) -> (phase: Phase)
        ensures
            phase == self@.phase,
    {
        self.phase
    }

    /// The side that the session plays, once its first step has told.
    pub fn role(&self) -> (role: Option<Role>)
        ensures
            role == self@.role,
    {
        self.role
    }

    /// Whether the session holds a handshake engine.
    pub fn is_handshaking(&self) -> (handshaking: bool)
        ensures
            handshaking == self@.handshaking,
    {
        self.engine.is_some()
    }

    /// Whether the session holds its pair of cipher streams.
    pub fn is_transport(&self) -> (transport: bool)
        ensures
            transport == (self@.send is Some && self@.recv is Some),
    {
        self.send.is_some() && self.recv.is_some()
    }

    /// The peer's transport key as the engine revealed it. The key is bound
    /// to an identity only where `remote_identity` answers.
    pub fn remote_static_key(&self) -> (key: Option<[u8; 32]>)
        ensures
            key_view(key) == self@.remote_static,
    {
        self.remote_static
    }

    /// The peer's verifying key, once its signature was checked.
    pub fn remote_identity(&self) -> (key: Option<[u8; 32]>)
        ensures
            key_view(key) == self@.remote_identity,
    {
        self.remote_identity
    }

    /// Nonce of the next frame to encrypt, once the handshake is over.
    pub fn send_counter(&self) -> (counter: Option<u64>)
        ensures
            match self@.send {
                Some(stream) => counter == Some(stream.counter as u64) && stream.counter
                    <= u64::MAX,
                None => counter is None,
            },
    {
        match &self.send {
            Some(stream) => Some(cipher_next_counter(stream)),
            None => None,
        }
    }

    /// Nonce of the next frame to decrypt, once the handshake is over.
    pub fn recv_counter(&self) -> (counter: Option<u64>)
        ensures
            match self@.recv {
                Some(stream) => counter == Some(stream.counter as u64) && stream.counter
                    <= u64::MAX,
                None => counter is None,
            },
    {
        match &self.recv {
            Some(stream) => Some(cipher_next_counter(stream)),
            None => None,
        }
    }

    /// Copies `length` bytes of the buffer from `offset` on, if the range
    /// lies inside the buffer.
    pub fn bytes(&self, offset: usize, length: usize) -> (copy: Option<Vec<u8>>)
        requires
            self.wf(),
        ensures
            copy is Some <==> offset + length <= BUFFER_SIZE,
            copy matches Some(bytes) ==> bytes@ == field(
                self@.buffer,
                offset as int,
                length as int,
            ),
    {
        if offset <= BUFFER_SIZE && length <= BUFFER_SIZE - offset {
            Some(read_field(&self.buffer, offset, length))
        } else {
            None
        }
    }

    /// Copies `data` into the buffer at `offset`, if it fits, and changes
    /// nothing if it does not. This is how the host hands in a message it
    /// received, the encodings it offers and the plaintext of a frame.
    pub fn load(&mut self, offset: usize, data: &[u8]) -> (loaded: bool)
        requires
            old(self).wf(),
        ensures
            final(self).wf(),
            loaded == (offset + data@.len() <= BUFFER_SIZE),
            loaded ==> final(self)@ == (SessionView {
                buffer: with_field(old(self)@.buffer, offset as int, data@),
                ..old(self)@
            }),
            !loaded ==> final(self)@ == old(self)@,
    {
        if offset <= BUFFER_SIZE && data.len() <= BUFFER_SIZE - offset {
            write_field(&mut self.buffer, offset, data);
            proof {
                lemma_with_field_reads_back(old(self).buffer@, offset as int, data@);
            }
            true
        } else {
            false
        }
    }

    /// Copies the field `which` out of the buffer.
    pub fn field(&self, which: Field) -> (copy: Vec<u8>)
        requires
            self.wf(),
        ensures
            copy@ == which.of(self@.buffer),
            copy@.len() == which.spec_length(),
    {
        fetch(&self.buffer, which)
    }

    /// Copies `data` into the field `which`, if it is as long as the field,
    /// and changes nothing if it is not.
    pub fn store_field(&mut self, which: Field, data: &[u8]) -> (stored: bool)
        requires
            old(self).wf(),
        ensures
            final(self).wf(),
            stored == (data@.len() == which.spec_length()),
            stored ==> which.of(final(self)@.buffer) == data@,
            stored ==> final(self)@ == (SessionView {
                buffer: with_field(old(self)@.buffer, which.spec_offset(), data@),
                ..old(self)@
            }),
            !stored ==> final(self)@ == old(self)@,
    {
        if data.len() == which.length() {
            store(&mut self.buffer, which, data);
            true
        } else {
            false
        }
    }

    /// Gives the session the identity of the signing key `secret`: the key
    /// goes to its field and its verifying key to the field of `role`.
    /// Nothing else changes. A second call replaces the first identity.
    pub fn install_signing_key(&mut self, role: Role, secret: &[u8; 32])
        requires
            old(self).wf(),
        ensures
            final(self).wf(),
            final(self)@ == (SessionView {
                buffer: with_identity(old(self)@.buffer, role, secret@),
                ..old(self)@
            }),
            ed25519_public_key(secret@).len() == VERIFYING_KEY_LENGTH,
            ed25519_key_decodes(ed25519_public_key(secret@)),
            identity_matches(final(self)@.buffer, role),
    {
        let public = match identity_of(secret.as_slice()) {
            Ok(public) => public,
            Err(_) => vstd::pervasive::unreached(),
        };
        let offset = match role {
            Role::Initiator => INITIATOR_VERIFYING_KEY_OFFSET,
            Role::Responder => RESPONDER_VERIFYING_KEY_OFFSET,
        };
        write_field(&mut self.buffer, SIGNING_KEY_OFFSET, secret.as_slice());
        proof {
            lemma_with_field_reads_back(old(self).buffer@, SIGNING_KEY_OFFSET as int, secret@);
        }
        let ghost keyed = self.buffer@;
        write_field(&mut self.buffer, offset, public.as_slice());
        proof {
            lemma_with_field_reads_back(keyed, offset as int, public@);
            lemma_with_field_keeps(
                keyed,
                offset as int,
                public@,
                SIGNING_KEY_OFFSET as int,
                SIGNING_KEY_LENGTH as int,
            );
        }
    }

    /// Makes a fresh signing key and installs it as the initiator's
    /// identity: only the signing key and the initiator's verifying key
    /// change, and the two belong together.
    pub fn generate_initiator_keys(&mut self)
        requires
            old(self).wf(),
        ensures
            final(self).wf(),
            identity_generated(old(self)@, final(self)@, Role::Initiator),
    {
        self.generate_signing_keys(Role::Initiator)
    }

    /// Makes a fresh signing key and installs it as the responder's
    /// identity: only the signing key and the responder's verifying key
    /// change, and the two belong together.
    pub fn generate_responder_keys(&mut self)
        requires
            old(self).wf(),
        ensures
            final(self).wf(),
            identity_generated(old(self)@, final(self)@, Role::Responder),
    {
        self.generate_signing_keys(Role::Responder)
    }

    /// Makes a fresh signing key and installs it as the identity of `role`.
    pub fn generate_signing_keys(&mut self, role: Role)
        requires
            old(self).wf(),
        ensures
            final(self).wf(),
            identity_generated(old(self)@, final(self)@, role),
    {
        let secret = fresh_signing_key();
        self.install_signing_key(role, &secret);
        proof {
            let offset = spec_verifying_key_offset(role);
            let keyed = with_field(old(self)@.buffer, SIGNING_KEY_OFFSET as int, secret@);
            lemma_with_field_reads_back(old(self)@.buffer, SIGNING_KEY_OFFSET as int, secret@);
            lemma_with_field_keeps(
                keyed,
                offset,
                ed25519_public_key(secret@),
                SIGNING_KEY_OFFSET as int,
                SIGNING_KEY_LENGTH as int,
            );
        }
    }

    /// The initiator's first step with a fresh transport key: writes the
    /// key pair and the signature over its public half, and the SYN message
    /// that the engine makes of the SYN payload.
    pub fn initiator_write_syn(&mut self) -> (outcome: Result<(), SessionError>)
        requires
            old(self).wf(),
        ensures
            final(self).wf(),
            progresses(old(self)@, final(self)@),
            syn_written(
                old(self)@,
                final(self)@,
                Field::PrivateCryptKey.of(final(self)@.buffer),
                outcome,
            ),
    {
        match self.phase {
            Phase::Uninitialized => {
                let private = fresh_transport_key();
                self.initiator_write_syn_with(&private)
            },
            _ => Err(SessionError::PreconditionViolation),
        }
    }

    /// The initiator's first step with the transport key `private`.
    pub fn initiator_write_syn_with(&mut self, private: &[u8; 32]) -> (outcome: Result<
        (),
        SessionError,
    >)
        requires
            old(self).wf(),
        ensures
            final(self).wf(),
            progresses(old(self)@, final(self)@),
            syn_written(old(self)@, final(self)@, private@, outcome),
    {
        match self.phase {
            Phase::Uninitialized => {},
            _ => {
                return Err(SessionError::PreconditionViolation);
            },
        }
        write_binding(&mut self.buffer, Role::Initiator, private);
        let ghost keyed = self.buffer@;
        let mut engine = engine_new(true, private);
        let payload = fetch(&self.buffer, Field::SynPayload);
        let message = match engine_write(&mut engine, payload.as_slice(), SYN_LENGTH) {
            Ok(message) => message,
            Err(_) => vstd::pervasive::unreached(),
        };
        store(&mut self.buffer, Field::Syn, message.as_slice());
        proof {
            lemma_with_field_keeps(
                keyed,
                SYN_OFFSET as int,
                message@,
                PRIVATE_CRYPT_KEY_OFFSET as int,
                PRIVATE_CRYPT_KEY_LENGTH as int,
            );
            lemma_with_field_keeps(
                keyed,
                SYN_OFFSET as int,
                message@,
                PUBLIC_CRYPT_KEY_OFFSET as int,
                PUBLIC_CRYPT_KEY_LENGTH as int,
            );
            lemma_with_field_keeps(
                keyed,
                SYN_OFFSET as int,
                message@,
                SYN_PAYLOAD_OFFSET as int,
                SYN_PAYLOAD_LENGTH as int,
            );
            lemma_binding_kept(keyed, SYN_OFFSET as int, message@, Role::Initiator);
        }
        self.engine = Some(engine);
        self.last_engine = Ghost(self.engine);
        self.role = Some(Role::Initiator);
        self.phase = Phase::SynSent;
        Ok(())
    }

    /// The responder's first step with a fresh transport key: writes the
    /// key pair and the signature over its public half, and the SYN payload
    /// that the engine finds in the SYN message.
    pub fn responder_read_syn(&mut self) -> (outcome: Result<(), SessionError>)
        requires
            old(self).wf(),
        ensures
            final(self).wf(),
            progresses(old(self)@, final(self)@),
            syn_read(
                old(self)@,
                final(self)@,
                Field::PrivateCryptKey.of(final(self)@.buffer),
                outcome,
            ),
    {
        match self.phase {
            Phase::Uninitialized => {
                let private = fresh_transport_key();
                self.responder_read_syn_with(&private)
            },
            _ => Err(SessionError::PreconditionViolation),
        }
    }

    /// The responder's first step with the transport key `private`.
    pub fn responder_read_syn_with(&mut self, private: &[u8; 32]) -> (outcome: Result<
        (),
        SessionError,
    >)
        requires
            old(self).wf(),
        ensures
            final(self).wf(),
            progresses(old(self)@, final(self)@),
            syn_read(old(self)@, final(self)@, private@, outcome),
    {
        match self.phase {
            Phase::Uninitialized => {},
            _ => {
                return Err(SessionError::PreconditionViolation);
            },
        }
        write_binding(&mut self.buffer, Role::Responder, private);
        let ghost keyed = self.buffer@;
        let mut engine = engine_new(false, private);
        let message = fetch(&self.buffer, Field::Syn);
        assert(message@ =~= Field::Syn.of(old(self).buffer@));
        let payload = match engine_read(&mut engine, message.as_slice(), SYN_PAYLOAD_LENGTH) {
            Ok(payload) => payload,
            Err(_) => vstd::pervasive::unreached(),
        };
        store(&mut self.buffer, Field::SynPayload, payload.as_slice());
        proof {
            lemma_with_field_keeps(
                keyed,
                SYN_PAYLOAD_OFFSET as int,
                payload@,
                PRIVATE_CRYPT_KEY_OFFSET as int,
                PRIVATE_CRYPT_KEY_LENGTH as int,
            );
            lemma_with_field_keeps(
                keyed,
                SYN_PAYLOAD_OFFSET as int,
                payload@,
                PUBLIC_CRYPT_KEY_OFFSET as int,
                PUBLIC_CRYPT_KEY_LENGTH as int,
            );
            lemma_binding_kept(keyed, SYN_PAYLOAD_OFFSET as int, payload@, Role::Responder);
        }
        self.engine = Some(engine);
        self.last_engine = Ghost(self.engine);
        self.role = Some(Role::Responder);
        self.phase = Phase::SynReceived;
        Ok(())
    }

    /// Takes the engine out of a session that shakes hands.
    fn take_engine(&mut self) -> (engine: Engine)
        requires
            old(self).engine is Some,
        ensures
            old(self).engine == Some(engine),
            final(self).engine is None,
            final(self).buffer == old(self).buffer,
            final(self).phase == old(self).phase,
            final(self).role == old(self).role,
            final(self).last_engine == old(self).last_engine,
            final(self).send == old(self).send,
            final(self).recv == old(self).recv,
            final(self).remote_static == old(self).remote_static,
            final(self).remote_identity == old(self).remote_identity,
    {
        match self.engine.take() {
            Some(engine) => engine,
            None => vstd::pervasive::unreached(),
        }
    }

    /// The responder's second step: writes the SYNACK message that the
    /// engine makes of the SYNACK payload.
    pub fn responder_write_synack(&mut self) -> (outcome: Result<(), SessionError>)
        requires
            old(self).wf(),
        ensures
            final(self).wf(),
            progresses(old(self)@, final(self)@),
            synack_written(old(self)@, final(self)@, outcome),
    {
        match self.phase {
            Phase::SynReceived => {},
            _ => {
                return Err(SessionError::PreconditionViolation);
            },
        }
        let mut engine = self.take_engine();
        let payload = fetch(&self.buffer, Field::SynackPayload);
        let message = match engine_write(&mut engine, payload.as_slice(), SYNACK_LENGTH) {
            Ok(message) => message,
            Err(_) => vstd::pervasive::unreached(),
        };
        store(&mut self.buffer, Field::Synack, message.as_slice());
        self.engine = Some(engine);
        self.last_engine = Ghost(self.engine);
        self.phase = Phase::SynAckSent;
        Ok(())
    }

    /// Takes down the peer's transport key and checks the identity and the
    /// signature in the fields `identity` and `signature` against it.
    fn check_peer(
        &mut self,
        transport_key: [u8; 32],
        identity: Field,
        signature: Field,
    ) -> (outcome: Result<(), SessionError>)
        requires
            old(self).buffer@.len() == BUFFER_SIZE,
            old(self).remote_identity is None,
            identity.spec_length() == VERIFYING_KEY_LENGTH,
            signature.spec_length() == SIGNATURE_LENGTH,
        ensures
            final(self).buffer == old(self).buffer,
            final(self).phase == old(self).phase,
            final(self).role == old(self).role,
            final(self).engine == old(self).engine,
            final(self).last_engine == old(self).last_engine,
            final(self).send == old(self).send,
            final(self).recv == old(self).recv,
            final(self).remote_static == Some(transport_key),
            final(self).remote_identity matches Some(key) ==> bound(key@, transport_key@),
            outcome == binding_check(
                transport_key@,
                identity.of(old(self).buffer@),
                signature.of(old(self).buffer@),
            ),
            key_view(final(self).remote_identity) == if outcome is Ok {
                Some(identity.of(old(self).buffer@))
            } else {
                None::<Seq<u8>>
            },
    {
        let claimed = fetch(&self.buffer, identity);
        let proof_of_it = fetch(&self.buffer, signature);
        let outcome = verify_binding(
            transport_key.as_slice(),
            claimed.as_slice(),
            proof_of_it.as_slice(),
        );
        self.remote_static = Some(transport_key);
        if outcome.is_ok() {
            self.remote_identity = Some(to_key(&claimed));
        }
        outcome
    }

    /// The initiator's second step: writes the SYNACK payload that the
    /// engine finds in the SYNACK message, and checks that the responder's
    /// identity signed the responder's transport key.
    pub fn initiator_read_synack(&mut self) -> (outcome: Result<(), SessionError>)
        requires
            old(self).wf(),
        ensures
            final(self).wf(),
            progresses(old(self)@, final(self)@),
            synack_read(old(self)@, final(self)@, outcome),
    {
        match self.phase {
            Phase::SynSent => {},
            _ => {
                return Err(SessionError::PreconditionViolation);
            },
        }
        let mut engine = self.take_engine();
        let message = fetch(&self.buffer, Field::Synack);
        let read = engine_read(&mut engine, message.as_slice(), SYNACK_PAYLOAD_LENGTH);
        self.last_engine = Ghost(Some(engine));
        let payload = match read {
            Ok(payload) => payload,
            Err(_) => {
                self.phase = Phase::Failed;
                return Err(SessionError::EngineRejection);
            },
        };
        store(&mut self.buffer, Field::SynackPayload, payload.as_slice());
        let transport_key = match engine_remote_static(&engine) {
            Some(key) => key,
            None => vstd::pervasive::unreached(),
        };
        let outcome = self.check_peer(
            transport_key,
            Field::ResponderVerifyingKey,
            Field::ResponderSignature,
        );
        match outcome {
            Ok(_) => {
                self.engine = Some(engine);
                self.phase = Phase::SynAckReceived;
            },
            Err(_) => {
                self.phase = Phase::Failed;
            },
        }
        outcome
    }

    /// The initiator's last step: writes the ACK message that the engine
    /// makes of the empty payload and opens the transport. The initiator
    /// sends on the engine's first stream and receives on its second.
    pub fn initiator_write_ack(&mut self) -> (outcome: Result<(), SessionError>)
        requires
            old(self).wf(),
        ensures
            final(self).wf(),
            progresses(old(self)@, final(self)@),
            ack_written(old(self)@, final(self)@, outcome),
    {
        match self.phase {
            Phase::SynAckReceived => {},
            _ => {
                return Err(SessionError::PreconditionViolation);
            },
        }
        let mut engine = self.take_engine();
        let payload: Vec<u8> = Vec::new();
        assert(payload@ =~= Seq::<u8>::empty());
        let message = match engine_write(&mut engine, payload.as_slice(), ACK_LENGTH) {
            Ok(message) => message,
            Err(_) => vstd::pervasive::unreached(),
        };
        store(&mut self.buffer, Field::Ack, message.as_slice());
        self.open_transport(Role::Initiator, engine);
        Ok(())
    }

    /// Splits the two streams off an engine that is through the handshake,
    /// gives each its direction by `role`, and lets go of the engine.
    fn open_transport(&mut self, role: Role, engine: Engine)
        requires
            engine_messages(engine) == 3,
            old(self).engine is None,
        ensures
            final(self).buffer == old(self).buffer,
            final(self).role == old(self).role,
            final(self).engine is None,
            final(self).last_engine@ == Some(engine),
            final(self).phase == Phase::Complete,
            final(self).remote_static == old(self).remote_static,
            final(self).remote_identity == old(self).remote_identity,
            final(self).send matches Some(send) && stream_view(final(self).send) == Some(
                StreamView { key: send_key(role, engine_stream_keys(engine)), counter: 0 },
            ),
            final(self).recv matches Some(recv) && stream_view(final(self).recv) == Some(
                StreamView { key: recv_key(role, engine_stream_keys(engine)), counter: 0 },
            ),
    {
        let (to_responder, to_initiator) = engine_ciphers(&engine);
        let (send, recv) = assign_streams(role, to_responder, to_initiator);
        self.send = Some(send);
        self.recv = Some(recv);
        self.last_engine = Ghost(Some(engine));
        self.phase = Phase::Complete;
    }

    /// The responder's last step: lets the engine read the ACK message,
    /// checks that the initiator's identity signed the initiator's
    /// transport key, and opens the transport. The responder receives on
    /// the engine's first stream and sends on its second.
    pub fn responder_read_ack(&mut self) -> (outcome: Result<(), SessionError>)
        requires
            old(self).wf(),
        ensures
            final(self).wf(),
            progresses(old(self)@, final(self)@),
            ack_read(old(self)@, final(self)@, outcome),
    {
        match self.phase {
            Phase::SynAckSent => {},
            _ => {
                return Err(SessionError::PreconditionViolation);
            },
        }
        let mut engine = self.take_engine();
        let message = fetch(&self.buffer, Field::Ack);
        let read = engine_read(&mut engine, message.as_slice(), ACK_PAYLOAD_LENGTH);
        self.last_engine = Ghost(Some(engine));
        if read.is_err() {
            self.phase = Phase::Failed;
            return Err(SessionError::EngineRejection);
        }
        let transport_key = match engine_remote_static(&engine) {
            Some(key) => key,
            None => vstd::pervasive::unreached(),
        };
        let outcome = self.check_peer(
            transport_key,
            Field::InitiatorVerifyingKey,
            Field::InitiatorSignature,
        );
        if outcome.is_err() {
            self.phase = Phase::Failed;
            return outcome;
        }
        self.open_transport(Role::Responder, engine);
        Ok(())
    }

    /// Encrypts the first `length` bytes of the buffer in place and answers
    /// the length of the frame, which is `TAG_LENGTH` bytes longer.
    pub fn encrypt(&mut self, length: usize) -> (outcome: Result<usize, SessionError>)
        requires
            old(self).wf(),
        ensures
            final(self).wf(),
            progresses(old(self)@, final(self)@),
            encrypted(old(self)@, final(self)@, length as int, outcome),
    {
        let counter = match &self.send {
            Some(stream) => cipher_next_counter(stream),
            None => {
                return Err(SessionError::PreconditionViolation);
            },
        };
        if length > BUFFER_SIZE - TAG_LENGTH || counter == u64::MAX {
            return Err(SessionError::EngineRejection);
        }
        let sealed = match &mut self.send {
            Some(stream) => cipher_seal(stream, &mut self.buffer, length),
            None => vstd::pervasive::unreached(),
        };
        proof {
            let stream = old(self)@.send->0;
            let plaintext = field(old(self)@.buffer, 0, length as int);
            let frame = aead_seal(stream.key, stream.counter, plaintext);
            lemma_with_field_reads_back(old(self)@.buffer, 0, frame);
        }
        Ok(sealed)
    }

    /// Decrypts the frame in the first `length` bytes of the buffer in
    /// place and answers the length of the plaintext, which is `TAG_LENGTH`
    /// bytes shorter.
    pub fn decrypt(&mut self, length: usize) -> (outcome: Result<usize, SessionError>)
        requires
            old(self).wf(),
        ensures
            final(self).wf(),
            progresses(old(self)@, final(self)@),
            decrypted(old(self)@, final(self)@, length as int, outcome),
    {
        let counter = match &self.recv {
            Some(stream) => cipher_next_counter(stream),
            None => {
                return Err(SessionError::PreconditionViolation);
            },
        };
        if length < TAG_LENGTH || length > BUFFER_SIZE || counter == u64::MAX {
            return Err(SessionError::EngineRejection);
        }
        let opened = match &mut self.recv {
            Some(stream) => cipher_open(stream, &mut self.buffer, length),
            None => vstd::pervasive::unreached(),
        };
        proof {
            let stream = old(self)@.recv->0;
            let plaintext = aead_open(
                stream.key,
                stream.counter,
                field(old(self)@.buffer, 0, length as int),
            );
            if plaintext is Some {
                lemma_with_field_reads_back(old(self)@.buffer, 0, plaintext->0);
            }
        }
        match opened {
            Ok(plain) => Ok(plain),
            Err(_) => Err(SessionError::EngineRejection),
        }
    }
}

} // verus!
