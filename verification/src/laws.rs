//! What holds of every session, whatever the engine and the peer do.

use vstd::prelude::*;
use crate::error::{can_fail_with, spec_error_code, Operation, SessionError};
use crate::layout::{
    field, lemma_with_field_reads_back, Field, ACK_LENGTH, ACK_OFFSET, ACK_OVERHEAD,
    ACK_PAYLOAD_LENGTH, BUFFER_SIZE, PRIVATE_CRYPT_KEY_LENGTH, PRIVATE_CRYPT_KEY_OFFSET,
    SYNACK_LENGTH, SYNACK_OFFSET, SYNACK_OVERHEAD, SYNACK_PAYLOAD_LENGTH, SYN_LENGTH,
    SYN_OFFSET, SYN_OVERHEAD, SYN_PAYLOAD_LENGTH, TAG_LENGTH,
};
use crate::engine::{
    aead_open, aead_seal, engine_fresh, engine_message, engine_stream_keys, xx_overhead,
};
use crate::session::{
    ack_read, ack_written, binding_in_place, decrypted, encrypted, identity_generated,
    progresses, refused, syn_read, syn_written, synack_read, synack_written,
    transport_opened, with_binding, Phase, Role, Session, SessionView,
};

verus! {

/// The phase in which alone `operation` is open.
pub open spec fn required_phase(operation: Operation) -> Phase {
    match operation {
        Operation::InitiatorWriteSyn => Phase::Uninitialized,
        Operation::ResponderReadSyn => Phase::Uninitialized,
        Operation::ResponderWriteSynack => Phase::SynReceived,
        Operation::InitiatorReadSynack => Phase::SynSent,
        Operation::InitiatorWriteAck => Phase::SynAckReceived,
        Operation::ResponderReadAck => Phase::SynAckSent,
        Operation::Encrypt => Phase::Complete,
        Operation::Decrypt => Phase::Complete,
    }
}

/// The phase that `operation` leads to when it succeeds.
pub open spec fn phase_after(operation: Operation) -> Phase {
    match operation {
        Operation::InitiatorWriteSyn => Phase::SynSent,
        Operation::ResponderReadSyn => Phase::SynReceived,
        Operation::ResponderWriteSynack => Phase::SynAckSent,
        Operation::InitiatorReadSynack => Phase::SynAckReceived,
        Operation::InitiatorWriteAck => Phase::Complete,
        Operation::ResponderReadAck => Phase::Complete,
        Operation::Encrypt => Phase::Complete,
        Operation::Decrypt => Phase::Complete,
    }
}

/// Whether the handshake step `operation` may take a session from `before`
/// to `after` with `outcome`: the contract of that step's function.
pub open spec fn handshake_step(
    operation: Operation,
    before: SessionView,
    after: SessionView,
    outcome: Result<(), SessionError>,
) -> bool {
    let private = field(
        after.buffer,
        PRIVATE_CRYPT_KEY_OFFSET as int,
        PRIVATE_CRYPT_KEY_LENGTH as int,
    );
    match operation {
        Operation::InitiatorWriteSyn => syn_written(before, after, private, outcome),
        Operation::ResponderReadSyn => syn_read(before, after, private, outcome),
        Operation::ResponderWriteSynack => synack_written(before, after, outcome),
        Operation::InitiatorReadSynack => synack_read(before, after, outcome),
        Operation::InitiatorWriteAck => ack_written(before, after, outcome),
        Operation::ResponderReadAck => ack_read(before, after, outcome),
        Operation::Encrypt | Operation::Decrypt => false,
    }
}

/// A handshake step that is invoked in any phase but its own fails as a
/// violated precondition and leaves the session, its buffer with all key
/// fields included, exactly as it was. So does the responder's second step
/// before its first has succeeded.
pub proof fn lemma_out_of_order_is_refused(
    operation: Operation,
    before: SessionView,
    after: SessionView,
    outcome: Result<(), SessionError>,
)
    requires
        handshake_step(operation, before, after, outcome),
        before.phase != required_phase(operation),
    ensures
        outcome == Err::<(), SessionError>(SessionError::PreconditionViolation),
        after == before,
{
}

/// A handshake step in its own phase either succeeds and takes the session
/// to the next phase of its role, or fails and leaves it failed. The three
/// writes succeed. In no case does the session go back, change its role,
/// or hold cipher streams before the handshake is complete, and a step
/// that fails leaves behind no engine.
pub proof fn lemma_step_progresses(
    session: Session,
    operation: Operation,
    after: SessionView,
    outcome: Result<(), SessionError>,
)
    requires
        session.wf(),
        handshake_step(operation, session@, after, outcome),
    ensures
        progresses(session@, after),
        session@.phase == required_phase(operation) ==> after.phase == if outcome is Ok {
            phase_after(operation)
        } else {
            Phase::Failed
        },
        after.send is Some <==> after.phase == Phase::Complete,
        after.recv is Some <==> after.phase == Phase::Complete,
        session@.phase == required_phase(operation) && (operation == Operation::InitiatorWriteSyn
            || operation == Operation::ResponderWriteSynack || operation
            == Operation::InitiatorWriteAck) ==> outcome is Ok,
        after.phase == Phase::Failed ==> !after.handshaking,
        outcome matches Err(error) ==> can_fail_with(operation, error),
{
    session.lemma_handshaking_or_transporting();
}

/// A session that has failed takes no further handshake step.
pub proof fn lemma_failed_is_final(
    session: Session,
    operation: Operation,
    after: SessionView,
    outcome: Result<(), SessionError>,
)
    requires
        session.wf(),
        session@.phase == Phase::Failed,
        handshake_step(operation, session@, after, outcome),
    ensures
        refused(session@, after, outcome),
{
}

/// A session whose handshake is not complete, and so every session that has
/// failed, encrypts nothing and decrypts nothing.
pub proof fn lemma_no_transport_before_completion(
    session: Session,
    after: SessionView,
    length: int,
    outcome: Result<usize, SessionError>,
)
    requires
        session.wf(),
        session@.phase != Phase::Complete,
        encrypted(session@, after, length, outcome) || decrypted(session@, after, length, outcome),
    ensures
        outcome == Err::<usize, SessionError>(SessionError::PreconditionViolation),
        after == session@,
{
    session.lemma_handshaking_or_transporting();
}

/// A frame that one session has encrypted opens on a session that holds
/// the same stream at the same nonce, once the frame's bytes were carried
/// into its buffer: decryption gives back the plaintext, byte for byte, and
/// the two streams are in step again.
pub proof fn lemma_frame_round_trip(
    sender: SessionView,
    sent: SessionView,
    sealed: Result<usize, SessionError>,
    receiver: SessionView,
    received: SessionView,
    opened: Result<usize, SessionError>,
    length: int,
)
    requires
        0 <= length,
        sender.buffer.len() == BUFFER_SIZE,
        receiver.buffer.len() == BUFFER_SIZE,
        encrypted(sender, sent, length, sealed),
        sealed is Ok,
        receiver.recv == sender.send,
        field(receiver.buffer, 0, length + TAG_LENGTH) == field(
            sent.buffer,
            0,
            length + TAG_LENGTH,
        ),
        decrypted(receiver, received, length + TAG_LENGTH, opened),
    ensures
        sealed == Ok::<usize, SessionError>((length + TAG_LENGTH) as usize),
        opened == Ok::<usize, SessionError>(length as usize),
        field(received.buffer, 0, length) == field(sender.buffer, 0, length),
        received.recv == sent.send,
{
    let stream = sender.send->0;
    let plaintext = field(sender.buffer, 0, length);
    let frame = aead_seal(stream.key, stream.counter, plaintext);
    lemma_with_field_reads_back(sender.buffer, 0, frame);
    lemma_with_field_reads_back(receiver.buffer, 0, plaintext);
}

/// Every successful write puts the message that the engine made of the
/// step's payload into the message's own field, in its fixed length, and
/// touches no byte outside it: 132 bytes of SYN behind the key material
/// that the same step wrote, 193 bytes of SYNACK, 64 bytes of ACK.
pub proof fn lemma_written_message_lengths(
    operation: Operation,
    before: SessionView,
    after: SessionView,
    outcome: Result<(), SessionError>,
    i: int,
)
    requires
        before.buffer.len() == BUFFER_SIZE,
        after.buffer.len() == BUFFER_SIZE,
        handshake_step(operation, before, after, outcome),
        outcome is Ok,
        0 <= i < BUFFER_SIZE,
    ensures
        SYN_LENGTH == 132 && SYNACK_LENGTH == 193 && ACK_LENGTH == 64,
        operation == Operation::InitiatorWriteSyn && !(SYN_OFFSET <= i < SYN_OFFSET + SYN_LENGTH)
            ==> after.buffer[i] == with_binding(
            before.buffer,
            Role::Initiator,
            field(after.buffer, PRIVATE_CRYPT_KEY_OFFSET as int, PRIVATE_CRYPT_KEY_LENGTH as int),
        )[i],
        operation == Operation::ResponderWriteSynack && !(SYNACK_OFFSET <= i < SYNACK_OFFSET
            + SYNACK_LENGTH) ==> after.buffer[i] == before.buffer[i],
        operation == Operation::InitiatorWriteAck && !(ACK_OFFSET <= i < ACK_OFFSET + ACK_LENGTH)
            ==> after.buffer[i] == before.buffer[i],
        operation == Operation::InitiatorWriteSyn ==> {
            &&& after.last_engine matches Some(engine)
            &&& Field::Syn.of(after.buffer).len() == 132
            &&& Field::Syn.of(after.buffer) == engine_message(
                engine_fresh(true, Field::PrivateCryptKey.of(after.buffer)),
                engine,
                Field::SynPayload.of(after.buffer),
            )
        },
        operation == Operation::ResponderWriteSynack ==> {
            &&& before.last_engine matches Some(engine_before)
            &&& after.last_engine matches Some(engine_after)
            &&& Field::Synack.of(after.buffer).len() == 193
            &&& Field::Synack.of(after.buffer) == engine_message(
                engine_before,
                engine_after,
                Field::SynackPayload.of(before.buffer),
            )
        },
        operation == Operation::InitiatorWriteAck ==> {
            &&& before.last_engine matches Some(engine_before)
            &&& after.last_engine matches Some(engine_after)
            &&& Field::Ack.of(after.buffer).len() == 64
            &&& Field::Ack.of(after.buffer) == engine_message(
                engine_before,
                engine_after,
                Seq::<u8>::empty(),
            )
        },
{
}

/// The three messages of the handshake are as long as their payloads and
/// what the XX pattern adds to them.
pub proof fn lemma_message_lengths_follow_the_pattern()
    ensures
        SYN_OVERHEAD == xx_overhead(0),
        SYNACK_OVERHEAD == xx_overhead(1),
        ACK_OVERHEAD == xx_overhead(2),
        SYN_LENGTH == SYN_PAYLOAD_LENGTH + xx_overhead(0),
        SYNACK_LENGTH == SYNACK_PAYLOAD_LENGTH + xx_overhead(1),
        ACK_LENGTH == ACK_PAYLOAD_LENGTH + xx_overhead(2),
{
}

/// What an honest peer shows passes the check. A session that generated its
/// identity and then took its first step holds, whether or not the engine
/// went along, a verifying key, a transport public key and a signature that
/// pass the binding check of the other side.
pub proof fn lemma_own_binding_passes(
    role: Role,
    blank: SessionView,
    keyed: SessionView,
    private: Seq<u8>,
    after: SessionView,
    outcome: Result<(), SessionError>,
)
    requires
        identity_generated(blank, keyed, role),
        keyed.phase == Phase::Uninitialized,
        role == Role::Initiator ==> syn_written(keyed, after, private, outcome),
        role == Role::Responder ==> syn_read(keyed, after, private, outcome),
    ensures
        binding_in_place(after.buffer, role),
{
}

/// The two sides of a completed handshake talk to each other. Where the
/// engines of an initiator and a responder have split off the same two
/// streams, the initiator sends on the stream on which the responder
/// receives, the responder sends on the one on which the initiator
/// receives, and all four start at nonce 0.
pub proof fn lemma_streams_pair(initiator: SessionView, responder: SessionView)
    requires
        transport_opened(initiator, Role::Initiator),
        transport_opened(responder, Role::Responder),
        engine_stream_keys(initiator.last_engine->0) == engine_stream_keys(
            responder.last_engine->0,
        ),
    ensures
        initiator.send == responder.recv,
        responder.send == initiator.recv,
        initiator.send->0.counter == 0,
        responder.send->0.counter == 0,
{
}

/// The first frame crosses. After a handshake whose two engines have split
/// off the same streams, what the initiator encrypts the responder
/// decrypts, once the frame's bytes were carried over, into the plaintext
/// that the initiator had, byte for byte; and so from responder to
/// initiator.
pub proof fn lemma_first_frame_crosses(
    sender: SessionView,
    role: Role,
    sent: SessionView,
    sealed: Result<usize, SessionError>,
    receiver: SessionView,
    received: SessionView,
    opened: Result<usize, SessionError>,
    length: int,
)
    requires
        0 <= length <= BUFFER_SIZE - TAG_LENGTH,
        sender.buffer.len() == BUFFER_SIZE,
        receiver.buffer.len() == BUFFER_SIZE,
        transport_opened(sender, role),
        transport_opened(
            receiver,
            match role {
                Role::Initiator => Role::Responder,
                Role::Responder => Role::Initiator,
            },
        ),
        engine_stream_keys(sender.last_engine->0) == engine_stream_keys(receiver.last_engine->0),
        encrypted(sender, sent, length, sealed),
        field(receiver.buffer, 0, length + TAG_LENGTH) == field(
            sent.buffer,
            0,
            length + TAG_LENGTH,
        ),
        decrypted(receiver, received, length + TAG_LENGTH, opened),
    ensures
        sealed == Ok::<usize, SessionError>((length + TAG_LENGTH) as usize),
        opened == Ok::<usize, SessionError>(length as usize),
        field(received.buffer, 0, length) == field(sender.buffer, 0, length),
{
    lemma_frame_round_trip(sender, sent, sealed, receiver, received, opened, length);
}

/// A binding that the check refuses ends the session. Where a checking read
/// in its own phase answers that the peer's signature does not bind the
/// peer's identity to its transport key, the session has failed: it holds
/// no engine, no cipher streams and no identity of the peer, and the host
/// is told so by the code 6. By `lemma_failed_is_final` and
/// `lemma_no_transport_before_completion` it then takes no further step
/// and moves no frame.
pub proof fn lemma_refused_binding_ends_the_session(
    session: Session,
    operation: Operation,
    after: SessionView,
    outcome: Result<(), SessionError>,
)
    requires
        session.wf(),
        operation == Operation::InitiatorReadSynack || operation == Operation::ResponderReadAck,
        session@.phase == required_phase(operation),
        handshake_step(operation, session@, after, outcome),
        outcome == Err::<(), SessionError>(SessionError::BindingVerificationFailure),
    ensures
        after.phase == Phase::Failed,
        !after.handshaking,
        after.send is None,
        after.recv is None,
        after.remote_identity is None,
        spec_error_code(operation, SessionError::BindingVerificationFailure) == 6,
{
    session.lemma_handshaking_or_transporting();
}

/// A frame out of turn changes nothing. Where the receive stream does not
/// open at its present nonce what stands in the buffer, as it does not
/// where the cipher refuses a frame that was made at another nonce,
/// `decrypt` reports a rejection by the engine and leaves buffer and stream
/// as they were, so that the frame that belongs to the nonce still opens
/// after it.
pub proof fn lemma_frame_out_of_turn_changes_nothing(
    receiver: SessionView,
    after: SessionView,
    length: int,
    outcome: Result<usize, SessionError>,
)
    requires
        receiver.recv matches Some(stream) && aead_open(
            stream.key,
            stream.counter,
            field(receiver.buffer, 0, length),
        ) is None,
        decrypted(receiver, after, length, outcome),
    ensures
        outcome == Err::<usize, SessionError>(SessionError::EngineRejection),
        after == receiver,
        spec_error_code(Operation::Decrypt, SessionError::EngineRejection) == 2,
{
}

} // verus!
