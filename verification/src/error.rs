//! Failures of the session operations and the status codes a host sees.

use vstd::prelude::*;

verus! {

/// Why a session operation failed. Any failure is final: the session has to
/// be discarded.
#[derive(Clone, Copy, Debug, PartialEq, Eq, Structural)]
pub enum SessionError {
    /// The operation was invoked in a state that does not allow it.
    PreconditionViolation,
    /// The Noise engine refused to write or to read: a malformed message, an
    /// authentication tag that does not match, or a length it cannot take.
    EngineRejection,
    /// The bytes are no signing key.
    MalformedSigningKey,
    /// The bytes are no signature.
    MalformedSignature,
    /// The bytes are no verifying key.
    MalformedVerifyingKey,
    /// The signature does not bind the peer's identity to its transport key.
    BindingVerificationFailure,
    /// The engine could not tell the peer's static key.
    MissingRemoteKey,
}

/// The operations a host can invoke on a session.
#[derive(Clone, Copy, Debug, PartialEq, Eq, Structural)]
pub enum Operation {
    InitiatorWriteSyn,
    ResponderReadSyn,
    ResponderWriteSynack,
    InitiatorReadSynack,
    InitiatorWriteAck,
    ResponderReadAck,
    Encrypt,
    Decrypt,
}

/// The errors that an operation may report, each under a code of its own.
pub open spec fn can_fail_with(operation: Operation, error: SessionError) -> bool {
    match operation {
        Operation::InitiatorWriteSyn | Operation::ResponderReadSyn
        | Operation::ResponderWriteSynack | Operation::InitiatorWriteAck | Operation::Encrypt
        | Operation::Decrypt => {
            error == SessionError::PreconditionViolation || error == SessionError::EngineRejection
        },
        Operation::InitiatorReadSynack | Operation::ResponderReadAck => {
            error != SessionError::MalformedSigningKey
        },
    }
}

/// The nonzero code that stands for `error` at the host boundary. Codes are
/// numbered per operation and are not unified across operations.
pub open spec fn spec_error_code(operation: Operation, error: SessionError) -> int {
    match (operation, error) {
        (Operation::InitiatorWriteSyn, SessionError::EngineRejection) => 1,
        (Operation::InitiatorWriteSyn, SessionError::PreconditionViolation) => 2,
        (Operation::ResponderReadSyn, SessionError::MalformedSigningKey) => 1,
        (Operation::ResponderReadSyn, SessionError::PreconditionViolation) => 3,
        (_, SessionError::PreconditionViolation) => 1,
        (_, SessionError::EngineRejection) => 2,
        (_, SessionError::MissingRemoteKey) => 3,
        (_, SessionError::MalformedSignature) => 4,
        (_, SessionError::MalformedVerifyingKey) => 5,
        (_, SessionError::BindingVerificationFailure) => 6,
        (_, SessionError::MalformedSigningKey) => 7,
    }
}

/// The code a host sees for an outcome: 0 for success, else the error's code.
pub open spec fn spec_status_code(operation: Operation, outcome: Result<(), SessionError>) -> int {
    match outcome {
        Ok(_) => 0,
        Err(error) => spec_error_code(operation, error),
    }
}

/// Code of `error` for `operation`.
pub fn error_code(operation: Operation, error: SessionError) -> (code: i32)
    ensures
        code == spec_error_code(operation, error),
        1 <= code <= 7,
{
    match (operation, error) {
        (Operation::InitiatorWriteSyn, SessionError::EngineRejection) => 1,
        (Operation::InitiatorWriteSyn, SessionError::PreconditionViolation) => 2,
        (Operation::ResponderReadSyn, SessionError::MalformedSigningKey) => 1,
        (Operation::ResponderReadSyn, SessionError::PreconditionViolation) => 3,
        (_, SessionError::PreconditionViolation) => 1,
        (_, SessionError::EngineRejection) => 2,
        (_, SessionError::MissingRemoteKey) => 3,
        (_, SessionError::MalformedSignature) => 4,
        (_, SessionError::MalformedVerifyingKey) => 5,
        (_, SessionError::BindingVerificationFailure) => 6,
        (_, SessionError::MalformedSigningKey) => 7,
    }
}

/// Code of `outcome` for `operation`: 0 exactly on success.
pub fn status_code(operation: Operation, outcome: Result<(), SessionError>) -> (code: i32)
    ensures
        code == spec_status_code(operation, outcome),
        code == 0 <==> outcome is Ok,
{
    match outcome {
        Ok(_) => 0,
        Err(error) => error_code(operation, error),
    }
}

/// Two different errors of one operation have different codes.
pub proof fn lemma_codes_distinct(operation: Operation, first: SessionError, second: SessionError)
    requires
        can_fail_with(operation, first),
        can_fail_with(operation, second),
        first != second,
    ensures
        spec_error_code(operation, first) != spec_error_code(operation, second),
{
}

} // verus!
