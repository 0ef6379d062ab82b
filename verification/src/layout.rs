//! Fixed byte layout of the shared session buffer.
//!
//! Every handshake message, its plaintext payload and the local key material
//! live at a statically known offset of one scratch buffer. The fields that
//! are live at the same time never overlap, so a step's output can be read
//! back as the next step's input without copying anything around.

use vstd::prelude::*;

verus! {

/// Size of the shared buffer in bytes.
pub const BUFFER_SIZE: usize = 65535;

/// Local transport (Diffie-Hellman) private key.
pub const PRIVATE_CRYPT_KEY_OFFSET: usize = 0;

pub const PRIVATE_CRYPT_KEY_LENGTH: usize = 32;

/// Local transport (Diffie-Hellman) public key.
pub const PUBLIC_CRYPT_KEY_OFFSET: usize = 32;

pub const PUBLIC_CRYPT_KEY_LENGTH: usize = 32;

/// Local long-term signing key.
pub const SIGNING_KEY_OFFSET: usize = 64;

pub const SIGNING_KEY_LENGTH: usize = 32;

pub const VERIFYING_KEY_LENGTH: usize = 32;

pub const SIGNATURE_LENGTH: usize = 64;

/// Initiator's verifying key, the head of the SYN payload.
pub const INITIATOR_VERIFYING_KEY_OFFSET: usize = 128;

/// Initiator's signature over its transport public key.
pub const INITIATOR_SIGNATURE_OFFSET: usize = 160;

/// First encoding the initiator supports.
pub const FIRST_ENCODING_OFFSET: usize = 224;

pub const FIRST_ENCODING_LENGTH: usize = 2;

/// Bit set of the further encodings the initiator supports.
pub const OTHER_ENCODINGS_OFFSET: usize = 226;

pub const OTHER_ENCODINGS_LENGTH: usize = 1;

/// Plaintext payload of the SYN message.
pub const SYN_PAYLOAD_OFFSET: usize = 128;

pub const SYN_PAYLOAD_LENGTH: usize = 100;

/// Bytes the engine adds to the SYN payload.
pub const SYN_OVERHEAD: usize = 32;

/// SYN message as it travels from initiator to responder.
pub const SYN_OFFSET: usize = 256;

pub const SYN_LENGTH: usize = SYN_OVERHEAD + SYN_PAYLOAD_LENGTH;

/// Responder's verifying key, the head of the SYNACK payload.
pub const RESPONDER_VERIFYING_KEY_OFFSET: usize = 416;

/// Responder's signature over its transport public key.
pub const RESPONDER_SIGNATURE_OFFSET: usize = 448;

/// Encoding the responder accepted.
pub const ACCEPTED_ENCODING_OFFSET: usize = 512;

pub const ACCEPTED_ENCODING_LENGTH: usize = 1;

/// Plaintext payload of the SYNACK message.
pub const SYNACK_PAYLOAD_OFFSET: usize = 416;

pub const SYNACK_PAYLOAD_LENGTH: usize = 97;

/// Bytes the engine adds to the SYNACK payload.
pub const SYNACK_OVERHEAD: usize = 96;

/// SYNACK message as it travels from responder to initiator.
pub const SYNACK_OFFSET: usize = 544;

pub const SYNACK_LENGTH: usize = SYNACK_OVERHEAD + SYNACK_PAYLOAD_LENGTH;

/// The ACK message carries no payload.
pub const ACK_PAYLOAD_LENGTH: usize = 0;

/// Bytes the engine adds to the (empty) ACK payload.
pub const ACK_OVERHEAD: usize = 64;

/// ACK message as it travels from initiator to responder.
pub const ACK_OFFSET: usize = 768;

pub const ACK_LENGTH: usize = ACK_OVERHEAD + ACK_PAYLOAD_LENGTH;

/// Length of the authentication tag of a transport frame.
pub const TAG_LENGTH: usize = 16;

/// The `length` bytes of `buffer` that start at `offset`.
pub open spec fn field(buffer: Seq<u8>, offset: int, length: int) -> Seq<u8> {
    buffer.subrange(offset, offset + length)
}

/// `buffer` with the bytes from `offset` on replaced by `data`; every other
/// byte is kept.
pub open spec fn with_field(buffer: Seq<u8>, offset: int, data: Seq<u8>) -> Seq<u8> {
    buffer.subrange(0, offset) + data + buffer.subrange(
        offset + data.len(),
        buffer.len() as int,
    )
}

/// Whether `[offset, offset + length)` lies inside a buffer of `size` bytes.
pub open spec fn in_bounds(size: int, offset: int, length: int) -> bool {
    0 <= offset && 0 <= length && offset + length <= size
}

/// Whether two byte ranges share no index.
pub open spec fn disjoint(offset_a: int, length_a: int, offset_b: int, length_b: int) -> bool {
    offset_a + length_a <= offset_b || offset_b + length_b <= offset_a
}

/// A buffer of `BUFFER_SIZE` zero bytes.
pub open spec fn zeroed() -> Seq<u8> {
    Seq::new(BUFFER_SIZE as nat, |i: int| 0u8)
}

/// Replacing a field keeps the buffer's length, and the field then reads
/// back as what was written.
pub proof fn lemma_with_field_reads_back(buffer: Seq<u8>, offset: int, data: Seq<u8>)
    requires
        in_bounds(buffer.len() as int, offset, data.len() as int),
    ensures
        with_field(buffer, offset, data).len() == buffer.len(),
        field(with_field(buffer, offset, data), offset, data.len() as int) == data,
{
    assert(field(with_field(buffer, offset, data), offset, data.len() as int) =~= data);
}

/// Replacing a field leaves every range that does not touch it as it was.
pub proof fn lemma_with_field_keeps(
    buffer: Seq<u8>,
    offset: int,
    data: Seq<u8>,
    other: int,
    length: int,
)
    requires
        in_bounds(buffer.len() as int, offset, data.len() as int),
        in_bounds(buffer.len() as int, other, length),
        disjoint(offset, data.len() as int, other, length),
    ensures
        field(with_field(buffer, offset, data), other, length) == field(buffer, other, length),
{
    assert(field(with_field(buffer, offset, data), other, length) =~= field(
        buffer,
        other,
        length,
    ));
}

/// The fields of the layout lie inside the buffer in the order in which the
/// exchange uses them, each message apart from its payload and from every
/// other message, and each payload is tiled by its parts.
pub open spec fn layout_is_sound() -> bool {
    &&& PRIVATE_CRYPT_KEY_OFFSET + PRIVATE_CRYPT_KEY_LENGTH == PUBLIC_CRYPT_KEY_OFFSET
    &&& PUBLIC_CRYPT_KEY_OFFSET + PUBLIC_CRYPT_KEY_LENGTH == SIGNING_KEY_OFFSET
    &&& SIGNING_KEY_OFFSET + SIGNING_KEY_LENGTH <= SYN_PAYLOAD_OFFSET
    &&& INITIATOR_VERIFYING_KEY_OFFSET == SYN_PAYLOAD_OFFSET
    &&& INITIATOR_VERIFYING_KEY_OFFSET + VERIFYING_KEY_LENGTH == INITIATOR_SIGNATURE_OFFSET
    &&& INITIATOR_SIGNATURE_OFFSET + SIGNATURE_LENGTH == FIRST_ENCODING_OFFSET
    &&& FIRST_ENCODING_OFFSET + FIRST_ENCODING_LENGTH == OTHER_ENCODINGS_OFFSET
    &&& OTHER_ENCODINGS_OFFSET + OTHER_ENCODINGS_LENGTH <= SYN_PAYLOAD_OFFSET + SYN_PAYLOAD_LENGTH
    &&& SYN_PAYLOAD_OFFSET + SYN_PAYLOAD_LENGTH <= SYN_OFFSET
    &&& SYN_OFFSET + SYN_LENGTH <= SYNACK_PAYLOAD_OFFSET
    &&& RESPONDER_VERIFYING_KEY_OFFSET == SYNACK_PAYLOAD_OFFSET
    &&& RESPONDER_VERIFYING_KEY_OFFSET + VERIFYING_KEY_LENGTH == RESPONDER_SIGNATURE_OFFSET
    &&& RESPONDER_SIGNATURE_OFFSET + SIGNATURE_LENGTH == ACCEPTED_ENCODING_OFFSET
    &&& ACCEPTED_ENCODING_OFFSET + ACCEPTED_ENCODING_LENGTH == SYNACK_PAYLOAD_OFFSET
        + SYNACK_PAYLOAD_LENGTH
    &&& SYNACK_PAYLOAD_OFFSET + SYNACK_PAYLOAD_LENGTH <= SYNACK_OFFSET
    &&& SYNACK_OFFSET + SYNACK_LENGTH <= ACK_OFFSET
    &&& ACK_OFFSET + ACK_LENGTH <= BUFFER_SIZE
}

/// The layout is sound, and the three wire messages have the lengths the
/// protocol fixes: 132, 193 and 64 bytes.
pub proof fn lemma_layout()
    ensures
        layout_is_sound(),
        SYN_LENGTH == 132,
        SYNACK_LENGTH == 193,
        ACK_LENGTH == 64,
{
}

/// Copies the `length` bytes at `offset` out of `buffer`.
pub fn read_field(buffer: &Vec<u8>, offset: usize, length: usize) -> (out: Vec<u8>)
    requires
        offset + length <= buffer@.len(),
    ensures
        out@ == field(buffer@, offset as int, length as int),
{
    let size: usize = buffer.len();
    let mut out: Vec<u8> = Vec::with_capacity(length);
    let mut i: usize = 0;
    while i < length
        invariant
            i <= length,
            offset + length <= size,
            size == buffer@.len(),
            out@ == field(buffer@, offset as int, i as int),
        decreases length - i,
    {
        out.push(buffer[offset + i]);
        i = i + 1;
        assert(out@ =~= field(buffer@, offset as int, i as int));
    }
    out
}

/// Copies `data` into `buffer` at `offset`.
pub fn write_field(buffer: &mut Vec<u8>, offset: usize, data: &[u8])
    requires
        offset + data@.len() <= old(buffer)@.len(),
    ensures
        final(buffer)@ == with_field(old(buffer)@, offset as int, data@),
{
    let size: usize = buffer.len();
    let mut i: usize = 0;
    assert(buffer@ =~= with_field(old(buffer)@, offset as int, data@.subrange(0, 0)));
    while i < data.len()
        invariant
            i <= data@.len(),
            offset + data@.len() <= size,
            size == old(buffer)@.len(),
            buffer@ == with_field(old(buffer)@, offset as int, data@.subrange(0, i as int)),
        decreases data@.len() - i,
    {
        buffer.set(offset + i, data[i]);
        i = i + 1;
        assert(buffer@ =~= with_field(old(buffer)@, offset as int, data@.subrange(0, i as int)));
    }
    assert(data@.subrange(0, i as int) =~= data@);
}

/// The fields of the shared buffer.
#[derive(Clone, Copy, Debug, PartialEq, Eq, Structural)]
pub enum Field {
    PrivateCryptKey,
    PublicCryptKey,
    SigningKey,
    InitiatorVerifyingKey,
    InitiatorSignature,
    FirstEncoding,
    OtherEncodings,
    SynPayload,
    Syn,
    ResponderVerifyingKey,
    ResponderSignature,
    AcceptedEncoding,
    SynackPayload,
    Synack,
    Ack,
}

impl Field {
    /// Where the field starts.
    pub open spec fn spec_offset(self) -> int {
        match self {
            Field::PrivateCryptKey => PRIVATE_CRYPT_KEY_OFFSET as int,
            Field::PublicCryptKey => PUBLIC_CRYPT_KEY_OFFSET as int,
            Field::SigningKey => SIGNING_KEY_OFFSET as int,
            Field::InitiatorVerifyingKey => INITIATOR_VERIFYING_KEY_OFFSET as int,
            Field::InitiatorSignature => INITIATOR_SIGNATURE_OFFSET as int,
            Field::FirstEncoding => FIRST_ENCODING_OFFSET as int,
            Field::OtherEncodings => OTHER_ENCODINGS_OFFSET as int,
            Field::SynPayload => SYN_PAYLOAD_OFFSET as int,
            Field::Syn => SYN_OFFSET as int,
            Field::ResponderVerifyingKey => RESPONDER_VERIFYING_KEY_OFFSET as int,
            Field::ResponderSignature => RESPONDER_SIGNATURE_OFFSET as int,
            Field::AcceptedEncoding => ACCEPTED_ENCODING_OFFSET as int,
            Field::SynackPayload => SYNACK_PAYLOAD_OFFSET as int,
            Field::Synack => SYNACK_OFFSET as int,
            Field::Ack => ACK_OFFSET as int,
        }
    }

    /// How many bytes the field takes.
    pub open spec fn spec_length(self) -> int {
        match self {
            Field::PrivateCryptKey => PRIVATE_CRYPT_KEY_LENGTH as int,
            Field::PublicCryptKey => PUBLIC_CRYPT_KEY_LENGTH as int,
            Field::SigningKey => SIGNING_KEY_LENGTH as int,
            Field::InitiatorVerifyingKey => VERIFYING_KEY_LENGTH as int,
            Field::InitiatorSignature => SIGNATURE_LENGTH as int,
            Field::FirstEncoding => FIRST_ENCODING_LENGTH as int,
            Field::OtherEncodings => OTHER_ENCODINGS_LENGTH as int,
            Field::SynPayload => SYN_PAYLOAD_LENGTH as int,
            Field::Syn => SYN_LENGTH as int,
            Field::ResponderVerifyingKey => VERIFYING_KEY_LENGTH as int,
            Field::ResponderSignature => SIGNATURE_LENGTH as int,
            Field::AcceptedEncoding => ACCEPTED_ENCODING_LENGTH as int,
            Field::SynackPayload => SYNACK_PAYLOAD_LENGTH as int,
            Field::Synack => SYNACK_LENGTH as int,
            Field::Ack => ACK_LENGTH as int,
        }
    }

    /// The bytes of the field in `buffer`.
    pub open spec fn of(self, buffer: Seq<u8>) -> Seq<u8> {
        field(buffer, self.spec_offset(), self.spec_length())
    }

    /// Where the field starts.
    pub fn offset(self) -> (offset: usize)
        ensures
            offset == self.spec_offset(),
            offset + self.spec_length() <= BUFFER_SIZE,
    {
        match self {
            Field::PrivateCryptKey => PRIVATE_CRYPT_KEY_OFFSET,
            Field::PublicCryptKey => PUBLIC_CRYPT_KEY_OFFSET,
            Field::SigningKey => SIGNING_KEY_OFFSET,
            Field::InitiatorVerifyingKey => INITIATOR_VERIFYING_KEY_OFFSET,
            Field::InitiatorSignature => INITIATOR_SIGNATURE_OFFSET,
            Field::FirstEncoding => FIRST_ENCODING_OFFSET,
            Field::OtherEncodings => OTHER_ENCODINGS_OFFSET,
            Field::SynPayload => SYN_PAYLOAD_OFFSET,
            Field::Syn => SYN_OFFSET,
            Field::ResponderVerifyingKey => RESPONDER_VERIFYING_KEY_OFFSET,
            Field::ResponderSignature => RESPONDER_SIGNATURE_OFFSET,
            Field::AcceptedEncoding => ACCEPTED_ENCODING_OFFSET,
            Field::SynackPayload => SYNACK_PAYLOAD_OFFSET,
            Field::Synack => SYNACK_OFFSET,
            Field::Ack => ACK_OFFSET,
        }
    }

    /// How many bytes the field takes.
    pub fn length(self) -> (length: usize)
        ensures
            length == self.spec_length(),
    {
        match self {
            Field::PrivateCryptKey => PRIVATE_CRYPT_KEY_LENGTH,
            Field::PublicCryptKey => PUBLIC_CRYPT_KEY_LENGTH,
            Field::SigningKey => SIGNING_KEY_LENGTH,
            Field::InitiatorVerifyingKey => VERIFYING_KEY_LENGTH,
            Field::InitiatorSignature => SIGNATURE_LENGTH,
            Field::FirstEncoding => FIRST_ENCODING_LENGTH,
            Field::OtherEncodings => OTHER_ENCODINGS_LENGTH,
            Field::SynPayload => SYN_PAYLOAD_LENGTH,
            Field::Syn => SYN_LENGTH,
            Field::ResponderVerifyingKey => VERIFYING_KEY_LENGTH,
            Field::ResponderSignature => SIGNATURE_LENGTH,
            Field::AcceptedEncoding => ACCEPTED_ENCODING_LENGTH,
            Field::SynackPayload => SYNACK_PAYLOAD_LENGTH,
            Field::Synack => SYNACK_LENGTH,
            Field::Ack => ACK_LENGTH,
        }
    }
}

/// Copies the field `which` out of a buffer of `BUFFER_SIZE` bytes.
pub fn fetch(buffer: &Vec<u8>, which: Field) -> (out: Vec<u8>)
    requires
        buffer@.len() == BUFFER_SIZE,
    ensures
        out@ == which.of(buffer@),
        out@.len() == which.spec_length(),
{
    let offset = which.offset();
    read_field(buffer, offset, which.length())
}

/// Copies `data` into the field `which` of a buffer of `BUFFER_SIZE` bytes.
/// Nothing outside the field changes.
pub fn store(buffer: &mut Vec<u8>, which: Field, data: &[u8])
    requires
        old(buffer)@.len() == BUFFER_SIZE,
        data@.len() == which.spec_length(),
    ensures
        final(buffer)@ == with_field(old(buffer)@, which.spec_offset(), data@),
        final(buffer)@.len() == BUFFER_SIZE,
        which.of(final(buffer)@) == data@,
{
    let offset = which.offset();
    write_field(buffer, offset, data);
    proof {
        lemma_with_field_reads_back(old(buffer)@, which.spec_offset(), data@);
    }
}

} // verus!
