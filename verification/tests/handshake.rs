use ocapn_noise::error::{error_code, status_code, Operation, SessionError};
use ocapn_noise::identity::{identity_of, sign_binding, verify_binding};
use ocapn_noise::layout::{
    Field, ACK_LENGTH, ACK_OFFSET, BUFFER_SIZE, INITIATOR_SIGNATURE_OFFSET,
    INITIATOR_VERIFYING_KEY_OFFSET, PRIVATE_CRYPT_KEY_OFFSET, PUBLIC_CRYPT_KEY_OFFSET,
    RESPONDER_SIGNATURE_OFFSET, RESPONDER_VERIFYING_KEY_OFFSET, SIGNING_KEY_OFFSET,
    SYNACK_LENGTH, SYNACK_OFFSET, SYNACK_PAYLOAD_LENGTH, SYNACK_PAYLOAD_OFFSET, SYN_LENGTH,
    SYN_OFFSET, SYN_PAYLOAD_LENGTH, SYN_PAYLOAD_OFFSET,
};
use ocapn_noise::session::{Phase, Role, Session};

fn hex(text: &str) -> Vec<u8> {
    let digits: Vec<u8> = text
        .bytes()
        .map(|b| match b {
            b'0'..=b'9' => b - b'0',
            b'a'..=b'f' => b - b'a' + 10,
            _ => panic!("not a hex digit"),
        })
        .collect();
    digits.chunks(2).map(|pair| pair[0] * 16 + pair[1]).collect()
}

fn key(text: &str) -> [u8; 32] {
    let mut out = [0u8; 32];
    out.copy_from_slice(&hex(text));
    out
}

fn field(session: &Session, offset: usize, length: usize) -> Vec<u8> {
    session.bytes(offset, length).unwrap()
}

fn carry(from: &Session, to: &mut Session, offset: usize, length: usize) {
    assert!(to.load(offset, &field(from, offset, length)));
}

/// Both sides with their identities, before any handshake step.
fn peers() -> (Session, Session) {
    let mut initiator = Session::new();
    let mut responder = Session::new();
    initiator.generate_initiator_keys();
    responder.generate_responder_keys();
    assert!(initiator.load(224, &[0x01, 0x02, 0x04]));
    assert!(responder.load(512, &[0x02]));
    (initiator, responder)
}

/// Both sides after SYN went over.
fn after_syn() -> (Session, Session) {
    let (mut initiator, mut responder) = peers();
    assert_eq!(initiator.initiator_write_syn(), Ok(()));
    carry(&initiator, &mut responder, SYN_OFFSET, SYN_LENGTH);
    assert_eq!(responder.responder_read_syn(), Ok(()));
    (initiator, responder)
}

/// Both sides after SYNACK was written and carried over, before it is read.
fn synack_in_flight() -> (Session, Session) {
    let (mut initiator, mut responder) = after_syn();
    assert_eq!(responder.responder_write_synack(), Ok(()));
    carry(&responder, &mut initiator, SYNACK_OFFSET, SYNACK_LENGTH);
    (initiator, responder)
}

/// Both sides after ACK was written and carried over, before it is read.
fn ack_in_flight() -> (Session, Session) {
    let (mut initiator, mut responder) = synack_in_flight();
    assert_eq!(initiator.initiator_read_synack(), Ok(()));
    assert_eq!(initiator.initiator_write_ack(), Ok(()));
    carry(&initiator, &mut responder, ACK_OFFSET, ACK_LENGTH);
    (initiator, responder)
}

fn established() -> (Session, Session) {
    let (initiator, mut responder) = ack_in_flight();
    assert_eq!(responder.responder_read_ack(), Ok(()));
    (initiator, responder)
}

fn send_frame(from: &mut Session, to: &mut Session, plaintext: &[u8]) -> Vec<u8> {
    assert!(from.load(0, plaintext));
    let sealed = from.encrypt(plaintext.len()).unwrap();
    assert_eq!(sealed, plaintext.len() + 16);
    carry(from, to, 0, sealed);
    let opened = to.decrypt(sealed).unwrap();
    field(to, 0, opened)
}

#[test]
fn new_session_is_blank() {
    let session = Session::new();
    assert_eq!(session.phase(), Phase::Uninitialized);
    assert_eq!(session.role(), None);
    assert!(!session.is_handshaking());
    assert!(!session.is_transport());
    assert_eq!(session.remote_static_key(), None);
    assert_eq!(session.remote_identity(), None);
    assert_eq!(session.send_counter(), None);
    assert_eq!(session.recv_counter(), None);
    assert_eq!(session.buffer().len(), BUFFER_SIZE);
    assert!(session.buffer().iter().all(|b| *b == 0));
}

#[test]
fn load_and_bytes_respect_the_buffer_bounds() {
    let mut session = Session::new();
    assert!(session.load(10, &[1, 2, 3]));
    assert_eq!(session.bytes(9, 5), Some(vec![0, 1, 2, 3, 0]));
    assert_eq!(&session.buffer()[9..14], &[0, 1, 2, 3, 0]);
    assert!(session.load(BUFFER_SIZE - 2, &[7, 8]));
    assert_eq!(session.bytes(BUFFER_SIZE - 2, 2), Some(vec![7, 8]));
    assert!(session.load(BUFFER_SIZE, &[]));
    assert_eq!(session.bytes(BUFFER_SIZE, 0), Some(vec![]));
    let before = session.buffer().to_vec();
    assert!(!session.load(BUFFER_SIZE - 1, &[7, 8]));
    assert!(!session.load(usize::MAX, &[7]));
    assert_eq!(session.buffer(), &before[..]);
    assert_eq!(session.bytes(BUFFER_SIZE - 1, 2), None);
    assert_eq!(session.bytes(usize::MAX, 2), None);
    assert_eq!(session.bytes(2, usize::MAX), None);
}

#[test]
fn install_signing_key_writes_key_and_identity() {
    let secret = key("9d61b19deffd5a60ba844af492ec2cc44449c5697b326919703bac031cae7f60");
    let public = hex("d75a980182b10ab7d54bfed3c964073a0ee172f3daa62325af021a68f707511a");
    let mut initiator = Session::new();
    initiator.install_signing_key(Role::Initiator, &secret);
    assert_eq!(field(&initiator, SIGNING_KEY_OFFSET, 32), secret.to_vec());
    assert_eq!(field(&initiator, INITIATOR_VERIFYING_KEY_OFFSET, 32), public);
    assert_eq!(field(&initiator, RESPONDER_VERIFYING_KEY_OFFSET, 32), vec![0u8; 32]);
    assert_eq!(initiator.phase(), Phase::Uninitialized);
    let mut responder = Session::new();
    responder.install_signing_key(Role::Responder, &secret);
    assert_eq!(field(&responder, SIGNING_KEY_OFFSET, 32), secret.to_vec());
    assert_eq!(field(&responder, RESPONDER_VERIFYING_KEY_OFFSET, 32), public);
    assert_eq!(field(&responder, INITIATOR_VERIFYING_KEY_OFFSET, 32), vec![0u8; 32]);
}

#[test]
fn generated_keys_belong_together_and_change_nothing_else() {
    let mut session = Session::new();
    assert!(session.load(200, &[9, 9, 9]));
    session.generate_initiator_keys();
    let secret = field(&session, SIGNING_KEY_OFFSET, 32);
    assert_ne!(secret, vec![0u8; 32]);
    assert_eq!(
        field(&session, INITIATOR_VERIFYING_KEY_OFFSET, 32),
        identity_of(&secret).unwrap().to_vec()
    );
    let mut expected = vec![0u8; BUFFER_SIZE];
    expected[200..203].copy_from_slice(&[9, 9, 9]);
    expected[64..96].copy_from_slice(&secret);
    expected[128..160].copy_from_slice(&identity_of(&secret).unwrap());
    assert_eq!(session.buffer(), &expected[..]);
    assert_eq!(session.phase(), Phase::Uninitialized);
    assert_eq!(session.role(), None);

    let mut other = Session::new();
    other.generate_responder_keys();
    let other_secret = field(&other, SIGNING_KEY_OFFSET, 32);
    assert_ne!(other_secret, secret);
    assert_eq!(
        field(&other, RESPONDER_VERIFYING_KEY_OFFSET, 32),
        identity_of(&other_secret).unwrap().to_vec()
    );
    assert_eq!(field(&other, INITIATOR_VERIFYING_KEY_OFFSET, 32), vec![0u8; 32]);
}

#[test]
fn generating_keys_twice_replaces_the_identity() {
    let mut session = Session::new();
    session.generate_signing_keys(Role::Responder);
    let first = field(&session, SIGNING_KEY_OFFSET, 32);
    session.generate_signing_keys(Role::Responder);
    let second = field(&session, SIGNING_KEY_OFFSET, 32);
    assert_ne!(first, second);
    assert_eq!(
        field(&session, RESPONDER_VERIFYING_KEY_OFFSET, 32),
        identity_of(&second).unwrap().to_vec()
    );
}

#[test]
fn write_syn_with_known_transport_key() {
    let private = key("77076d0a7318a57d3c16c17251b26645df4c2f87ebc0992ab177fba51db92c2a");
    let public = hex("8520f0098930a754748b7ddcb43ef75a0dbf3a0d26381af4eba4a98eaa9b4e6a");
    let secret = key("9d61b19deffd5a60ba844af492ec2cc44449c5697b326919703bac031cae7f60");
    let mut session = Session::new();
    session.install_signing_key(Role::Initiator, &secret);
    let before = session.buffer().to_vec();
    assert_eq!(session.initiator_write_syn_with(&private), Ok(()));
    assert_eq!(session.phase(), Phase::SynSent);
    assert_eq!(session.role(), Some(Role::Initiator));
    assert!(session.is_handshaking());
    assert!(!session.is_transport());
    assert_eq!(field(&session, PRIVATE_CRYPT_KEY_OFFSET, 32), private.to_vec());
    assert_eq!(field(&session, PUBLIC_CRYPT_KEY_OFFSET, 32), public);
    let signature = field(&session, INITIATOR_SIGNATURE_OFFSET, 64);
    assert_eq!(signature, sign_binding(&secret, &public).unwrap().to_vec());
    assert_eq!(
        verify_binding(&public, &field(&session, INITIATOR_VERIFYING_KEY_OFFSET, 32), &signature),
        Ok(())
    );
    // The first message of the pattern carries its payload in the clear
    // behind the engine's ephemeral key.
    let message = field(&session, SYN_OFFSET, SYN_LENGTH);
    assert_eq!(&message[32..], &field(&session, SYN_PAYLOAD_OFFSET, SYN_PAYLOAD_LENGTH)[..]);
    assert_ne!(&message[..32], &[0u8; 32][..]);
    // Nothing but the key pair, the signature and the message has changed.
    let mut expected = before;
    expected[0..32].copy_from_slice(&private);
    expected[32..64].copy_from_slice(&public);
    expected[160..224].copy_from_slice(&signature);
    expected[256..388].copy_from_slice(&message);
    assert_eq!(session.buffer(), &expected[..]);
}

#[test]
fn write_syn_with_basepoint_scalar() {
    let mut private = [0u8; 32];
    private[0] = 9;
    let mut session = Session::new();
    assert_eq!(session.initiator_write_syn_with(&private), Ok(()));
    assert_eq!(
        field(&session, PUBLIC_CRYPT_KEY_OFFSET, 32),
        hex("422c8e7a6227d7bca1350b3e2bb7279f7897b87bb6854b783c60e80311ae3079")
    );
}

#[test]
fn read_syn_with_known_transport_key() {
    let private = key("5dab087e624a8a4b79e17f8b83800ee66f3bb1292618b6fd1c2f8b27ff88e0eb");
    let public = hex("de9edb7d7b7dc1b4d35b61c2ece435373f8343c85b78674dadfc7e146f882b4f");
    let (mut initiator, mut responder) = peers();
    assert_eq!(initiator.initiator_write_syn(), Ok(()));
    carry(&initiator, &mut responder, SYN_OFFSET, SYN_LENGTH);
    let before = responder.buffer().to_vec();
    assert_eq!(responder.responder_read_syn_with(&private), Ok(()));
    assert_eq!(responder.phase(), Phase::SynReceived);
    assert_eq!(responder.role(), Some(Role::Responder));
    assert_eq!(field(&responder, PRIVATE_CRYPT_KEY_OFFSET, 32), private.to_vec());
    assert_eq!(field(&responder, PUBLIC_CRYPT_KEY_OFFSET, 32), public);
    let secret = field(&responder, SIGNING_KEY_OFFSET, 32);
    let signature = field(&responder, RESPONDER_SIGNATURE_OFFSET, 64);
    assert_eq!(signature, sign_binding(&secret, &public).unwrap().to_vec());
    assert_eq!(
        verify_binding(&public, &field(&responder, RESPONDER_VERIFYING_KEY_OFFSET, 32), &signature),
        Ok(())
    );
    let payload = field(&initiator, SYN_PAYLOAD_OFFSET, SYN_PAYLOAD_LENGTH);
    assert_eq!(field(&responder, SYN_PAYLOAD_OFFSET, SYN_PAYLOAD_LENGTH), payload);
    let mut expected = before;
    expected[0..32].copy_from_slice(&private);
    expected[32..64].copy_from_slice(&public);
    expected[448..512].copy_from_slice(&signature);
    expected[128..228].copy_from_slice(&payload);
    assert_eq!(responder.buffer(), &expected[..]);
}

#[test]
fn honest_handshake_completes_on_both_sides() {
    let (mut initiator, mut responder) = peers();

    assert_eq!(initiator.initiator_write_syn(), Ok(()));
    assert_eq!(initiator.phase(), Phase::SynSent);
    carry(&initiator, &mut responder, SYN_OFFSET, SYN_LENGTH);

    assert_eq!(responder.responder_read_syn(), Ok(()));
    assert_eq!(responder.phase(), Phase::SynReceived);
    assert_eq!(&field(&responder, 224, 3), &[0x01, 0x02, 0x04]);

    assert_eq!(responder.responder_write_synack(), Ok(()));
    assert_eq!(responder.phase(), Phase::SynAckSent);
    carry(&responder, &mut initiator, SYNACK_OFFSET, SYNACK_LENGTH);

    assert_eq!(initiator.initiator_read_synack(), Ok(()));
    assert_eq!(initiator.phase(), Phase::SynAckReceived);
    assert_eq!(
        field(&initiator, SYNACK_PAYLOAD_OFFSET, SYNACK_PAYLOAD_LENGTH),
        field(&responder, SYNACK_PAYLOAD_OFFSET, SYNACK_PAYLOAD_LENGTH)
    );
    assert_eq!(&field(&initiator, 512, 1), &[0x02]);
    assert!(initiator.is_handshaking());
    assert!(!initiator.is_transport());

    assert_eq!(initiator.initiator_write_ack(), Ok(()));
    assert_eq!(initiator.phase(), Phase::Complete);
    assert!(initiator.is_transport());
    assert!(!initiator.is_handshaking());
    carry(&initiator, &mut responder, ACK_OFFSET, ACK_LENGTH);

    assert_eq!(responder.responder_read_ack(), Ok(()));
    assert_eq!(responder.phase(), Phase::Complete);
    assert!(responder.is_transport());
    assert!(!responder.is_handshaking());

    assert_eq!(initiator.role(), Some(Role::Initiator));
    assert_eq!(responder.role(), Some(Role::Responder));
    assert_eq!(initiator.send_counter(), Some(0));
    assert_eq!(initiator.recv_counter(), Some(0));
    assert_eq!(responder.send_counter(), Some(0));
    assert_eq!(responder.recv_counter(), Some(0));

    // Each side knows the other's transport key and identity.
    assert_eq!(
        initiator.remote_static_key().unwrap().to_vec(),
        field(&responder, PUBLIC_CRYPT_KEY_OFFSET, 32)
    );
    assert_eq!(
        responder.remote_static_key().unwrap().to_vec(),
        field(&initiator, PUBLIC_CRYPT_KEY_OFFSET, 32)
    );
    assert_eq!(
        initiator.remote_identity().unwrap().to_vec(),
        field(&responder, RESPONDER_VERIFYING_KEY_OFFSET, 32)
    );
    assert_eq!(
        responder.remote_identity().unwrap().to_vec(),
        field(&initiator, INITIATOR_VERIFYING_KEY_OFFSET, 32)
    );

    // What one side encrypts the other decrypts, both ways.
    let there = b"from initiator to responder".to_vec();
    assert_eq!(send_frame(&mut initiator, &mut responder, &there), there);
    let back = b"from responder to initiator".to_vec();
    assert_eq!(send_frame(&mut responder, &mut initiator, &back), back);
}

#[test]
fn honest_handshake_status_codes_are_zero() {
    let (mut initiator, mut responder) = peers();
    assert_eq!(status_code(Operation::InitiatorWriteSyn, initiator.initiator_write_syn()), 0);
    carry(&initiator, &mut responder, SYN_OFFSET, SYN_LENGTH);
    assert_eq!(status_code(Operation::ResponderReadSyn, responder.responder_read_syn()), 0);
    assert_eq!(
        status_code(Operation::ResponderWriteSynack, responder.responder_write_synack()),
        0
    );
    carry(&responder, &mut initiator, SYNACK_OFFSET, SYNACK_LENGTH);
    assert_eq!(
        status_code(Operation::InitiatorReadSynack, initiator.initiator_read_synack()),
        0
    );
    assert_eq!(status_code(Operation::InitiatorWriteAck, initiator.initiator_write_ack()), 0);
    carry(&initiator, &mut responder, ACK_OFFSET, ACK_LENGTH);
    assert_eq!(status_code(Operation::ResponderReadAck, responder.responder_read_ack()), 0);
}

#[test]
fn handshake_with_given_keys_completes() {
    let mut initiator = Session::new();
    let mut responder = Session::new();
    initiator.install_signing_key(Role::Initiator, &[0x11; 32]);
    responder.install_signing_key(Role::Responder, &[0x22; 32]);
    assert_eq!(initiator.initiator_write_syn_with(&[0x33; 32]), Ok(()));
    carry(&initiator, &mut responder, SYN_OFFSET, SYN_LENGTH);
    assert_eq!(responder.responder_read_syn_with(&[0x44; 32]), Ok(()));
    assert_eq!(responder.responder_write_synack(), Ok(()));
    carry(&responder, &mut initiator, SYNACK_OFFSET, SYNACK_LENGTH);
    assert_eq!(initiator.initiator_read_synack(), Ok(()));
    assert_eq!(initiator.initiator_write_ack(), Ok(()));
    carry(&initiator, &mut responder, ACK_OFFSET, ACK_LENGTH);
    assert_eq!(responder.responder_read_ack(), Ok(()));
    assert_eq!(
        initiator.remote_identity().unwrap(),
        identity_of(&[0x22; 32]).unwrap()
    );
    assert_eq!(
        responder.remote_identity().unwrap(),
        identity_of(&[0x11; 32]).unwrap()
    );
    let text = vec![0xabu8; 300];
    assert_eq!(send_frame(&mut responder, &mut initiator, &text), text);
}

#[test]
fn wire_messages_have_their_fixed_lengths() {
    assert_eq!(SYN_LENGTH, 132);
    assert_eq!(SYNACK_LENGTH, 193);
    assert_eq!(ACK_LENGTH, 64);
    assert_eq!(SYN_PAYLOAD_LENGTH, 100);
    assert_eq!(SYNACK_PAYLOAD_LENGTH, 97);

    let (mut initiator, mut responder) = peers();
    let clean = |session: &Session, from: usize, to: usize| {
        session.buffer()[from..to].iter().all(|b| *b == 0)
    };
    assert!(clean(&initiator, 228, BUFFER_SIZE));
    assert_eq!(initiator.initiator_write_syn(), Ok(()));
    assert!(clean(&initiator, 228, 256));
    assert!(!clean(&initiator, 256, 288));
    assert!(clean(&initiator, 388, BUFFER_SIZE));
    carry(&initiator, &mut responder, SYN_OFFSET, SYN_LENGTH);
    assert_eq!(responder.responder_read_syn(), Ok(()));
    assert!(clean(&responder, 513, BUFFER_SIZE));
    assert_eq!(responder.responder_write_synack(), Ok(()));
    assert!(clean(&responder, 513, 544));
    assert!(!clean(&responder, 544 + 177, 544 + 193));
    assert!(clean(&responder, 737, BUFFER_SIZE));
    carry(&responder, &mut initiator, SYNACK_OFFSET, SYNACK_LENGTH);
    assert_eq!(initiator.initiator_read_synack(), Ok(()));
    assert!(clean(&initiator, 737, BUFFER_SIZE));
    assert_eq!(initiator.initiator_write_ack(), Ok(()));
    assert!(clean(&initiator, 737, 768));
    assert!(!clean(&initiator, 768 + 48, 768 + 64));
    assert!(clean(&initiator, 832, BUFFER_SIZE));
}

#[test]
fn tampered_responder_signature_fails_the_binding() {
    for index in 0..64 {
        let (mut initiator, mut responder) = after_syn();
        let mut byte = field(&responder, RESPONDER_SIGNATURE_OFFSET + index, 1);
        byte[0] ^= 1 << (index % 8);
        assert!(responder.load(RESPONDER_SIGNATURE_OFFSET + index, &byte));
        assert_eq!(responder.responder_write_synack(), Ok(()));
        carry(&responder, &mut initiator, SYNACK_OFFSET, SYNACK_LENGTH);
        let outcome = initiator.initiator_read_synack();
        assert_eq!(outcome, Err(SessionError::BindingVerificationFailure), "byte {}", index);
        assert_eq!(status_code(Operation::InitiatorReadSynack, outcome), 6);
        assert_eq!(initiator.phase(), Phase::Failed);
        assert!(!initiator.is_transport());
        assert!(!initiator.is_handshaking());
        assert_eq!(initiator.remote_identity(), None);
        assert_eq!(
            initiator.remote_static_key().unwrap().to_vec(),
            field(&responder, PUBLIC_CRYPT_KEY_OFFSET, 32)
        );
        // A failed session takes no further step and never gets ciphers.
        assert_eq!(initiator.initiator_write_ack(), Err(SessionError::PreconditionViolation));
        assert_eq!(initiator.encrypt(4), Err(SessionError::PreconditionViolation));
        assert_eq!(initiator.decrypt(20), Err(SessionError::PreconditionViolation));
        assert!(!initiator.is_transport());
    }
}

#[test]
fn tampered_initiator_signature_fails_the_binding() {
    for index in 0..64 {
        let (_initiator, mut responder) = ack_in_flight();
        let mut byte = field(&responder, INITIATOR_SIGNATURE_OFFSET + index, 1);
        byte[0] ^= 0x80 >> (index % 8);
        assert!(responder.load(INITIATOR_SIGNATURE_OFFSET + index, &byte));
        let outcome = responder.responder_read_ack();
        assert_eq!(outcome, Err(SessionError::BindingVerificationFailure), "byte {}", index);
        assert_eq!(status_code(Operation::ResponderReadAck, outcome), 6);
        assert_eq!(responder.phase(), Phase::Failed);
        assert!(!responder.is_transport());
        assert!(!responder.is_handshaking());
        assert_eq!(responder.remote_identity(), None);
        assert_eq!(responder.encrypt(4), Err(SessionError::PreconditionViolation));
        assert_eq!(responder.responder_read_ack(), Err(SessionError::PreconditionViolation));
    }
}

#[test]
fn foreign_identity_fails_the_binding() {
    let (mut initiator, mut responder) = after_syn();
    let stranger = identity_of(&[0x5a; 32]).unwrap();
    assert!(responder.load(RESPONDER_VERIFYING_KEY_OFFSET, &stranger));
    assert_eq!(responder.responder_write_synack(), Ok(()));
    carry(&responder, &mut initiator, SYNACK_OFFSET, SYNACK_LENGTH);
    assert_eq!(
        initiator.initiator_read_synack(),
        Err(SessionError::BindingVerificationFailure)
    );
}

#[test]
fn malformed_responder_identity_is_reported() {
    let (mut initiator, mut responder) = after_syn();
    // y = 2 is the y-coordinate of no point of the curve.
    let mut off_curve = [0u8; 32];
    off_curve[0] = 2;
    assert!(responder.load(RESPONDER_VERIFYING_KEY_OFFSET, &off_curve));
    assert_eq!(responder.responder_write_synack(), Ok(()));
    carry(&responder, &mut initiator, SYNACK_OFFSET, SYNACK_LENGTH);
    let outcome = initiator.initiator_read_synack();
    assert_eq!(outcome, Err(SessionError::MalformedVerifyingKey));
    assert_eq!(status_code(Operation::InitiatorReadSynack, outcome), 5);
    assert_eq!(initiator.phase(), Phase::Failed);
}

#[test]
fn malformed_initiator_identity_is_reported() {
    let (_initiator, mut responder) = ack_in_flight();
    let mut off_curve = [0u8; 32];
    off_curve[0] = 2;
    assert!(responder.load(INITIATOR_VERIFYING_KEY_OFFSET, &off_curve));
    let outcome = responder.responder_read_ack();
    assert_eq!(outcome, Err(SessionError::MalformedVerifyingKey));
    assert_eq!(status_code(Operation::ResponderReadAck, outcome), 5);
    assert_eq!(responder.phase(), Phase::Failed);
    assert!(!responder.is_transport());
}

#[test]
fn garbled_synack_is_rejected_by_the_engine() {
    let (mut initiator, _responder) = synack_in_flight();
    let mut byte = field(&initiator, SYNACK_OFFSET + 100, 1);
    byte[0] ^= 0x10;
    assert!(initiator.load(SYNACK_OFFSET + 100, &byte));
    let before = initiator.buffer().to_vec();
    let outcome = initiator.initiator_read_synack();
    assert_eq!(outcome, Err(SessionError::EngineRejection));
    assert_eq!(status_code(Operation::InitiatorReadSynack, outcome), 2);
    assert_eq!(initiator.phase(), Phase::Failed);
    assert!(!initiator.is_handshaking());
    assert!(!initiator.is_transport());
    assert_eq!(initiator.buffer(), &before[..]);
    assert_eq!(initiator.remote_static_key(), None);
    assert_eq!(initiator.initiator_read_synack(), Err(SessionError::PreconditionViolation));
    assert_eq!(initiator.initiator_write_ack(), Err(SessionError::PreconditionViolation));
}

#[test]
fn garbled_ack_is_rejected_by_the_engine() {
    let (_initiator, mut responder) = ack_in_flight();
    let mut byte = field(&responder, ACK_OFFSET + 63, 1);
    byte[0] ^= 0x01;
    assert!(responder.load(ACK_OFFSET + 63, &byte));
    let before = responder.buffer().to_vec();
    let outcome = responder.responder_read_ack();
    assert_eq!(outcome, Err(SessionError::EngineRejection));
    assert_eq!(status_code(Operation::ResponderReadAck, outcome), 2);
    assert_eq!(responder.phase(), Phase::Failed);
    assert!(!responder.is_handshaking());
    assert!(!responder.is_transport());
    assert_eq!(responder.remote_static_key(), None);
    assert_eq!(responder.buffer(), &before[..]);
}

#[test]
fn write_synack_before_read_syn_is_refused() {
    let mut responder = Session::new();
    responder.generate_responder_keys();
    let before = responder.buffer().to_vec();
    let outcome = responder.responder_write_synack();
    assert_eq!(outcome, Err(SessionError::PreconditionViolation));
    assert_eq!(status_code(Operation::ResponderWriteSynack, outcome), 1);
    assert_eq!(responder.buffer(), &before[..]);
    assert_eq!(responder.phase(), Phase::Uninitialized);
    assert_eq!(responder.role(), None);
    assert!(!responder.is_handshaking());
    // The session is still fit for its first step.
    let (mut initiator, _) = peers();
    assert_eq!(initiator.initiator_write_syn(), Ok(()));
    carry(&initiator, &mut responder, SYN_OFFSET, SYN_LENGTH);
    assert_eq!(responder.responder_read_syn(), Ok(()));
    assert_eq!(responder.responder_write_synack(), Ok(()));
}

fn assert_refuses_all_but(session: &mut Session, allowed: &[Operation]) {
    let steps: [(Operation, fn(&mut Session) -> Result<(), SessionError>); 6] = [
        (Operation::InitiatorWriteSyn, |s| s.initiator_write_syn()),
        (Operation::ResponderReadSyn, |s| s.responder_read_syn()),
        (Operation::ResponderWriteSynack, |s| s.responder_write_synack()),
        (Operation::InitiatorReadSynack, |s| s.initiator_read_synack()),
        (Operation::InitiatorWriteAck, |s| s.initiator_write_ack()),
        (Operation::ResponderReadAck, |s| s.responder_read_ack()),
    ];
    for (operation, step) in steps {
        if allowed.contains(&operation) {
            continue;
        }
        let buffer = session.buffer().to_vec();
        let phase = session.phase();
        let role = session.role();
        assert_eq!(step(session), Err(SessionError::PreconditionViolation), "{:?}", operation);
        assert_eq!(session.buffer(), &buffer[..]);
        assert_eq!(session.phase(), phase);
        assert_eq!(session.role(), role);
    }
}

#[test]
fn steps_out_of_order_are_refused_and_change_nothing() {
    let mut blank = Session::new();
    assert_refuses_all_but(
        &mut blank,
        &[Operation::InitiatorWriteSyn, Operation::ResponderReadSyn],
    );

    let (mut initiator, mut responder) = peers();
    assert_eq!(initiator.initiator_write_syn(), Ok(()));
    assert_refuses_all_but(&mut initiator, &[Operation::InitiatorReadSynack]);
    carry(&initiator, &mut responder, SYN_OFFSET, SYN_LENGTH);
    assert_eq!(responder.responder_read_syn(), Ok(()));
    assert_refuses_all_but(&mut responder, &[Operation::ResponderWriteSynack]);
    assert_eq!(responder.responder_write_synack(), Ok(()));
    assert_refuses_all_but(&mut responder, &[Operation::ResponderReadAck]);
    carry(&responder, &mut initiator, SYNACK_OFFSET, SYNACK_LENGTH);
    assert_eq!(initiator.initiator_read_synack(), Ok(()));
    assert_refuses_all_but(&mut initiator, &[Operation::InitiatorWriteAck]);
    assert_eq!(initiator.initiator_write_ack(), Ok(()));
    assert_refuses_all_but(&mut initiator, &[]);
    carry(&initiator, &mut responder, ACK_OFFSET, ACK_LENGTH);
    assert_eq!(responder.responder_read_ack(), Ok(()));
    assert_refuses_all_but(&mut responder, &[]);
    assert!(initiator.is_transport());
    assert!(responder.is_transport());
}

#[test]
fn a_second_first_step_is_refused() {
    let mut session = Session::new();
    assert_eq!(session.initiator_write_syn(), Ok(()));
    let buffer = session.buffer().to_vec();
    let again = session.initiator_write_syn_with(&[7; 32]);
    assert_eq!(again, Err(SessionError::PreconditionViolation));
    assert_eq!(status_code(Operation::InitiatorWriteSyn, again), 2);
    let other = session.responder_read_syn_with(&[7; 32]);
    assert_eq!(other, Err(SessionError::PreconditionViolation));
    assert_eq!(status_code(Operation::ResponderReadSyn, other), 3);
    assert_eq!(session.buffer(), &buffer[..]);
    assert_eq!(session.phase(), Phase::SynSent);
    assert_eq!(session.role(), Some(Role::Initiator));
}

#[test]
fn transport_before_the_handshake_is_refused() {
    let mut session = Session::new();
    assert!(session.load(0, b"plain"));
    let before = session.buffer().to_vec();
    let sealed = session.encrypt(5);
    assert_eq!(sealed, Err(SessionError::PreconditionViolation));
    assert_eq!(error_code(Operation::Encrypt, sealed.unwrap_err()), 1);
    let opened = session.decrypt(21);
    assert_eq!(opened, Err(SessionError::PreconditionViolation));
    assert_eq!(error_code(Operation::Decrypt, opened.unwrap_err()), 1);
    assert_eq!(session.buffer(), &before[..]);
    let (mut initiator, _responder) = synack_in_flight();
    assert_eq!(initiator.encrypt(5), Err(SessionError::PreconditionViolation));
    assert_eq!(initiator.decrypt(21), Err(SessionError::PreconditionViolation));
}

#[test]
fn frames_round_trip_at_every_size() {
    let (mut initiator, mut responder) = established();
    for (round, size) in [0usize, 1, 1000, 65000 - 16].into_iter().enumerate() {
        let plaintext: Vec<u8> = (0..size).map(|i| (i * 7 + round) as u8).collect();
        assert_eq!(initiator.send_counter(), Some(round as u64));
        assert_eq!(responder.recv_counter(), Some(round as u64));
        assert!(initiator.load(0, &plaintext));
        assert_eq!(initiator.encrypt(size), Ok(size + 16));
        let frame = field(&initiator, 0, size + 16);
        if size > 0 {
            assert_ne!(&frame[..size], &plaintext[..]);
        }
        assert!(responder.load(0, &frame));
        assert_eq!(responder.decrypt(size + 16), Ok(size));
        assert_eq!(field(&responder, 0, size), plaintext);
        assert_eq!(initiator.send_counter(), Some(round as u64 + 1));
        assert_eq!(responder.recv_counter(), Some(round as u64 + 1));
    }
    assert_eq!(initiator.recv_counter(), Some(0));
    assert_eq!(responder.send_counter(), Some(0));
    for size in [0usize, 1, 1000, 65000 - 16] {
        let plaintext: Vec<u8> = (0..size).map(|i| (i * 13 + 5) as u8).collect();
        assert_eq!(send_frame(&mut responder, &mut initiator, &plaintext), plaintext);
    }
}

#[test]
fn encrypt_changes_the_frame_and_nothing_behind_it() {
    let (mut initiator, _responder) = established();
    let before = initiator.buffer().to_vec();
    assert_eq!(initiator.encrypt(100), Ok(116));
    assert_ne!(&initiator.buffer()[..116], &before[..116]);
    assert_eq!(&initiator.buffer()[116..], &before[116..]);
    assert_eq!(initiator.phase(), Phase::Complete);
}

#[test]
fn decrypt_keeps_the_tag_and_what_lies_behind_it() {
    let (mut initiator, mut responder) = established();
    assert!(initiator.load(0, &[0x42; 50]));
    assert_eq!(initiator.encrypt(50), Ok(66));
    carry(&initiator, &mut responder, 0, 66);
    let before = responder.buffer().to_vec();
    assert_eq!(responder.decrypt(66), Ok(50));
    assert_eq!(&responder.buffer()[..50], &[0x42; 50][..]);
    assert_eq!(&responder.buffer()[50..], &before[50..]);
}

#[test]
fn frames_in_swapped_order_fail_authentication() {
    let (mut initiator, mut responder) = established();
    assert!(initiator.load(0, b"first frame"));
    assert_eq!(initiator.encrypt(11), Ok(27));
    let first = field(&initiator, 0, 27);
    assert!(initiator.load(0, b"second frame"));
    assert_eq!(initiator.encrypt(12), Ok(28));
    let second = field(&initiator, 0, 28);

    assert!(responder.load(0, &second));
    let early = responder.decrypt(28);
    assert_eq!(early, Err(SessionError::EngineRejection));
    assert_eq!(error_code(Operation::Decrypt, early.unwrap_err()), 2);
    // The rejected frame was not touched and the stream did not move.
    assert_eq!(field(&responder, 0, 28), second);
    assert_eq!(responder.recv_counter(), Some(0));
    assert_eq!(responder.phase(), Phase::Complete);

    // In the order in which they were made the frames still open.
    assert!(responder.load(0, &first));
    assert_eq!(responder.decrypt(27), Ok(11));
    assert_eq!(&field(&responder, 0, 11), b"first frame");
    assert!(responder.load(0, &second));
    assert_eq!(responder.decrypt(28), Ok(12));
    assert_eq!(&field(&responder, 0, 12), b"second frame");
    // A frame that was opened once does not open again.
    assert!(responder.load(0, &second));
    assert_eq!(responder.decrypt(28), Err(SessionError::EngineRejection));
}

#[test]
fn a_dropped_frame_desynchronizes_the_streams() {
    let (mut initiator, mut responder) = established();
    assert!(initiator.load(0, b"lost"));
    assert_eq!(initiator.encrypt(4), Ok(20));
    assert!(initiator.load(0, b"kept"));
    assert_eq!(initiator.encrypt(4), Ok(20));
    carry(&initiator, &mut responder, 0, 20);
    assert_eq!(responder.decrypt(20), Err(SessionError::EngineRejection));
}

#[test]
fn a_tampered_frame_is_rejected() {
    let (mut initiator, mut responder) = established();
    assert!(initiator.load(0, b"payload"));
    assert_eq!(initiator.encrypt(7), Ok(23));
    for index in 0..23 {
        let mut frame = field(&initiator, 0, 23);
        frame[index] ^= 0x04;
        assert!(responder.load(0, &frame));
        assert_eq!(responder.decrypt(23), Err(SessionError::EngineRejection));
        assert_eq!(field(&responder, 0, 23), frame);
    }
    carry(&initiator, &mut responder, 0, 23);
    assert_eq!(responder.decrypt(23), Ok(7));
}

#[test]
fn a_frame_does_not_open_on_the_wrong_stream() {
    let (mut initiator, _responder) = established();
    assert!(initiator.load(0, b"to the peer"));
    assert_eq!(initiator.encrypt(11), Ok(27));
    assert_eq!(initiator.decrypt(27), Err(SessionError::EngineRejection));
}

#[test]
fn lengths_that_do_not_fit_are_rejected() {
    let (mut initiator, mut responder) = established();
    let before = initiator.buffer().to_vec();
    for length in [BUFFER_SIZE - 15, BUFFER_SIZE, BUFFER_SIZE + 1, usize::MAX] {
        let outcome = initiator.encrypt(length);
        assert_eq!(outcome, Err(SessionError::EngineRejection));
        assert_eq!(error_code(Operation::Encrypt, outcome.unwrap_err()), 2);
    }
    assert_eq!(initiator.buffer(), &before[..]);
    assert_eq!(initiator.send_counter(), Some(0));
    assert_eq!(initiator.encrypt(BUFFER_SIZE - 16), Ok(BUFFER_SIZE));
    for length in [0usize, 1, 15, BUFFER_SIZE + 1, usize::MAX] {
        assert_eq!(responder.decrypt(length), Err(SessionError::EngineRejection));
    }
    assert_eq!(responder.recv_counter(), Some(0));
    carry(&initiator, &mut responder, 0, BUFFER_SIZE);
    assert_eq!(responder.decrypt(BUFFER_SIZE), Ok(BUFFER_SIZE - 16));
    assert_eq!(&responder.buffer()[..BUFFER_SIZE - 16], &before[..BUFFER_SIZE - 16]);
}

#[test]
fn fields_are_read_and_stored_by_name() {
    let (mut initiator, mut responder) = peers();
    assert_eq!(initiator.initiator_write_syn(), Ok(()));
    let message = initiator.field(Field::Syn);
    assert_eq!(message.len(), 132);
    assert_eq!(message, field(&initiator, SYN_OFFSET, SYN_LENGTH));
    assert_eq!(
        initiator.field(Field::SynPayload),
        field(&initiator, SYN_PAYLOAD_OFFSET, SYN_PAYLOAD_LENGTH)
    );
    assert_eq!(
        initiator.field(Field::PublicCryptKey),
        field(&initiator, PUBLIC_CRYPT_KEY_OFFSET, 32)
    );
    assert_eq!(initiator.field(Field::FirstEncoding), vec![0x01, 0x02]);
    assert_eq!(initiator.field(Field::OtherEncodings), vec![0x04]);

    let before = responder.buffer().to_vec();
    assert!(!responder.store_field(Field::Syn, &message[..131]));
    assert!(!responder.store_field(Field::Syn, &[]));
    assert!(!responder.store_field(Field::Ack, &message));
    assert_eq!(responder.buffer(), &before[..]);
    assert!(responder.store_field(Field::Syn, &message));
    let mut expected = before;
    expected[256..388].copy_from_slice(&message);
    assert_eq!(responder.buffer(), &expected[..]);
    assert_eq!(responder.responder_read_syn(), Ok(()));
    assert_eq!(responder.field(Field::SynPayload), initiator.field(Field::SynPayload));
    assert_eq!(responder.field(Field::AcceptedEncoding), vec![0x02]);
    assert!(responder.store_field(Field::AcceptedEncoding, &[0x01]));
    assert_eq!(responder.field(Field::AcceptedEncoding), vec![0x01]);
}

#[test]
fn handshake_through_named_fields_pairs_the_streams() {
    let (mut initiator, mut responder) = peers();
    assert_eq!(initiator.initiator_write_syn(), Ok(()));
    assert!(responder.store_field(Field::Syn, &initiator.field(Field::Syn)));
    assert_eq!(responder.responder_read_syn(), Ok(()));
    assert_eq!(responder.responder_write_synack(), Ok(()));
    assert!(initiator.store_field(Field::Synack, &responder.field(Field::Synack)));
    assert_eq!(initiator.initiator_read_synack(), Ok(()));
    assert_eq!(initiator.initiator_write_ack(), Ok(()));
    assert!(responder.store_field(Field::Ack, &initiator.field(Field::Ack)));
    assert_eq!(responder.responder_read_ack(), Ok(()));

    // Initiator to responder.
    assert!(initiator.load(0, &[1, 2, 3]));
    assert_eq!(initiator.encrypt(3), Ok(19));
    carry(&initiator, &mut responder, 0, 19);
    assert_eq!(responder.decrypt(19), Ok(3));
    assert_eq!(&responder.buffer()[..3], &[1, 2, 3]);
    // Responder to initiator.
    assert!(responder.load(0, &[4, 5, 6]));
    assert_eq!(responder.encrypt(3), Ok(19));
    carry(&responder, &mut initiator, 0, 19);
    assert_eq!(initiator.decrypt(19), Ok(3));
    assert_eq!(&initiator.buffer()[..3], &[4, 5, 6]);
}

#[test]
fn the_three_writes_succeed_in_their_phase() {
    for _ in 0..8 {
        let (initiator, responder) = established();
        assert_eq!(initiator.phase(), Phase::Complete);
        assert_eq!(responder.phase(), Phase::Complete);
    }
    let mut lone = Session::new();
    assert_eq!(lone.initiator_write_syn_with(&[0u8; 32]), Ok(()));
    let mut other = Session::new();
    assert_eq!(other.initiator_write_syn_with(&[0xff; 32]), Ok(()));
}

#[test]
fn first_read_accepts_every_message_and_finds_its_payload() {
    for seed in [0u8, 1, 0x5a, 0xff] {
        let mut responder = Session::new();
        responder.generate_responder_keys();
        let message: Vec<u8> = (0..SYN_LENGTH).map(|i| (i as u8).wrapping_mul(31) ^ seed).collect();
        assert!(responder.store_field(Field::Syn, &message));
        assert_eq!(responder.responder_read_syn(), Ok(()));
        assert_eq!(responder.phase(), Phase::SynReceived);
        assert!(responder.is_handshaking());
        assert_eq!(responder.field(Field::SynPayload), message[32..].to_vec());
        assert_eq!(responder.field(Field::Syn), message);
        assert_eq!(responder.responder_write_synack(), Ok(()));
    }
}

#[test]
fn written_messages_stand_in_their_fields() {
    let (mut initiator, mut responder) = after_syn();
    assert_eq!(responder.field(Field::Synack), vec![0u8; SYNACK_LENGTH]);
    assert_eq!(responder.responder_write_synack(), Ok(()));
    let synack = responder.field(Field::Synack);
    assert_ne!(synack, vec![0u8; SYNACK_LENGTH]);
    assert_ne!(&synack[..32], &[0u8; 32][..]);
    assert_ne!(&synack[SYNACK_LENGTH - 16..], &[0u8; 16][..]);
    carry(&responder, &mut initiator, SYNACK_OFFSET, SYNACK_LENGTH);
    assert_eq!(initiator.initiator_read_synack(), Ok(()));
    assert_eq!(initiator.field(Field::Ack), vec![0u8; ACK_LENGTH]);
    assert_eq!(initiator.initiator_write_ack(), Ok(()));
    let ack = initiator.field(Field::Ack);
    assert_ne!(&ack[..48], &[0u8; 48][..]);
    assert_ne!(&ack[48..], &[0u8; 16][..]);
    // The message is what the responder's engine accepts.
    assert!(responder.store_field(Field::Ack, &ack));
    assert_eq!(responder.responder_read_ack(), Ok(()));
}
