use ockam::address::Address;
use ockam::flow_control::FlowControls;
use ockam::handshake::run_handshake;
use ockam::handshake::ChannelAddresses;
use ockam::handshake::HandshakeError;
use ockam::handshake::SecureChannelListenerOptions;
use ockam::handshake::SecureChannelListenerWorker;
use ockam::identity::Credential;
use ockam::identity::Identity;
use ockam::identity::TrustPolicy;
use ockam::mailbox::LocalMessage;
use ockam::route::Route;

fn trigger_message() -> LocalMessage {
    let onward = Route::new()
        .append(Address::from_string("listener"))
        .build();
    let ret = Route::new()
        .append(Address::from_string("initiator_app"))
        .build();
    LocalMessage::new(onward, ret, vec![1, 2, 3])
}

/// A completed handshake yields an encryptor/decryptor pair on each side
/// such that plaintext sent by the initiator arrives unmodified at the
/// responder, and the bytes on the wire never equal the plaintext.
#[test]
fn completed_handshake_carries_plaintext_faithfully() {
    let mut flow_controls = FlowControls::new();
    let options = SecureChannelListenerOptions::new(
        &mut flow_controls,
        TrustPolicy::TrustIdentifier(String::from("I_initiator")),
        None,
    );
    let listener = SecureChannelListenerWorker::create(
        &mut flow_controls,
        Identity::new("I_responder", 11),
        &Address::from_string("listener"),
        options,
    );

    let (responder, _forwarded) = listener
        .handle_message(&mut flow_controls, trigger_message(), 77)
        .unwrap();

    let (mut initiator_side, mut responder_side) = run_handshake(
        Identity::new("I_initiator", 22),
        TrustPolicy::TrustEveryone,
        None,
        41,
        ChannelAddresses::generate(),
        flow_controls.generate_flow_control_id(),
        responder,
    )
    .unwrap();

    let plaintext: Vec<u8> = b"over the wire".to_vec();
    let on_the_wire = initiator_side.encryptor.encrypt(&plaintext);
    assert_ne!(on_the_wire, plaintext);
    let received = responder_side.decryptor.decrypt(&on_the_wire).unwrap();
    assert_eq!(received, plaintext);

    // And back: the responder answers through its own encryptor.
    let answer: Vec<u8> = b"heard you".to_vec();
    let wire_back = responder_side.encryptor.encrypt(&answer);
    assert_ne!(wire_back, answer);
    assert_eq!(initiator_side.decryptor.decrypt(&wire_back).unwrap(), answer);

    // A replayed ciphertext is rejected.
    assert!(responder_side.decryptor.decrypt(&on_the_wire).is_err());
}

/// A handshake the responder's trust policy rejects creates no channel,
/// and the listener keeps accepting further, different attempts.
#[test]
fn trust_rejection_leaves_listener_usable() {
    let mut flow_controls = FlowControls::new();
    let options = SecureChannelListenerOptions::new(
        &mut flow_controls,
        TrustPolicy::TrustIdentifier(String::from("I_friend")),
        None,
    );
    let listener = SecureChannelListenerWorker::create(
        &mut flow_controls,
        Identity::new("I_responder", 11),
        &Address::from_string("listener"),
        options,
    );

    // First attempt: a stranger; the responder's policy rejects it.
    let (responder, _) = listener
        .handle_message(&mut flow_controls, trigger_message(), 301)
        .unwrap();
    let outcome = run_handshake(
        Identity::new("I_stranger", 33),
        TrustPolicy::TrustEveryone,
        None,
        42,
        ChannelAddresses::generate(),
        flow_controls.generate_flow_control_id(),
        responder,
    );
    assert!(matches!(outcome, Err(HandshakeError::TrustRejected)));

    // Second attempt through the same listener: the friend connects.
    let (responder, _) = listener
        .handle_message(&mut flow_controls, trigger_message(), 302)
        .unwrap();
    let outcome = run_handshake(
        Identity::new("I_friend", 44),
        TrustPolicy::TrustEveryone,
        None,
        43,
        ChannelAddresses::generate(),
        flow_controls.generate_flow_control_id(),
        responder,
    );
    assert!(outcome.is_ok());
}

/// A credential-demanding policy accepts a vouched peer and rejects an
/// unvouched one.
#[test]
fn authority_policy_needs_a_credential() {
    let policy = TrustPolicy::TrustAuthority(String::from("I_authority"));
    assert!(policy.evaluate(
        "I_member",
        Some(&Credential::new("I_authority", "I_member")),
    ));
    assert!(!policy.evaluate(
        "I_member",
        Some(&Credential::new("I_someone_else", "I_member")),
    ));
    assert!(!policy.evaluate("I_member", None));
}

/// Each channel instance gets four addresses of its own: pairwise
/// distinct, each made of its tag, an underscore and sixteen
/// hexadecimal digits.
#[test]
fn channel_addresses_are_distinct() {
    let addresses = ChannelAddresses::generate();
    let names = [
        addresses.decryptor_remote.address().to_string(),
        addresses.decryptor_internal.address().to_string(),
        addresses.encryptor_remote.address().to_string(),
        addresses.encryptor_internal.address().to_string(),
    ];
    for (i, name) in names.iter().enumerate() {
        for other in names.iter().skip(i + 1) {
            assert_ne!(name, other);
        }
    }
    assert!(names[0].starts_with("decryptor_remote_"));
    assert_eq!(names[0].len(), "decryptor_remote".len() + 17);
    assert!(names[3].starts_with("encryptor_internal_"));
    assert_eq!(names[3].len(), "encryptor_internal".len() + 17);
}
