use ockam::address::Address;
use ockam::flow_control::FlowControls;
use ockam::mailbox::deliver;
use ockam::mailbox::send;
use ockam::mailbox::IncomingAccessControl;
use ockam::mailbox::LocalMessage;
use ockam::mailbox::Mailbox;
use ockam::mailbox::Mailboxes;
use ockam::mailbox::OutgoingAccessControl;
use ockam::mailbox::WorkerState;
use ockam::route::Route;
use ockam::udp::UdpAddresses;
use ockam::udp::UdpBindOptions;
use ockam::uds::TransportRouters;
use ockam::uds::UdsTransport;

fn message(from: &str, to: &str) -> LocalMessage {
    let onward = Route::new().append(Address::from_string(to)).build();
    let ret = Route::new().append(Address::from_string(from)).build();
    LocalMessage::new(onward, ret, vec![42])
}

/// A message whose declared origin is not a registered consumer of the
/// destination worker's flow is dropped, and the worker's state is
/// unaffected.
#[test]
fn unregistered_origin_is_dropped() {
    let mut flow_controls = FlowControls::new();
    let flow = flow_controls.generate_flow_control_id();

    let mailboxes = Mailboxes::primary(
        Address::from_string("guarded"),
        IncomingAccessControl::FlowControlIncoming(flow),
        OutgoingAccessControl::DenyAll,
    );
    let mut worker = WorkerState::new(mailboxes);

    // Not registered: dropped, nothing reaches the worker.
    let delivered = deliver(&flow_controls, &mut worker, message("intruder", "guarded"));
    assert!(!delivered);
    assert_eq!(worker.received_count(), 0);

    // Registration is the only way in.
    flow_controls.add_consumer(&Address::from_string("friend"), &flow);
    let delivered = deliver(&flow_controls, &mut worker, message("friend", "guarded"));
    assert!(delivered);
    assert_eq!(worker.received_count(), 1);

    // The other origin is still outside the flow.
    let delivered = deliver(&flow_controls, &mut worker, message("intruder", "guarded"));
    assert!(!delivered);
    assert_eq!(worker.received_count(), 1);
}

#[test]
fn source_address_gate() {
    let flow_controls = FlowControls::new();
    let mailboxes = Mailboxes::primary(
        Address::from_string("internal"),
        IncomingAccessControl::AllowSourceAddress(Address::from_string("receiver_internal")),
        OutgoingAccessControl::DenyAll,
    );
    let mut worker = WorkerState::new(mailboxes);

    assert!(deliver(
        &flow_controls,
        &mut worker,
        message("receiver_internal", "internal"),
    ));
    assert!(!deliver(
        &flow_controls,
        &mut worker,
        message("elsewhere", "internal"),
    ));
    assert_eq!(worker.received_count(), 1);
}

#[test]
fn misaddressed_message_is_dropped() {
    let flow_controls = FlowControls::new();
    let mailboxes = Mailboxes::primary(
        Address::from_string("w"),
        IncomingAccessControl::AllowAll,
        OutgoingAccessControl::AllowAll,
    );
    let mut worker = WorkerState::new(mailboxes);
    assert!(!deliver(
        &flow_controls,
        &mut worker,
        message("anyone", "someone_else"),
    ));
    assert_eq!(worker.received_count(), 0);
}

/// A UDP bind's receiver may hand messages on only to consumers of the
/// bind's flow: its own sender from the start, and whoever registers.
#[test]
fn udp_bind_flow_control() {
    let mut flow_controls = FlowControls::new();
    let options = UdpBindOptions::new(&mut flow_controls);
    let peer_flow = flow_controls.generate_flow_control_id();
    let options = options.as_consumer(&peer_flow);

    let addresses = UdpAddresses::new(
        Address::from_string("udp_sender"),
        Address::from_string("udp_receiver"),
    );
    options.setup_flow_control(&mut flow_controls, &addresses);

    let gate = options.create_receiver_outgoing_access_control();
    assert!(gate.is_authorized(&flow_controls, Some(&Address::from_string("udp_sender"))));
    assert!(!gate.is_authorized(&flow_controls, Some(&Address::from_string("bystander"))));

    // The sender was also made a consumer of the peer flow it asked for.
    assert!(flow_controls.is_consumer(&Address::from_string("udp_sender"), &peer_flow));
}

/// Only one local-socket transport can exist per node: its router
/// registration fails the second time.
#[test]
fn one_uds_transport_per_node() {
    let mut routers = TransportRouters::new();
    assert!(UdsTransport::create(&mut routers).is_ok());
    assert!(UdsTransport::create(&mut routers).is_err());
}

/// A send refused by the sender's own outgoing predicate never reaches
/// the other worker, whatever its incoming predicate would say.
#[test]
fn outgoing_gate_rules_first() {
    let flow_controls = FlowControls::new();
    let open_worker_boxes = Mailboxes::primary(
        Address::from_string("sink"),
        IncomingAccessControl::AllowAll,
        OutgoingAccessControl::AllowAll,
    );
    let mut sink = WorkerState::new(open_worker_boxes);

    let restricted = Mailbox::new(
        Address::from_string("chatty"),
        IncomingAccessControl::AllowAll,
        OutgoingAccessControl::AllowOnwardAddress(Address::from_string("the_one_peer")),
    );
    assert!(!send(
        &flow_controls,
        &restricted,
        &mut sink,
        message("chatty", "sink"),
    ));
    assert_eq!(sink.received_count(), 0);

    let permissive = Mailbox::new(
        Address::from_string("chatty"),
        IncomingAccessControl::AllowAll,
        OutgoingAccessControl::AllowOnwardAddress(Address::from_string("sink")),
    );
    assert!(send(
        &flow_controls,
        &permissive,
        &mut sink,
        message("chatty", "sink"),
    ));
    assert_eq!(sink.received_count(), 1);
}
