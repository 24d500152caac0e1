use ockam::address::Address;
use ockam::channel::DecryptError;
use ockam::channel::Decryptor;
use ockam::flow_control::FlowControls;
use ockam::mailbox::send;
use ockam::mailbox::IncomingAccessControl;
use ockam::mailbox::LocalMessage;
use ockam::mailbox::Mailboxes;
use ockam::mailbox::OutgoingAccessControl;
use ockam::mailbox::WorkerState;
use ockam::route::Route;
use ockam::cli::addon::AddonCommand;
use ockam::cli::addon::AddonConfigureKafkaSubcommand;
use ockam::cli::addon::AddonSubcommand;
use ockam::cli::addon::ConfigureAddonCommand;
use ockam::cli::addon::KafkaCommandConfig;
use ockam::cli::identity::IdentityListOutput;
use ockam::cli::node::NodeInfo;
use ockam::cli::node::NodeListOutput;
use ockam::cli::node::NodeProcessStatus;
use ockam::cli::policy::PolicyCommand;
use ockam::cli::policy::PolicySubcommand;
use ockam::cli::policy::ShowCommand;
use ockam::cli::service::hop_default_addr;
use ockam::cli::service::NodeOpts;
use ockam::cli::service::StartCommand;
use ockam::cli::service::StartSubCommand;
use ockam::cli::tcp_outlet::TcpOutletCommand;
use ockam::cli::tcp_outlet::TcpOutletSubCommand;
use ockam::delayed::DelayedEvent;
use ockam::enroll::EnrollmentTokenAcceptorError;
use ockam::enroll::EnrollmentTokenIssuerError;
use ockam::invitation::ReceivedInvitation;
use ockam::invitation::RoleInShare;
use ockam::invitation::ShareScope;
use ockam::invitation::UnknownValue;

#[test]
fn command_names() {
    assert_eq!(ockam::cli::identity::ListCommand {}.name(), "identity list");
    assert_eq!(ockam::cli::node::ListCommand {}.name(), "node list");
    assert_eq!(
        ockam::cli::kafka_producer::DeleteCommand { address: String::from("addr") }.name(),
        "delete kafka producer"
    );
    assert_eq!(
        ockam::cli::relay_show::ShowCommand { relay_name: None, at: None }.name(),
        "relay show"
    );
    assert_eq!(
        ockam::cli::secure_channel::ListCommand { at: None }.name(),
        "secure-channel list"
    );
    assert_eq!(
        ockam::cli::tcp_listener::CreateCommand { at: None, address: String::from("127.0.0.1:7000") }.name(),
        "tcp-listener create"
    );

    let policy = PolicyCommand { subcommand: PolicySubcommand::Show(ShowCommand {}) };
    assert_eq!(policy.name(), "policy show");

    let outlet = TcpOutletCommand {
        subcommand: TcpOutletSubCommand::Create(ockam::cli::tcp_outlet::CreateCommand {}),
    };
    assert_eq!(outlet.name(), "tcp-outlet create");

    let start = StartCommand {
        create_subcommand: StartSubCommand::Hop { addr: hop_default_addr() },
        node_opts: NodeOpts { at_node: None },
    };
    assert_eq!(start.name(), "service start");

    let addon = AddonCommand {
        subcommand: AddonSubcommand::Configure(ConfigureAddonCommand::Kafka(
            AddonConfigureKafkaSubcommand {
                config: KafkaCommandConfig {
                    project_name: String::from("default"),
                    bootstrap_server: String::from("broker:9092"),
                },
            },
        )),
    };
    assert_eq!(addon.name(), "configure kafka addon");
}

#[test]
fn node_list_output_reflects_node_info() {
    let info = NodeInfo::new(
        String::from("n1"),
        NodeProcessStatus::Running(4242),
        Some(4242),
        true,
    );
    let output = NodeListOutput::from_node_info(&info);
    assert_eq!(output.node_name, "n1");
    assert_eq!(output.status, NodeProcessStatus::Running(4242));
    assert_eq!(output.pid, Some(4242));
    assert!(output.is_default);

    let identity = IdentityListOutput::new(String::from("me"), String::from("I_me"), false);
    assert_eq!(identity.name, "me");
    assert_eq!(identity.identifier, "I_me");
    assert!(!identity.is_default);
}

#[test]
fn delayed_event_keeps_one_send_scheduled() {
    let mut event = DelayedEvent::create(Address::from_string("counting_worker"), vec![1]);
    assert!(event.address().is_local());

    assert_eq!(event.schedule(7), None);
    // Rescheduling displaces the previous send: its handle comes back
    // so the runner can abort it.
    assert_eq!(event.schedule(8), Some(7));
    assert_eq!(event.cancel(), Some(8));
    assert_eq!(event.cancel(), None);
}

#[test]
fn roles_and_scopes_round_trip() {
    assert_eq!(RoleInShare::from_str("admin"), Ok(RoleInShare::Admin));
    assert_eq!(RoleInShare::from_str("guest"), Ok(RoleInShare::Guest));
    assert_eq!(RoleInShare::from_str("service_user"), Ok(RoleInShare::Service));
    assert_eq!(RoleInShare::from_str("nobody"), Err(UnknownValue));
    assert_eq!(RoleInShare::Service.as_string(), "service_user");

    assert_eq!(ShareScope::from_str("project"), Ok(ShareScope::Project));
    assert_eq!(ShareScope::from_str("service"), Ok(ShareScope::Service));
    assert_eq!(ShareScope::from_str("space"), Ok(ShareScope::Space));
    assert_eq!(ShareScope::from_str("universe"), Err(UnknownValue));
    assert_eq!(ShareScope::Space.as_string(), "space");
}

#[test]
fn invitation_expiry_is_checked() {
    let invitation = ReceivedInvitation {
        id: String::from("inv1"),
        expires_at: String::from("2020-09-12T15:07:14.00Z"),
        grant_role: RoleInShare::Guest,
        owner_email: String::from("owner@example.test"),
        scope: ShareScope::Project,
        target_id: String::from("tgt"),
        ignored: false,
    };
    assert!(invitation.is_expired().unwrap());

    let malformed = ReceivedInvitation {
        expires_at: String::from("whenever"),
        ..invitation
    };
    assert!(malformed.is_expired().is_err());
}

#[test]
fn enrollment_errors_carry_their_reason() {
    let acceptor = EnrollmentTokenAcceptorError(String::from("Already a member"));
    assert_eq!(acceptor.message(), "Already a member");
    let issuer = EnrollmentTokenIssuerError(String::from("Not an enroller"));
    assert_eq!(issuer.message(), "Not an enroller");
}

#[test]
fn decryptor_rejects_garbage() {
    let mut decryptor = Decryptor::new(12345);
    assert_eq!(decryptor.decrypt(&vec![1, 2, 3]), Err(DecryptError::InvalidCiphertext));
}

/// The delayed event's own mailbox confines it: nothing comes in, and
/// its sends may reach the destination alone.
#[test]
fn delayed_event_is_confined_to_its_destination() {
    let event = DelayedEvent::create(Address::from_string("counting_worker"), vec![7]);
    let boxes = event.mailboxes();

    let flow_controls = FlowControls::new();
    let open_mailboxes = |name: &str| {
        Mailboxes::primary(
            Address::from_string(name),
            IncomingAccessControl::AllowAll,
            OutgoingAccessControl::AllowAll,
        )
    };
    let mut destination = WorkerState::new(open_mailboxes("counting_worker"));
    let mut bystander = WorkerState::new(open_mailboxes("bystander"));

    let message = |to: &str| {
        LocalMessage::new(
            Route::new().append(Address::from_string(to)).build(),
            Route::new().append(event.address().clone()).build(),
            vec![7],
        )
    };
    // Find the event's own mailbox to send through.
    let sent = send(
        &flow_controls,
        boxes.primary_mailbox(),
        &mut destination,
        message("counting_worker"),
    );
    assert!(sent);
    let sent = send(
        &flow_controls,
        boxes.primary_mailbox(),
        &mut bystander,
        message("bystander"),
    );
    assert!(!sent);
    assert_eq!(bystander.received_count(), 0);
}
