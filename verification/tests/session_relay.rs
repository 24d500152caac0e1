use ockam::address::Address;
use ockam::relay::ApiError;
use ockam::relay::NodeManager;
use ockam::relay::NodeManagerWorker;
use ockam::relay::RegistryError;
use ockam::relay::RelaySessionReplacer;
use ockam::relay::RemoteRelayInfo;
use ockam::route::Route;
use ockam::session::ConnectionStatus;
use ockam::session::ReplacerError;
use ockam::session::ReplacerOutcome;
use ockam::session::Session;

fn outcome(worker: &str) -> ReplacerOutcome {
    ReplacerOutcome {
        ping_route: Route::new()
            .append(Address::from_string("1#remote"))
            .build(),
        worker_address: Address::from_string(worker),
        remote_address: None,
    }
}

fn outcome_with_remote(worker: &str, remote: &str) -> ReplacerOutcome {
    ReplacerOutcome {
        ping_route: Route::new()
            .append(Address::from_string("1#remote"))
            .build(),
        worker_address: Address::from_string(worker),
        remote_address: Some(String::from(remote)),
    }
}

/// A created session connects, a probe failure fires the session-down
/// notification exactly once and launches exactly one create attempt —
/// even across three failures detected before the attempt resolves —
/// and a successful retry fires session-replaced and restores
/// `Connected`.
#[test]
fn session_single_flight_reconnection() {
    let mut session = Session::create();
    assert_eq!(session.connection_status(), ConnectionStatus::Connecting);

    session.initial_connect(Ok(outcome("w1"))).unwrap();
    assert_eq!(session.connection_status(), ConnectionStatus::Connected);
    session.start_monitoring();

    let mut down_notifications = 0;
    let mut create_attempts = 0;
    for _ in 0..3 {
        let effects = session.on_probe_failure();
        if effects.notify_down {
            down_notifications += 1;
        }
        if effects.start_create {
            create_attempts += 1;
        }
    }
    assert_eq!(down_notifications, 1);
    assert_eq!(create_attempts, 1);
    assert_eq!(session.connection_status(), ConnectionStatus::Disconnected);

    let effects = session.on_create_result(Ok(outcome("w2")));
    assert!(effects.notify_replaced);
    assert_eq!(session.connection_status(), ConnectionStatus::Connected);
}

/// A failing retry leaves the session disconnected; the next probe
/// failure launches one more attempt without another session-down
/// notification.
#[test]
fn session_retries_after_failed_attempt() {
    let mut session = Session::create();
    session.initial_connect(Ok(outcome("w1"))).unwrap();
    session.start_monitoring();

    let first = session.on_probe_failure();
    assert!(first.notify_down && first.start_create);
    let effects = session.on_create_result(Err(ReplacerError::ConnectionFailed));
    assert!(!effects.notify_replaced);
    assert_eq!(session.connection_status(), ConnectionStatus::Disconnected);

    let again = session.on_probe_failure();
    assert!(!again.notify_down);
    assert!(again.start_create);
}

/// An initial connection failure is surfaced to the caller and the
/// session stays unconnected.
#[test]
fn session_surfaces_initial_failure() {
    let mut session = Session::create();
    let r = session.initial_connect(Err(ReplacerError::ConnectionFailed));
    assert_eq!(r, Err(ReplacerError::ConnectionFailed));
    assert_eq!(session.connection_status(), ConnectionStatus::Connecting);
}

/// Closing tears the resource down exactly once, however often close is
/// called.
#[test]
fn session_close_is_idempotent() {
    let mut session = Session::create();
    session.initial_connect(Ok(outcome("w1"))).unwrap();
    let first = session.close();
    assert!(first.close_resource);
    let second = session.close();
    assert!(!second.close_resource);
}

/// Creating a relay under an alias already taken fails with
/// `AlreadyExists` on the second call, leaving the first relay's session
/// untouched.
#[test]
fn relay_alias_taken_twice() {
    let mut node = NodeManager::new();

    let first = node
        .create_relay("r1", "/node/outlet", Some(Ok(outcome("relay_w"))))
        .unwrap();
    assert_eq!(first.connection_status(), ConnectionStatus::Connected);
    assert_eq!(first.alias(), "r1");

    let second = node.create_relay("r1", "/node/other", Some(Ok(outcome("relay_w2"))));
    assert!(matches!(second, Err(RegistryError::AlreadyExists)));

    // The first relay is still there, still connected.
    let shown = node.show_relay("r1").unwrap();
    assert_eq!(shown.connection_status(), ConnectionStatus::Connected);
    assert_eq!(node.get_relays().len(), 1);
}

/// A relay created after a successful synchronous connection reports
/// the forwarding address the remote node answered with; one created
/// without waiting reports none yet.
#[test]
fn relay_report_carries_remote_info() {
    let mut node = NodeManager::new();
    let info = node
        .create_relay("r1", "/node/outlet", Some(Ok(outcome_with_remote("w", "forward_to_r1"))))
        .unwrap();
    assert_eq!(info.remote_address(), Some("forward_to_r1"));

    let info = node.create_relay("r2", "/node/outlet", None).unwrap();
    assert_eq!(info.remote_address(), None);
    assert_eq!(info.connection_status(), ConnectionStatus::Connecting);
}

#[test]
fn relay_delete_and_show_missing() {
    let mut node = NodeManager::new();
    assert!(matches!(node.show_relay("nope"), Err(RegistryError::NotFound)));
    assert!(matches!(
        node.delete_relay_impl("nope"),
        Err(RegistryError::NotFound)
    ));

    node.create_relay("r1", "/node/outlet", None).unwrap();
    assert!(node.delete_relay_impl("r1").is_ok());
    assert!(matches!(node.show_relay("r1"), Err(RegistryError::NotFound)));
}

/// The relay replacer's decisions: with the owner gone everything is
/// cancelled; otherwise a connection is requested, what came back is
/// recorded, and a close hands every piece back for teardown, once.
#[test]
fn relay_replacer_decisions() {
    let mut replacer = RelaySessionReplacer::new("/project/default");

    assert!(matches!(
        replacer.create_plan(false),
        Err(ReplacerError::Cancelled)
    ));
    let request = replacer.create_plan(true).unwrap();
    assert_eq!(request.destination_address, "/project/default");

    let transport_route = Route::new()
        .append(Address::from_string("1#remote"))
        .build();
    let remote = RemoteRelayInfo {
        worker_address: Address::from_string("forwarder"),
        remote_address: String::from("forward_to_r1"),
    };
    let outcome = replacer.on_created(transport_route, &remote);
    assert_eq!(outcome.worker_address, Address::from_string("forwarder"));

    let teardown = replacer.close_plan();
    assert!(teardown.close_connection);
    assert_eq!(teardown.stop_worker, Some(Address::from_string("forwarder")));

    let again = replacer.close_plan();
    assert!(!again.close_connection);
    assert_eq!(again.stop_worker, None);
}

#[test]
fn relay_management_api_answers() {
    let mut worker = NodeManagerWorker::new(NodeManager::new());
    assert_eq!(worker.delete_relay("r1"), Err(ApiError::NotFound));
    assert!(matches!(worker.show_relay("r1"), Err(ApiError::NotFound)));

    worker
        .create_relay("r1", "/node/outlet", Some(Ok(outcome("w"))))
        .unwrap();
    assert!(matches!(
        worker.create_relay("r1", "/node/outlet", None),
        Err(ApiError::InternalError)
    ));
    assert_eq!(worker.get_relays().len(), 1);
    assert!(worker.show_relay("r1").is_ok());
    assert_eq!(worker.delete_relay("r1"), Ok(()));
    assert_eq!(worker.get_relays().len(), 0);
}
