use time::OffsetDateTime;

use ockam::address::Address;
use ockam::flow_control::FlowControls;
use ockam::identity::TrustPolicy;
use ockam::handshake::SecureChannelListenerOptions;
use ockam::handshake::SecureChannelListenerWorker;
use ockam::identity::Identity;
use ockam::lease::ActiveTokens;
use ockam::lease::InfluxDbServices;
use ockam::lease::LeaseError;
use ockam::lease::LeaseToken;

#[test]
fn state_active_tokens_ordering() {
    let mut active_tokens = ActiveTokens::new();

    let now = OffsetDateTime::now_utc().unix_timestamp();
    let token1 = LeaseToken::new("t1", now + 10);
    let token2 = LeaseToken::new("t2", now + 20);
    let token3 = LeaseToken::new("t3", now + 30);
    let token4 = LeaseToken::new("t4", now + 40);
    let token5 = LeaseToken::new("t5", now + 50);
    let token6 = LeaseToken::new("t6", now + 60);

    active_tokens.push(LeaseToken::new("t4", token4.expires_at));
    active_tokens.push(LeaseToken::new("t2", token2.expires_at));
    active_tokens.push(LeaseToken::new("t6", token6.expires_at));
    active_tokens.push(LeaseToken::new("t1", token1.expires_at));
    active_tokens.push(LeaseToken::new("t5", token5.expires_at));
    active_tokens.push(LeaseToken::new("t3", token3.expires_at));

    assert_eq!(active_tokens.pop().unwrap().id, token1.id);
    assert_eq!(active_tokens.pop().unwrap().id, token2.id);
    assert_eq!(active_tokens.pop().unwrap().id, token3.id);
    assert_eq!(active_tokens.pop().unwrap().id, token4.id);
    assert_eq!(active_tokens.pop().unwrap().id, token5.id);
    assert_eq!(active_tokens.pop().unwrap().id, token6.id);
    assert!(active_tokens.pop().is_none());
}

#[test]
fn lease_issuer_needs_the_listener_flow() {
    let mut flow_controls = FlowControls::new();
    let mut services = InfluxDbServices::new();
    let listener_address = Address::from_string("secure_channel_listener");
    let service_address = Address::from_string("influxdb_lease_issuer");

    // Without a secure-channel listener, the service cannot start.
    let denied = services.start_influxdb_lease_issuer_service(
        &mut flow_controls,
        &listener_address,
        &service_address,
    );
    assert_eq!(denied, Err(LeaseError::NoListenerFlowControl));
    assert!(services
        .delete_influxdb_lease_issuer_service(&service_address)
        .is_none());

    // A listener registers a spawner flow; then the service starts and
    // becomes a consumer of it.
    let options = SecureChannelListenerOptions::new(
        &mut flow_controls,
        TrustPolicy::TrustEveryone,
        None,
    );
    let listener_flow = options.flow_control_id();
    let _listener = SecureChannelListenerWorker::create(
        &mut flow_controls,
        Identity::new("I_node", 5),
        &listener_address,
        options,
    );

    services
        .start_influxdb_lease_issuer_service(
            &mut flow_controls,
            &listener_address,
            &service_address,
        )
        .unwrap();
    assert!(flow_controls.is_consumer(&service_address, &listener_flow));

    assert!(services
        .delete_influxdb_lease_issuer_service(&service_address)
        .is_some());
    assert!(services
        .delete_influxdb_lease_issuer_service(&service_address)
        .is_none());
}
