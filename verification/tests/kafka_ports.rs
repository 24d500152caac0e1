use ockam::kafka::kafka_default_outlet_addr;
use ockam::kafka::kafka_inlet_default_addr;
use ockam::kafka::make_brokers_port_range;
use ockam::kafka::HostnamePort;
use ockam::kafka::InvalidPortRange;
use ockam::kafka::PortRange;

#[test]
fn brokers_port_range() {
    let address = HostnamePort::from_str("tls://127.0.0.1:8080").unwrap();
    let port_range = make_brokers_port_range(&address);
    assert_eq!(port_range.start(), 8081);
    assert_eq!(port_range.end(), 8180);

    let address = HostnamePort::from_str("127.0.0.1:8080").unwrap();
    let port_range = make_brokers_port_range(&address);
    assert_eq!(port_range.start(), 8081);
    assert_eq!(port_range.end(), 8180);

    let address = HostnamePort::from_str("127.0.0.1:65442").unwrap();
    let port_range = make_brokers_port_range(&address);
    assert_eq!(port_range.start(), 65443);
    assert_eq!(port_range.end(), u16::MAX);
}

#[test]
fn hostname_port_parsing() {
    let parsed = HostnamePort::from_str("example.test:9092").unwrap();
    assert_eq!(parsed.hostname(), "example.test");
    assert_eq!(parsed.port(), 9092);

    let parsed = HostnamePort::from_str("kafka://broker:1").unwrap();
    assert_eq!(parsed.hostname(), "broker");
    assert_eq!(parsed.port(), 1);

    assert!(HostnamePort::from_str("no-port-here").is_none());
    assert!(HostnamePort::from_str("host:").is_none());
    assert!(HostnamePort::from_str("host:70000").is_none());
    assert!(HostnamePort::from_str("host:12x4").is_none());
}

#[test]
fn port_range_bounds_must_be_ordered() {
    assert!(PortRange::new(5, 3) == Err(InvalidPortRange));
    let range = PortRange::new(3, 5).unwrap();
    assert_eq!(range.start(), 3);
    assert_eq!(range.end(), 5);
}

#[test]
fn kafka_default_addresses() {
    assert_eq!(kafka_default_outlet_addr(), "kafka_outlet");
    assert_eq!(kafka_inlet_default_addr(), "kafka_inlet");
}
