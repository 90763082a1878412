use dns_gate::gate::AdmissionGate;
use dns_gate::handler::StaticAHandler;
use dns_gate::server::{
    handle_query, ConfigError, DnsConfig, DnsServerBuilder, ServerState, UnitOutcome,
};

#[test]
fn gate_never_admits_beyond_capacity() {
    let mut gate = AdmissionGate::new(2);
    assert!(gate.try_acquire());
    assert!(gate.try_acquire());
    assert!(!gate.try_acquire());
    assert_eq!(gate.active_count(), 2);
    gate.release();
    assert!(gate.try_acquire());
    assert!(!gate.try_acquire());
    assert_eq!(gate.active_count(), 2);
}

#[test]
fn closed_gate_admits_nothing() {
    let mut gate = AdmissionGate::new(4);
    assert!(gate.try_acquire());
    gate.close();
    assert!(!gate.try_acquire());
    assert_eq!(gate.active_count(), 1);
    gate.release();
    assert_eq!(gate.active_count(), 0);
    assert!(!gate.try_acquire());
}

#[test]
fn permits_balance_over_induced_failures() {
    let config = DnsConfig {
        listen: "127.0.0.1:5300".to_string(),
        max_concurrency: 3,
        udp_buf_size: 512,
    };
    let (mut core, _handler) = DnsServerBuilder::new(config)
        .handler(StaticAHandler)
        .build()
        .unwrap();
    assert!(core.start());
    let outcomes = [
        UnitOutcome::Sent,
        UnitOutcome::SendFailed,
        UnitOutcome::EncodeFailed,
        UnitOutcome::NoResponse,
        UnitOutcome::DecodeFailed,
    ];
    for round in 0..20 {
        assert!(core.try_admit());
        assert_eq!(core.active_units(), 1);
        core.finish_unit(outcomes[round % outcomes.len()]);
        assert_eq!(core.active_units(), 0);
    }
}

#[test]
fn builder_rejects_bad_configuration() {
    let good = DnsConfig {
        listen: "127.0.0.1:5300".to_string(),
        max_concurrency: 8,
        udp_buf_size: 512,
    };

    let missing = DnsServerBuilder::<StaticAHandler>::new(good.clone()).build();
    assert_eq!(missing.err().unwrap(), ConfigError::MissingHandler);

    let zero_units = DnsConfig { max_concurrency: 0, ..good.clone() };
    let err = DnsServerBuilder::new(zero_units)
        .handler(StaticAHandler)
        .build()
        .err()
        .unwrap();
    assert_eq!(err, ConfigError::ZeroConcurrency);

    let zero_buf = DnsConfig { udp_buf_size: 0, ..good.clone() };
    let err = DnsServerBuilder::new(zero_buf)
        .handler(StaticAHandler)
        .build()
        .err()
        .unwrap();
    assert_eq!(err, ConfigError::ZeroBufferSize);

    let (core, _handler) = DnsServerBuilder::new(good)
        .handler(StaticAHandler)
        .build()
        .unwrap();
    assert_eq!(core.lifecycle_state(), ServerState::Created);
    assert_eq!(core.listen_addr(), "127.0.0.1:5300");
    assert_eq!(core.active_units(), 0);
}

#[test]
fn default_configuration_matches_the_documented_one() {
    let config = DnsConfig::default();
    assert_eq!(config.listen, "0.0.0.0:5300");
    assert_eq!(config.max_concurrency, 512);
    assert_eq!(config.udp_buf_size, 2048);
}

#[test]
fn start_is_idempotent_and_shutdown_is_final() {
    let (mut core, _h) = DnsServerBuilder::new(DnsConfig::default())
        .handler(StaticAHandler)
        .build()
        .unwrap();
    assert!(!core.is_running());
    assert!(core.start());
    assert!(core.is_running());
    assert!(!core.start());
    assert!(core.is_running());
    core.shutdown();
    assert!(!core.is_running());
    assert!(!core.start());
    assert_eq!(core.lifecycle_state(), ServerState::ShuttingDown);
}

#[test]
fn shutdown_drains_the_unit_in_flight() {
    let (mut core, _h) = DnsServerBuilder::new(DnsConfig::default())
        .handler(StaticAHandler)
        .build()
        .unwrap();
    assert!(core.start());

    // One unit is admitted and holds its permit.
    assert!(core.try_admit());
    assert_eq!(core.active_units(), 1);

    // Shutdown: no further datagram is admitted, at once.
    core.shutdown();
    assert!(!core.try_admit());
    assert!(!core.try_admit());
    assert_eq!(core.lifecycle_state(), ServerState::ShuttingDown);

    // The in-flight unit still completes its work and sends its response.
    let query = {
        let mut msg = hickory_proto::op::Message::new();
        msg.set_id(0x7777);
        msg.add_query(hickory_proto::op::Query::query(
            hickory_proto::rr::Name::from_ascii("drain.test.").unwrap(),
            hickory_proto::rr::RecordType::A,
        ));
        msg.to_vec().unwrap()
    };
    let reply = handle_query(&query, "192.0.2.9:4242");
    assert!(reply.is_some());

    // While the unit holds its permit the server refuses to report Stopped.
    core.observe_shutdown();
    assert_eq!(core.lifecycle_state(), ServerState::ShuttingDown);

    core.finish_unit(UnitOutcome::Sent);
    assert_eq!(core.active_units(), 0);

    // Only once drained does the loop report itself stopped.
    core.observe_shutdown();
    assert_eq!(core.lifecycle_state(), ServerState::Stopped);
}
