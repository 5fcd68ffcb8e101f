use garlemald_client::connectivity::{
    address_verdict, best_probe, classify_error, outcome_rank, panicked_probe, probe_targets, ConnectivityReport,
    DeliveryLatch, PortProbe, PortRole, ProbeOutcome, ReportPoll, SocketErrorKind, LOBBY_PORT, MAP_PORT,
    WORLD_PORT,
};

fn mk(role: PortRole, outcome: ProbeOutcome) -> PortProbe {
    PortProbe { role, port: 0, outcome, addr_ip: None, elapsed_ms: 0 }
}

#[test]
fn no_addresses_reports_resolve_failed() {
    let (outcome, addr) = address_verdict(0, &Vec::new());
    assert!(matches!(outcome, ProbeOutcome::ResolveFailed(_)));
    assert!(addr.is_none());
}

#[test]
fn empty_report_is_not_treated_as_reachable() {
    let report = ConnectivityReport { address: "test".into(), probes: Vec::new() };
    assert!(!report.game_ports_ok());
}

#[test]
fn verdict_requires_lobby_and_world_but_not_map() {
    let report = ConnectivityReport {
        address: "test".into(),
        probes: vec![
            mk(PortRole::Lobby, ProbeOutcome::Open),
            mk(PortRole::World, ProbeOutcome::Open),
            mk(PortRole::MapServer, ProbeOutcome::TimedOut),
        ],
    };
    assert!(report.game_ports_ok());
    let report = ConnectivityReport {
        address: "test".into(),
        probes: vec![
            mk(PortRole::Lobby, ProbeOutcome::TimedOut),
            mk(PortRole::World, ProbeOutcome::Open),
            mk(PortRole::MapServer, ProbeOutcome::Open),
        ],
    };
    assert!(!report.game_ports_ok());
}

#[test]
fn summary_names_every_port_and_outcome() {
    let report = ConnectivityReport {
        address: "bahamut.example".into(),
        probes: vec![PortProbe {
            role: PortRole::Lobby,
            port: LOBBY_PORT,
            outcome: ProbeOutcome::TimedOut,
            addr_ip: Some("192.0.2.7".to_string()),
            elapsed_ms: 0,
        }],
    };
    let s = report.summary();
    assert!(s.contains("bahamut.example"));
    assert!(s.contains("lobby 54994"));
    assert!(s.contains("timed out"));
    assert!(s.contains("192.0.2.7"));
    assert_eq!(s, "bahamut.example \u{2014} lobby 54994 [192.0.2.7]: timed out (blocked or unforwarded)");
}

#[test]
fn summary_of_a_probe_that_never_ran() {
    let report = ConnectivityReport { address: "x".into(), probes: Vec::new() };
    assert_eq!(report.summary(), "x \u{2014} probe did not run");
}

#[test]
fn task_delivers_exactly_one_report() {
    let mut latch = DeliveryLatch::new("127.0.0.1".to_string());
    assert!(latch.on_poll(ReportPoll::Pending).is_none());
    let report = ConnectivityReport {
        address: "127.0.0.1".into(),
        probes: vec![
            mk(PortRole::Lobby, ProbeOutcome::Refused),
            mk(PortRole::World, ProbeOutcome::Refused),
            mk(PortRole::MapServer, ProbeOutcome::Refused),
        ],
    };
    let got = latch.on_poll(ReportPoll::Ready(report)).expect("report delivered");
    assert_eq!(got.probes.len(), 3);
    assert!(latch.on_poll(ReportPoll::Disconnected).is_none());
}

#[test]
fn a_worker_that_vanished_yields_an_empty_report() {
    let mut latch = DeliveryLatch::new("host".to_string());
    let r = latch.on_poll(ReportPoll::Disconnected).unwrap();
    assert_eq!(r.address, "host");
    assert!(r.probes.is_empty());
    assert!(!r.game_ports_ok());
    assert!(latch.on_poll(ReportPoll::Pending).is_none());
}

#[test]
fn all_addresses_dead_reports_the_most_definitive_outcome() {
    let results = vec![
        (ProbeOutcome::TimedOut, "203.0.113.1".to_string()),
        (ProbeOutcome::Refused, "127.0.0.1".to_string()),
    ];
    let (outcome, addr) = address_verdict(2, &results);
    assert_eq!(outcome, ProbeOutcome::Refused);
    assert_eq!(addr.as_deref(), Some("127.0.0.1"));
}

#[test]
fn a_dead_address_ahead_of_a_live_one_still_reports_open() {
    let results = vec![
        (ProbeOutcome::Refused, "10.0.0.1".to_string()),
        (ProbeOutcome::Open, "10.0.0.2".to_string()),
    ];
    let (outcome, addr) = address_verdict(2, &results);
    assert_eq!(outcome, ProbeOutcome::Open);
    assert_eq!(addr.as_deref(), Some("10.0.0.2"));
}

#[test]
fn panicked_attempts_are_reported() {
    let (outcome, addr) = address_verdict(3, &Vec::new());
    assert_eq!(outcome, ProbeOutcome::Error("probe threads panicked".to_string()));
    assert!(addr.is_none());
    let p = panicked_probe(PortRole::World, WORLD_PORT);
    assert_eq!(p.outcome, ProbeOutcome::Error("probe thread panicked".to_string()));
    assert_eq!(p.port, WORLD_PORT);
}

#[test]
fn ranks_and_best_choice() {
    assert_eq!(outcome_rank(&ProbeOutcome::Open), 4);
    assert_eq!(outcome_rank(&ProbeOutcome::Refused), 3);
    assert_eq!(outcome_rank(&ProbeOutcome::Error("e".into())), 2);
    assert_eq!(outcome_rank(&ProbeOutcome::TimedOut), 1);
    assert_eq!(outcome_rank(&ProbeOutcome::ResolveFailed("r".into())), 0);
    let v = vec![ProbeOutcome::TimedOut, ProbeOutcome::Error("a".into()), ProbeOutcome::Error("b".into())];
    assert_eq!(best_probe(&v), Some(1));
    assert_eq!(best_probe(&Vec::new()), None);
}

#[test]
fn errors_are_classified() {
    assert_eq!(classify_error(SocketErrorKind::ConnectionRefused, "x"), ProbeOutcome::Refused);
    assert_eq!(classify_error(SocketErrorKind::WouldBlock, "x"), ProbeOutcome::TimedOut);
    assert_eq!(classify_error(SocketErrorKind::Other, "no route"), ProbeOutcome::Error("no route".into()));
    assert_eq!(ProbeOutcome::Refused.to_text(), "refused (host up, nothing listening)");
    assert_eq!(ProbeOutcome::ResolveFailed("x".into()).to_text(), "DNS resolution failed: x");
}

#[test]
fn the_three_game_ports_are_probed() {
    assert_eq!(
        probe_targets(),
        vec![(PortRole::Lobby, LOBBY_PORT), (PortRole::World, WORLD_PORT), (PortRole::MapServer, MAP_PORT)]
    );
    assert_eq!(PortRole::MapServer.to_text(), "map");
}
