use gold_dust_vpn::config::{BackendConfig, GoldDustConfig};
use gold_dust_vpn::name_order::name_le_exec;
use gold_dust_vpn::router::{
    check_backends, select_backend, BackendHealth, BackendKind, Router, RouterSnapshot,
    SelectionError,
};

fn config(oxen_enabled: bool, tor_enabled: bool) -> GoldDustConfig {
    GoldDustConfig {
        backends: BackendConfig {
            oxen_enabled,
            tor_enabled,
        },
    }
}

fn health(name: &str, kind: BackendKind, latency_ms: u64, enabled: bool) -> BackendHealth {
    BackendHealth {
        name: name.to_string(),
        kind,
        latency_ms,
        failure_rate_ppm: 0,
        enabled,
    }
}

#[test]
fn oxen_enabled_prefers_oxen() {
    let cfg = GoldDustConfig {
        backends: BackendConfig {
            oxen_enabled: true,
            tor_enabled: true,
        },
    };

    let router = Router::new(cfg);
    let choice = router.choose_backend("example.com:443").unwrap();

    // With the static values, Oxen is preferred over Tor.
    assert_eq!(choice.backend.kind, BackendKind::Oxen);
    assert!(choice.backend.latency_ms < 200);
}

#[test]
fn disabling_oxen_falls_back_to_tor() {
    let cfg = GoldDustConfig {
        backends: BackendConfig {
            oxen_enabled: false,
            tor_enabled: true,
        },
    };

    let router = Router::new(cfg);
    let choice = router.choose_backend("example.com:443").unwrap();

    // With Oxen disabled, Tor is selected.
    assert_eq!(choice.backend.kind, BackendKind::Tor);
    assert!(choice.backend.latency_ms > 200);
}

#[test]
fn disabling_everything_errors() {
    let cfg = GoldDustConfig {
        backends: BackendConfig {
            oxen_enabled: false,
            tor_enabled: false,
        },
    };

    let router = Router::new(cfg);
    let result = router.choose_backend("example.com:443");

    assert!(result.is_err());
}

#[test]
fn both_enabled_picks_fastest_oxen_node() {
    let router = Router::new(config(true, true));
    let choice = router.choose_backend("example.com:443").unwrap();
    assert_eq!(choice.target, "example.com:443");
    assert_eq!(choice.backend.name, "oxen-node-1");
    assert_eq!(choice.backend.kind, BackendKind::Oxen);
    assert_eq!(choice.backend.latency_ms, 55);
    assert_eq!(choice.backend.failure_rate_ppm, 20_000);
    assert!(choice.backend.enabled);
}

#[test]
fn oxen_only_picks_oxen_node() {
    let router = Router::new(config(true, false));
    let choice = router.choose_backend("example.com:443").unwrap();
    assert_eq!(choice.backend.kind, BackendKind::Oxen);
    assert_eq!(choice.backend.name, "oxen-node-1");
}

#[test]
fn tor_only_picks_tor_exit() {
    let router = Router::new(config(false, true));
    let choice = router.choose_backend("example.com:443").unwrap();
    assert_eq!(choice.backend.kind, BackendKind::Tor);
    assert_eq!(choice.backend.name, "tor-exit-1");
    assert_eq!(choice.backend.latency_ms, 250);
}

#[test]
fn nothing_enabled_reports_reason() {
    let router = Router::new(config(false, false));
    match router.choose_backend("example.com:443") {
        Err(SelectionError::NoBackendAvailable { reason }) => {
            assert_eq!(reason, "no backends enabled in config");
        }
        Ok(_) => panic!("a backend was chosen with every backend disabled"),
    }
}

#[test]
fn repeated_choices_agree() {
    for (oxen, tor) in [(true, true), (true, false), (false, true), (false, false)] {
        let router = Router::new(config(oxen, tor));
        let first = router.choose_backend("example.com:443");
        let second = router.choose_backend("example.com:443");
        match (first, second) {
            (Ok(a), Ok(b)) => {
                assert_eq!(a.backend.name, b.backend.name);
                assert_eq!(a.backend.kind, b.backend.kind);
                assert_eq!(a.target, b.target);
            }
            (Err(_), Err(_)) => assert!(!oxen && !tor),
            _ => panic!("two decisions on one configuration disagree"),
        }
    }
}

#[test]
fn equal_latency_goes_to_lower_name_in_any_order() {
    let forward = RouterSnapshot {
        backends: vec![
            health("relay-a", BackendKind::Oxen, 40, true),
            health("relay-b", BackendKind::Oxen, 40, true),
            health("exit-a", BackendKind::Tor, 10, true),
        ],
    };
    let backward = RouterSnapshot {
        backends: vec![
            health("exit-a", BackendKind::Tor, 10, true),
            health("relay-b", BackendKind::Oxen, 40, true),
            health("relay-a", BackendKind::Oxen, 40, true),
        ],
    };
    let a = select_backend(&forward, "host:1").unwrap();
    let b = select_backend(&backward, "host:1").unwrap();
    assert_eq!(a.backend.name, "relay-a");
    assert_eq!(b.backend.name, "relay-a");
    assert_eq!(a.target, "host:1");
}

#[test]
fn lower_latency_beats_lower_name() {
    let snapshot = RouterSnapshot {
        backends: vec![
            health("a-slow", BackendKind::Tor, 300, true),
            health("z-fast", BackendKind::Tor, 120, true),
            health("b-off", BackendKind::Oxen, 1, false),
        ],
    };
    let choice = select_backend(&snapshot, "host:2").unwrap();
    assert_eq!(choice.backend.name, "z-fast");
    assert_eq!(choice.backend.kind, BackendKind::Tor);
}

#[test]
fn empty_snapshot_has_no_backend() {
    let snapshot = RouterSnapshot { backends: vec![] };
    assert!(matches!(
        select_backend(&snapshot, "host:3"),
        Err(SelectionError::NoBackendAvailable { .. })
    ));
}

#[test]
fn status_reports_catalog_with_switches() {
    let snapshot = Router::new(config(false, true)).status().unwrap();
    let names: Vec<&str> = snapshot.backends.iter().map(|b| b.name.as_str()).collect();
    assert_eq!(names, vec!["oxen-node-1", "oxen-node-2", "tor-exit-1"]);
    let enabled: Vec<bool> = snapshot.backends.iter().map(|b| b.enabled).collect();
    assert_eq!(enabled, vec![false, false, true]);
    assert_eq!(snapshot.backends[1].latency_ms, 70);
    assert_eq!(snapshot.backends[1].kind, BackendKind::Oxen);
    assert_eq!(snapshot.backends[2].kind, BackendKind::Tor);
}

#[test]
fn summary_lines_follow_switches() {
    assert_eq!(
        check_backends(&config(true, false)),
        "Oxen: enabled (stubbed healthy)\nOxen: enabled (stubbed healthy)\nTor: disabled"
    );
    assert_eq!(
        check_backends(&config(false, true)),
        "Oxen: disabled\nOxen: disabled\nTor: enabled (stubbed healthy)"
    );
    assert_eq!(
        check_backends(&config(false, false)),
        "Oxen: disabled\nOxen: disabled\nTor: disabled"
    );
}

#[test]
fn names_compare_by_bytes() {
    assert!(name_le_exec("oxen-node-1", "oxen-node-2"));
    assert!(!name_le_exec("oxen-node-2", "oxen-node-1"));
    assert!(name_le_exec("relay", "relay"));
    assert!(name_le_exec("relay", "relay-a"));
    assert!(!name_le_exec("relay-a", "relay"));
    assert!(name_le_exec("", "a"));
    assert!(name_le_exec("Z", "a"));
    assert!(name_le_exec("z", "\u{e9}"));
}
