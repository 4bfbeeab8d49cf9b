use nibari::network::probe::{
    parse_ping_output, round_trip_texts, short_error, LossWindow, ProbeOutcome,
};
use nibari::network::worker::{
    poll_timeout, probe_deadline, NetworkHandle, Worker, COUNTER_INTERVAL, PROBE_INTERVAL,
};
use nibari::network::{
    address_rank, apply_connectivity, best_address, clear_probe, connectivity_snapshot,
    interface_is_live, interface_kind, parse_counter, parse_ipv4_routes, parse_ipv6_routes,
    select_route, update_counters, Device, IpAddress, NetworkKind, NetworkOptions,
    NetworkSnapshot, RateSampler, Route,
};

const SECOND: u64 = 1_000_000_000;

#[test]
fn ipv4_default_route_requires_a_zero_mask() {
    let input = "Iface Destination Gateway Flags RefCnt Use Metric Mask MTU Window IRTT\n\
                 tun0 00000000 00000000 0001 0 0 1 00000080 0 0 0\n\
                 eth0 00000000 0101A8C0 0003 0 0 50 00000000 0 0 0\n";

    let routes = parse_ipv4_routes(input);
    assert_eq!(routes.len(), 1);
    assert_eq!(routes[0].interface, "eth0");
    assert_eq!(
        routes[0].gateway,
        Some(IpAddress::V4(u32::from_be_bytes([192, 168, 1, 1])))
    );
    assert_eq!(routes[0].metric, 50);
}

#[test]
fn ipv4_routes_reject_down_reject_and_loopback_entries() {
    let input = "Iface Destination Gateway Flags RefCnt Use Metric Mask MTU Window IRTT\n\
                 eth0 00000000 0101A8C0 0000 0 0 1 00000000 0 0 0\n\
                 eth1 00000000 0100000A 0201 0 0 2 00000000 0 0 0\n\
                 lo 00000000 00000000 0001 0 0 0 00000000 0 0 0\n";

    assert!(parse_ipv4_routes(input).is_empty());
}

#[test]
fn lowest_route_metric_wins() {
    let input = "Iface Destination Gateway Flags RefCnt Use Metric Mask MTU Window IRTT\n\
                 eth0 00000000 0101A8C0 0003 0 0 600 00000000 0 0 0\n\
                 wg0 00000000 00000000 0001 0 0 5 00000000 0 0 0\n";
    let routes = parse_ipv4_routes(input);

    assert_eq!(
        routes
            .iter()
            .min_by_key(|route| route.metric)
            .unwrap()
            .interface,
        "wg0"
    );
    assert_eq!(select_route(&routes, &vec![true, true], &None), Some(1));
    assert_eq!(select_route(&routes, &vec![true, false], &None), Some(0));
    assert_eq!(
        select_route(&routes, &vec![true, true], &Some("eth0".into())),
        Some(0)
    );
    assert_eq!(
        select_route(&routes, &vec![true, true], &Some("eth9".into())),
        None
    );
}

#[test]
fn ipv6_default_route_requires_zero_destination_and_prefix() {
    let input = "00000000000000000000000000000000 01 00000000000000000000000000000000 00 \
                 00000000000000000000000000000000 00000001 00000000 00000000 00000001 tun0\n\
                 00000000000000000000000000000000 00 00000000000000000000000000000000 00 \
                 fe800000000000000000000000000001 00000064 00000000 00000000 00000003 eth0\n";

    let routes = parse_ipv6_routes(input);
    assert_eq!(routes.len(), 1);
    assert_eq!(routes[0].interface, "eth0");
    assert_eq!(
        routes[0].gateway,
        Some(IpAddress::V6(0xfe80_0000_0000_0000_0000_0000_0000_0001))
    );
    assert_eq!(routes[0].metric, 100);
}

#[test]
fn rates_use_actual_elapsed_time() {
    let start = 7 * SECOND;
    let mut sampler = RateSampler::new();
    assert_eq!(sampler.sample("eth0", 1_000, 5_000, start), (None, None));

    assert_eq!(
        sampler.sample("eth0", 4_000, 6_500, start + 1_500_000_000),
        (Some(2_000), Some(1_000))
    );
}

#[test]
fn rates_reset_on_interface_or_counter_reset() {
    let start = 7 * SECOND;
    let mut sampler = RateSampler::new();
    sampler.sample("eth0", 10_000, 20_000, start);

    assert_eq!(
        sampler.sample("wg0", 12_000, 23_000, start + SECOND),
        (None, None)
    );
    assert_eq!(
        sampler.sample("wg0", 2_000, 3_000, start + 2 * SECOND),
        (None, None)
    );
    assert_eq!(
        sampler.sample("wg0", 2_500, 4_000, start + 3 * SECOND),
        (Some(500), Some(1_000))
    );
}

/// Reads the output of a probe, with the round-trip times that it holds.
fn read_ping(stdout: &str, stderr: &str) -> ProbeOutcome {
    let times = round_trip_texts(stdout)
        .iter()
        .map(|text| text.parse::<f64>().ok().map(f64::to_bits))
        .collect();
    parse_ping_output(stdout, stderr, &times)
}

#[test]
fn ping_success_parses_rtt() {
    let stdout = "64 bytes from 1.1.1.1: icmp_seq=1 ttl=58 time=12.4 ms\n\
                  1 packets transmitted, 1 received, 0% packet loss, time 0ms\n";

    assert!(matches!(
        read_ping(stdout, ""),
        ProbeOutcome::Sent(Some(bits)) if f64::from_bits(bits) == 12.4
    ));
}

#[test]
fn ping_loss_counts_only_reported_transmission() {
    let stdout = "PING 1.1.1.1 (1.1.1.1) 56(84) bytes of data.\n\
                  1 packets transmitted, 0 received, 100% packet loss, time 0ms\n";

    assert!(matches!(read_ping(stdout, ""), ProbeOutcome::Sent(None)));
}

#[test]
fn ping_without_a_transmission_is_unavailable() {
    assert!(matches!(
        read_ping("", "ping: socket: Operation not permitted\n"),
        ProbeOutcome::Unavailable(message) if message == "ping: socket: Operation not permitted"
    ));
}

#[test]
fn blank_errors_are_named_and_long_ones_are_cut() {
    assert!(matches!(
        read_ping("0 packets transmitted\n", ""),
        ProbeOutcome::Unavailable(message) if message == "0 packets transmitted"
    ));
    assert!(matches!(
        read_ping("", ""),
        ProbeOutcome::Unavailable(message) if message == "ping unavailable"
    ));
    let long: Vec<char> = "x".repeat(500).chars().collect();
    assert!(short_error(&long).chars().count() < 500);
}

#[test]
fn rolling_loss_keeps_only_the_last_twenty_sent_probes() {
    let mut loss = LossWindow::new();
    assert_eq!(loss.percent(), None);
    loss.record(false);
    for _ in 0..20 {
        loss.record(true);
    }

    assert_eq!(loss.percent(), Some(0));
    loss.record(false);
    assert_eq!(loss.percent(), Some(5));
}

#[test]
fn network_kind_defaults_to_offline() {
    assert_eq!(NetworkKind::default(), NetworkKind::Offline);
}

fn measured() -> NetworkSnapshot {
    NetworkSnapshot {
        interface: "eth0".into(),
        kind: NetworkKind::Ethernet,
        ping_ms: Some(12.0_f64.to_bits()),
        loss_percent: Some(0),
        rx_per_second: Some(100),
        tx_per_second: Some(200),
        ..NetworkSnapshot::default()
    }
}

#[test]
fn connection_changes_discard_old_measurements() {
    let mut snapshot = measured();
    let offline = NetworkSnapshot {
        interface: "eth0".into(),
        ..NetworkSnapshot::default()
    };
    assert!(apply_connectivity(&mut snapshot, offline));
    assert_eq!(snapshot.ping_ms, None);
    assert_eq!(snapshot.loss_percent, None);
    assert_eq!(snapshot.rx_per_second, None);
    assert_eq!(snapshot.tx_per_second, None);
}

#[test]
fn unchanged_connections_keep_their_measurements() {
    let mut snapshot = measured();
    let same = NetworkSnapshot {
        interface: "eth0".into(),
        kind: NetworkKind::Ethernet,
        ..NetworkSnapshot::default()
    };
    assert!(!apply_connectivity(&mut snapshot, same));
    assert_eq!(snapshot.rx_per_second, Some(100));
    assert!(clear_probe(&mut snapshot));
    assert_eq!(snapshot.ping_ms, None);
    assert!(!clear_probe(&mut snapshot));
}

#[test]
fn addresses_rank_by_reach_and_version() {
    let v4 = |a, b, c, d| IpAddress::V4(u32::from_be_bytes([a, b, c, d]));
    let loopback = v4(127, 0, 0, 1);
    let local = v4(169, 254, 1, 1);
    let plain = v4(10, 0, 2, 15);
    let v6_local = IpAddress::V6(0xfe80_0000_0000_0000_0000_0000_0000_0001);
    let v6 = IpAddress::V6(0x2001_0db8_0000_0000_0000_0000_0000_0001);
    assert!(address_rank(plain) > address_rank(v6));
    assert!(address_rank(v6) > address_rank(local));
    assert!(address_rank(plain) > address_rank(v6_local));
    assert_eq!(
        best_address(&vec![v6_local, v6, plain, local]),
        Some(plain)
    );
    assert_eq!(best_address(&vec![]), None);
    assert!(address_rank(plain) > address_rank(loopback));
}

#[test]
fn interfaces_are_live_when_up_and_not_down() {
    assert!(interface_is_live(Some("0x1003\n"), Some("up\n")));
    assert!(interface_is_live(Some("0x1003\n"), Some("unknown\n")));
    assert!(!interface_is_live(Some("0x1002\n"), Some("up\n")));
    assert!(!interface_is_live(Some("0x1003\n"), Some("down\n")));
}

#[test]
fn devices_tell_the_kind_of_an_interface() {
    let device = |wireless| Device {
        link: None,
        link_type: None,
        tunnel_flags: false,
        wireless,
    };
    assert_eq!(
        interface_kind("eth0", &device(false)),
        NetworkKind::Ethernet
    );
    assert_eq!(interface_kind("wlan0", &device(true)), NetworkKind::Wifi);
    assert_eq!(interface_kind("wg0", &device(false)), NetworkKind::Vpn);
    assert_eq!(
        interface_kind(
            "anything",
            &Device {
                tunnel_flags: true,
                ..device(false)
            }
        ),
        NetworkKind::Vpn
    );
}

#[test]
fn routes_without_an_address_are_offline() {
    let route = Route {
        interface: "eth0".into(),
        gateway: None,
        metric: 1,
    };
    let offline = connectivity_snapshot(Some(&route), &None, None, NetworkKind::Ethernet);
    assert_eq!(offline.kind, NetworkKind::Offline);
    assert_eq!(offline.interface, "eth0");
    let online = connectivity_snapshot(
        Some(&route),
        &None,
        Some(IpAddress::V4(1)),
        NetworkKind::Ethernet,
    );
    assert_eq!(online.kind, NetworkKind::Ethernet);
    let missing = connectivity_snapshot(None, &Some("wg0".into()), None, NetworkKind::Vpn);
    assert_eq!(missing.interface, "wg0");
    assert_eq!(missing.kind, NetworkKind::Offline);
}

#[test]
fn counters_are_read_as_numbers() {
    assert_eq!(parse_counter(&b"34288435\n".to_vec()), Some(34288435));
    assert_eq!(parse_counter(&b"".to_vec()), None);
    assert_eq!(parse_counter(&b"12x\n".to_vec()), Some(12));
    assert_eq!(parse_counter(&b"x12\n".to_vec()), None);
    assert_eq!(parse_counter(&b"18446744073709551616\n".to_vec()), None);
    let mut snapshot = measured();
    let mut sampler = RateSampler::new();
    assert!(update_counters(
        &mut snapshot,
        &mut sampler,
        Some((1_000, 2_000)),
        SECOND
    ));
    assert_eq!((snapshot.rx_bytes, snapshot.tx_bytes), (1_000, 2_000));
    assert_eq!(snapshot.rx_per_second, None);
    assert!(update_counters(
        &mut snapshot,
        &mut sampler,
        Some((2_000, 2_500)),
        2 * SECOND
    ));
    assert_eq!(snapshot.rx_per_second, Some(1_000));
    assert_eq!(snapshot.tx_per_second, Some(500));
}

#[test]
fn interface_names_are_checked() {
    let options = |interface: Option<&str>| NetworkOptions {
        interface: interface.map(str::to_owned),
        ping_target: IpAddress::V4(0x0101_0101),
    };
    assert!(options(None).valid());
    assert!(options(Some("eth0")).valid());
    assert!(!options(Some("../eth0")).valid());
}

#[test]
fn waits_are_rounded_up_to_milliseconds() {
    assert_eq!(poll_timeout(SECOND, SECOND), 0);
    assert_eq!(poll_timeout(SECOND + 1, SECOND), 1);
    assert_eq!(poll_timeout(2 * SECOND, SECOND), 1000);
    assert_eq!(probe_deadline(SECOND, None), SECOND);
    assert_eq!(
        probe_deadline(SECOND, Some(SECOND)),
        SECOND + PROBE_INTERVAL
    );
}

fn online() -> NetworkSnapshot {
    NetworkSnapshot {
        address: Some(IpAddress::V4(0x0a00_020f)),
        ..measured()
    }
}

#[test]
fn workers_measure_only_while_the_popup_is_shown() {
    let mut handle = NetworkHandle::new();
    let mut worker = Worker::new(online(), 0);
    assert!(!worker.counters_due(false, 10 * SECOND));
    assert!(!worker.probe_due(false, 10 * SECOND));
    assert!(handle.set_visible(true));
    assert!(!handle.set_visible(true));
    assert!(worker.observe(
        handle.visibility_generation,
        handle.visible,
        handle.refresh_generation,
        10 * SECOND
    ));
    assert_eq!(worker.snapshot.ping_ms, None);
    assert!(worker.connectivity_dirty);
    worker.reconnect(online(), 10 * SECOND);
    assert!(!worker.connectivity_dirty);
    assert!(worker.counters_due(true, 10 * SECOND));
    worker.count(Some((1, 2)), 10 * SECOND);
    assert!(!worker.counters_due(true, 10 * SECOND));
    assert!(worker.counters_due(true, 10 * SECOND + COUNTER_INTERVAL));
    assert!(worker.probe_due(true, 10 * SECOND));
    worker.begin_probe(10 * SECOND);
    assert!(!worker.probe_due(true, 10 * SECOND));
    assert!(worker.finish_probe(
        ProbeOutcome::Sent(Some(3.0_f64.to_bits())),
        true,
        handle.visibility_generation
    ));
    assert_eq!(worker.snapshot.ping_ms, Some(3.0_f64.to_bits()));
    assert_eq!(worker.snapshot.loss_percent, Some(0));
    assert!(worker.timeout(true, 10 * SECOND) > 0);
}

#[test]
fn stale_probes_are_ignored_and_errors_stop_probes() {
    let mut worker = Worker::new(online(), 0);
    worker.observe(1, true, 0, SECOND);
    worker.reconnect(online(), SECOND);
    worker.begin_probe(SECOND);
    assert!(!worker.finish_probe(ProbeOutcome::Sent(None), true, 0));
    assert_eq!(worker.snapshot.loss_percent, None);
    assert!(worker.finish_probe(ProbeOutcome::Unavailable("no ping".into()), true, 1));
    assert_eq!(worker.snapshot.probe_error.as_deref(), Some("no ping"));
    assert!(!worker.probe_due(true, 1000 * SECOND));
    let mut handle = NetworkHandle::new();
    handle.refresh();
    assert_eq!(handle.refresh_generation, 1);
    worker.observe(1, true, 1, 1000 * SECOND);
    assert!(worker.probe_due(true, 1000 * SECOND));
    worker.routes_changed();
    assert!(worker.connectivity_dirty);
}
