//! What holds of routes, addresses, interfaces and traffic, whatever is read of them.

use vstd::prelude::*;

use crate::config::is_interface_name;
use crate::network::{
    best_of, connected, connection_of, counted, counter_of, digits_value, eligible, ipv4_route_of,
    ipv4_routes_of, ipv6_field, ipv6_of, ipv6_route_of, ipv6_routes_of, is_selected, kind_of,
    leading_digits, per_second, rank_of, rates_between, reversed_bytes, same_connection, says_up,
    says_working, tunnel_name, unprobed, unrated, without_hex_prefix, Device, IpAddress,
    NetworkKind, Route, RouteView, SampleView, SnapshotView,
};
use crate::text::{found_at, starts, trimmed, unsigned_of, words_of};

verus! {

/// Whether an address is in 127.0.0.0/8, or is the IPv6 loopback address.
pub open spec fn is_loopback(address: IpAddress) -> bool {
    match address {
        IpAddress::V4(number) => 0x7f00_0000 <= number < 0x8000_0000,
        IpAddress::V6(number) => number == 1,
    }
}

/// Whether an address is the one that stands for none.
pub open spec fn is_unspecified(address: IpAddress) -> bool {
    match address {
        IpAddress::V4(number) => number == 0,
        IpAddress::V6(number) => number == 0,
    }
}

/// Whether an address is in 169.254.0.0/16 or fe80::/10.
pub open spec fn is_link_local(address: IpAddress) -> bool {
    match address {
        IpAddress::V4(number) => 0xa9fe_0000 <= number <= 0xa9fe_ffff,
        IpAddress::V6(number) => 0xfe80_0000_0000_0000_0000_0000_0000_0000 <= number
            < 0xfec0_0000_0000_0000_0000_0000_0000_0000,
    }
}

/// Whether an address can be shown.
pub open spec fn is_useful(address: IpAddress) -> bool {
    !is_loopback(address) && !is_unspecified(address)
}

/// Whether an address can be reached from other networks.
pub open spec fn is_global(address: IpAddress) -> bool {
    is_useful(address) && !is_link_local(address)
}

proof fn lemma_rank(address: IpAddress)
    ensures
        rank_of(address) == 0 <==> !is_useful(address),
        rank_of(address) == 1 <==> address is V4 && is_useful(address) && is_link_local(address),
        rank_of(address) == 2 <==> address is V6 && is_useful(address) && is_link_local(address),
        rank_of(address) == 3 <==> address is V6 && is_global(address),
        rank_of(address) == 4 <==> address is V4 && is_global(address),
{
}

/// The shown address is one of those of the interface; it is neither a loopback address nor
/// the unspecified one, and some address is shown as soon as one of that sort is there.
pub proof fn law_shown_addresses_are_useful(addresses: Seq<IpAddress>)
    ensures
        best_of(addresses, addresses.len() as int) matches Some(best) ==> addresses.contains(best)
            && is_useful(best),
        (exists|i: int| 0 <= i < addresses.len() && is_useful(#[trigger] addresses[i]))
            ==> best_of(addresses, addresses.len() as int) is Some,
{
    lemma_best(addresses, addresses.len() as int);
    if exists|i: int| 0 <= i < addresses.len() && is_useful(#[trigger] addresses[i]) {
        let i = choose|i: int| 0 <= i < addresses.len() && is_useful(#[trigger] addresses[i]);
        lemma_rank(addresses[i]);
        crate::network::law_best_address_ranks_highest(addresses, addresses.len() as int, i);
    }
}

proof fn lemma_best(addresses: Seq<IpAddress>, count: int)
    requires
        0 <= count <= addresses.len(),
    ensures
        best_of(addresses, count) matches Some(best) ==> is_useful(best) && exists|i: int|
            0 <= i < count && #[trigger] addresses[i] == best && (forall|j: int|
                0 <= j < i ==> rank_of(#[trigger] addresses[j]) < rank_of(best)),
    decreases count,
{
    if count > 0 {
        lemma_best(addresses, count - 1);
        let next = addresses[count - 1];
        lemma_rank(next);
        if best_of(addresses, count) == Some(next) {
            if best_of(addresses, count - 1) != Some(next) {
                assert forall|j: int| 0 <= j < count - 1 implies rank_of(#[trigger] addresses[j])
                    < rank_of(next) by {
                    crate::network::law_best_address_ranks_highest(addresses, count - 1, j);
                }
                assert(addresses[count - 1] == next);
            }
        }
    }
}

/// A global IPv4 address is shown before a global IPv6 address, that before a link-local
/// IPv6 address, and a link-local IPv4 address only where there is nothing else.
pub proof fn law_better_addresses_are_shown_first(addresses: Seq<IpAddress>, i: int)
    requires
        0 <= i < addresses.len(),
        is_useful(addresses[i]),
    ensures
        best_of(addresses, addresses.len() as int) is Some,
        ({
            let best = best_of(addresses, addresses.len() as int)->0;
            &&& is_global(addresses[i]) ==> is_global(best)
            &&& is_global(addresses[i]) && addresses[i] is V4 ==> best is V4
            &&& is_link_local(addresses[i]) && addresses[i] is V6 ==> is_global(best) || best is V6
        }),
{
    crate::network::law_best_address_ranks_highest(addresses, addresses.len() as int, i);
    lemma_rank(addresses[i]);
    lemma_rank(best_of(addresses, addresses.len() as int)->0);
}

/// Of two addresses that are equally good the first one is shown.
pub proof fn law_first_of_equals_is_shown(addresses: Seq<IpAddress>, i: int)
    requires
        0 <= i < addresses.len(),
        forall|j: int| 0 <= j < addresses.len() ==> is_global(#[trigger] addresses[j]),
        addresses[i] is V4,
        forall|j: int| 0 <= j < i ==> #[trigger] addresses[j] is V6,
    ensures
        best_of(addresses, addresses.len() as int) == Some(addresses[i]),
{
    lemma_best(addresses, addresses.len() as int);
    law_better_addresses_are_shown_first(addresses, i);
    let best = best_of(addresses, addresses.len() as int)->0;
    let k = choose|k: int|
        0 <= k < addresses.len() && #[trigger] addresses[k] == best && (forall|j: int|
            0 <= j < k ==> rank_of(#[trigger] addresses[j]) < rank_of(best));
    lemma_rank(addresses[i]);
    lemma_rank(best);
}

/// The kernel writes an IPv4 gateway with its last byte first: what is shown has the bytes
/// in the usual order, and turning them round twice changes nothing.
pub proof fn law_gateways_are_turned_round(a: int, b: int, c: int, d: int)
    requires
        0 <= a < 256,
        0 <= b < 256,
        0 <= c < 256,
        0 <= d < 256,
    ensures
        reversed_bytes(d * 0x100_0000 + c * 0x1_0000 + b * 0x100 + a) == a * 0x100_0000 + b
            * 0x1_0000 + c * 0x100 + d,
{
    let value = d * 0x100_0000 + c * 0x1_0000 + b * 0x100 + a;
    assert(value / 256 == d * 0x1_0000 + c * 0x100 + b);
    assert(value / 0x1_0000 == d * 0x100 + c);
    assert(value / 0x100_0000 == d);
    assert(value % 256 == a);
    assert((d * 0x1_0000 + c * 0x100 + b) % 256 == b);
    assert((d * 0x100 + c) % 256 == c);
}

/// A line of the IPv4 table is a default route if and only if its destination and its mask
/// are 0 and it is up and not rejecting. The route is over the interface in the first
/// field, by the gateway in the third, with the metric in the seventh.
pub proof fn law_ipv4_routes_are_read_from_their_fields(
    fields: Seq<Seq<char>>,
    gateway: int,
    flags: int,
    metric: int,
)
    requires
        fields.len() >= 8,
        unsigned_of(fields[2], 16, u32::MAX as int) == Some(gateway),
        unsigned_of(fields[3], 16, u32::MAX as int) == Some(flags),
        unsigned_of(fields[6], 10, u32::MAX as int) == Some(metric),
        0 <= gateway <= u32::MAX,
        0 <= metric <= u32::MAX,
    ensures
        ipv4_route_of(fields) is Some <==> {
            &&& unsigned_of(fields[1], 16, u32::MAX as int) == Some(0int)
            &&& unsigned_of(fields[7], 16, u32::MAX as int) == Some(0int)
            &&& flags % 2 == 1
            &&& flags % 1024 < 512
            &&& fields[0] != "lo"@
            &&& fields[0] != "Iface"@
        },
        ipv4_route_of(fields) matches Some(route) ==> {
            &&& route.interface == fields[0]
            &&& route.metric == metric
            &&& route.gateway is None <==> gateway == 0
            &&& gateway != 0 ==> route.gateway is Some && route.gateway->0 is V4 && reversed_bytes(
                route.gateway->0->V4_0 as int,
            ) == gateway
        },
{
    let a = gateway % 256;
    let b = gateway / 256 % 256;
    let c = gateway / 0x1_0000 % 256;
    let d = gateway / 0x100_0000;
    assert(gateway == d * 0x100_0000 + c * 0x1_0000 + b * 0x100 + a);
    law_gateways_are_turned_round(a, b, c, d);
    law_gateways_are_turned_round(d, c, b, a);
}

/// A line of the IPv6 table is a default route if and only if its destination and prefix
/// length are 0 and it is up and not rejecting. The route is over the interface in the last
/// field, by the gateway in the fifth, with the metric in the sixth.
pub proof fn law_ipv6_routes_are_read_from_their_fields(
    fields: Seq<Seq<char>>,
    gateway: int,
    flags: int,
    metric: int,
)
    requires
        fields.len() >= 10,
        ipv6_field(fields[4]) == Some(gateway),
        unsigned_of(fields[5], 16, u32::MAX as int) == Some(metric),
        unsigned_of(fields[8], 16, u32::MAX as int) == Some(flags),
        0 <= gateway <= u128::MAX,
        0 <= metric <= u32::MAX,
    ensures
        ipv6_route_of(fields) is Some <==> {
            &&& ipv6_field(fields[0]) == Some(0int)
            &&& unsigned_of(fields[1], 16, 255) == Some(0int)
            &&& flags % 2 == 1
            &&& flags % 1024 < 512
            &&& fields[9] != "lo"@
        },
        ipv6_route_of(fields) matches Some(route) ==> {
            &&& route.interface == fields[9]
            &&& route.metric == metric
            &&& route.gateway is None <==> gateway == 0
            &&& gateway != 0 ==> route.gateway == Some(IpAddress::V6(gateway as u128))
        },
{
}

/// A line of either table that lacks a field, or whose numbers cannot be read, is no route.
pub proof fn law_unreadable_lines_are_no_routes(fields: Seq<Seq<char>>)
    ensures
        fields.len() < 8 ==> ipv4_route_of(fields) is None,
        fields.len() < 10 ==> ipv6_route_of(fields) is None,
        unsigned_of(fields[6], 10, u32::MAX as int) is None ==> ipv4_route_of(fields) is None,
        unsigned_of(fields[2], 16, u32::MAX as int) is None ==> ipv4_route_of(fields) is None,
        ipv6_field(fields[4]) is None ==> ipv6_route_of(fields) is None,
        unsigned_of(fields[5], 16, u32::MAX as int) is None ==> ipv6_route_of(fields) is None,
{
}

/// The routes of a table are those of its lines, in their order.
pub proof fn law_tables_are_read_line_by_line(lines: Seq<Seq<char>>, line: Seq<char>)
    ensures
        ({
            let all = lines.push(line);
            let before = ipv4_routes_of(lines, lines.len() as int);
            let after = ipv4_routes_of(all, all.len() as int);
            match ipv4_route_of(words_of(line)) {
                Some(route) => after == before.push(route),
                None => after == before,
            }
        }),
        ({
            let all = lines.push(line);
            let before = ipv6_routes_of(lines, lines.len() as int);
            let after = ipv6_routes_of(all, all.len() as int);
            match ipv6_route_of(words_of(line)) {
                Some(route) => after == before.push(route),
                None => after == before,
            }
        }),
        ipv4_routes_of(Seq::empty(), 0).len() == 0,
        ipv6_routes_of(Seq::empty(), 0).len() == 0,
{
    lemma_routes_prefix(lines, line, lines.len() as int);
}

proof fn lemma_routes_prefix(lines: Seq<Seq<char>>, line: Seq<char>, count: int)
    requires
        0 <= count <= lines.len(),
    ensures
        ipv4_routes_of(lines.push(line), count) == ipv4_routes_of(lines, count),
        ipv6_routes_of(lines.push(line), count) == ipv6_routes_of(lines, count),
    decreases count,
{
    if count > 0 {
        lemma_routes_prefix(lines, line, count - 1);
    }
}

/// A route counts only over a live interface with a proper name, and over no other one than
/// the configured interface where there is one.
pub proof fn law_routes_of_other_interfaces_do_not_count(
    route: RouteView,
    live: bool,
    explicit: Option<Seq<char>>,
)
    ensures
        !live ==> !eligible(route, live, explicit),
        !is_interface_name(route.interface) ==> !eligible(route, live, explicit),
        explicit is None && live && is_interface_name(route.interface) ==> eligible(
            route,
            live,
            explicit,
        ),
        explicit matches Some(wanted) ==> (eligible(route, live, explicit) <==> live
            && is_interface_name(route.interface) && wanted == route.interface),
{
}

/// An interface is up if the lowest bit of its flags is set, written with `0x` or without.
pub proof fn law_flags_tell_whether_an_interface_is_up(flags: Seq<char>, bits: int)
    requires
        unsigned_of(trimmed(flags), 16, u32::MAX as int) == Some(bits) || (starts(
            trimmed(flags),
            "0x"@,
        ) && !starts(trimmed(flags).skip(2), "0x"@) && unsigned_of(
            trimmed(flags).skip(2),
            16,
            u32::MAX as int,
        ) == Some(bits)),
    ensures
        says_up(flags) <==> bits % 2 == 1,
{
    reveal_strlit("0x");
    let text = trimmed(flags);
    reveal_with_fuel(without_hex_prefix, 3);
    assert("0x"@.len() == 2 && "0x"@[0] == '0' && "0x"@[1] == 'x');
    if text.len() >= 2 && text[0] == '0' && text[1] == 'x' {
        assert(text.take(2) =~= "0x"@);
        if text.skip(2).len() >= 2 && text.skip(2)[0] == '0' && text.skip(2)[1] == 'x' {
            assert(text.skip(2).take(2) =~= "0x"@);
        }
        assert(unsigned_of(text, 16, u32::MAX as int) is None) by {
            lemma_x_is_no_digit(text);
        }
    }
}

proof fn lemma_x_is_no_digit(text: Seq<char>)
    requires
        text.len() >= 2,
        text[0] == '0',
        text[1] == 'x',
    ensures
        unsigned_of(text, 16, u32::MAX as int) is None,
{
    let digits = crate::text::unsigned_digits(text);
    if crate::text::all_digits(digits, 16) {
        assert(digits[1] == 'x');
        assert(false);
    }
}

/// An interface can carry traffic while its state is "up", "unknown" or "dormant", and in
/// no other state.
pub proof fn law_working_states(state: Seq<char>)
    ensures
        trimmed(state) == "up"@ ==> says_working(state),
        trimmed(state) == "unknown"@ ==> says_working(state),
        trimmed(state) == "dormant"@ ==> says_working(state),
        says_working(state) ==> trimmed(state) == "up"@ || trimmed(state) == "unknown"@ || trimmed(
            state,
        ) == "dormant"@,
{
}

/// A tunnel is a VPN, by its name, its tunnel flags or a virtual device without a link
/// layer. Of the other interfaces, those with a wireless directory are Wi-Fi and the rest
/// Ethernet. None is offline by itself.
pub proof fn law_kinds_of_interfaces(interface: Seq<char>, device: Device)
    ensures
        starts(interface, "tun"@) ==> kind_of(interface, device) == NetworkKind::Vpn,
        starts(interface, "tap"@) ==> kind_of(interface, device) == NetworkKind::Vpn,
        starts(interface, "wg"@) ==> kind_of(interface, device) == NetworkKind::Vpn,
        starts(interface, "ppp"@) ==> kind_of(interface, device) == NetworkKind::Vpn,
        starts(interface, "tailscale"@) ==> kind_of(interface, device) == NetworkKind::Vpn,
        device.tunnel_flags ==> kind_of(interface, device) == NetworkKind::Vpn,
        device.link matches Some(link) ==> found_at(link@, "/devices/virtual/net/"@, 0) is Some
            ==> (device.link_type matches Some(code) ==> trimmed(code@) == "65534"@ ==> kind_of(
            interface,
            device,
        ) == NetworkKind::Vpn),
        !tunnel_name(interface) && !device.tunnel_flags && (device.link is None || device.link_type
            is None) ==> kind_of(interface, device) == (if device.wireless {
            NetworkKind::Wifi
        } else {
            NetworkKind::Ethernet
        }),
        kind_of(interface, device) != NetworkKind::Offline,
{
}

/// A connection is over the interface and the gateway of its route, with the address of the
/// interface; it is offline without an address or without a route, and nothing is
/// measured of it yet.
pub proof fn law_connections_follow_their_route(
    route: Option<RouteView>,
    explicit: Option<Seq<char>>,
    address: Option<IpAddress>,
    kind: NetworkKind,
)
    ensures
        ({
            let connection = connection_of(route, explicit, address, kind);
            &&& route matches Some(route) ==> connection.interface == route.interface
                && connection.gateway == route.gateway && connection.address == address
            &&& route is Some && address is Some ==> connection.kind == kind
            &&& route is None || address is None ==> connection.kind == NetworkKind::Offline
            &&& route is None ==> connection.gateway is None
            &&& route is None ==> (explicit matches Some(interface) ==> connection.interface
                == interface && (is_interface_name(interface) ==> connection.address == address))
            &&& route is None && explicit is None ==> connection.interface.len() == 0
            &&& connection.rx_bytes == 0 && connection.tx_bytes == 0
            &&& connection.rx_per_second is None && connection.tx_per_second is None
            &&& connection.ping_ms is None && connection.loss_percent is None
                && connection.probe_error is None
        }),
{
}

/// The received and sent bytes are kept as long as the interface is, and start over with
/// another one.
pub proof fn law_traffic_belongs_to_its_interface(
    snapshot: SnapshotView,
    connection: SnapshotView,
)
    ensures
        ({
            let after = connected(snapshot, connection);
            &&& snapshot.interface == connection.interface ==> after.rx_bytes == snapshot.rx_bytes
                && after.tx_bytes == snapshot.tx_bytes
            &&& snapshot.interface != connection.interface ==> after.rx_bytes == 0
                && after.tx_bytes == 0
            &&& same_connection(after, snapshot) <==> same_connection(connection, snapshot)
        }),
{
}

/// The received rate comes from the received bytes and the sent rate from the sent bytes:
/// over the time between two readings, each makes up what its counter has grown by, to
/// the byte per second.
pub proof fn law_rates_make_up_the_traffic(before: SampleView, after: SampleView)
    requires
        before.interface == after.interface,
        before.rx <= after.rx,
        before.tx <= after.tx,
        before.at < after.at,
    ensures
        ({
            let nanos = after.at - before.at;
            let rates = rates_between(Some(before), after);
            &&& rates.0 is Some && rates.1 is Some
            &&& rates.0->0 < u64::MAX ==> rates.0->0 * nanos <= (after.rx - before.rx)
                * 1_000_000_000 < (rates.0->0 + 1) * nanos
            &&& rates.1->0 < u64::MAX ==> rates.1->0 * nanos <= (after.tx - before.tx)
                * 1_000_000_000 < (rates.1->0 + 1) * nanos
            &&& rates.0->0 == u64::MAX ==> u64::MAX * nanos <= (after.rx - before.rx)
                * 1_000_000_000
            &&& rates.1->0 == u64::MAX ==> u64::MAX * nanos <= (after.tx - before.tx)
                * 1_000_000_000
        }),
{
    lemma_per_second(after.rx - before.rx, after.at - before.at);
    lemma_per_second(after.tx - before.tx, after.at - before.at);
}

proof fn lemma_per_second(bytes: int, nanos: int)
    requires
        bytes >= 0,
        nanos > 0,
    ensures
        ({
            let rate = per_second(bytes, nanos);
            &&& rate < u64::MAX ==> rate * nanos <= bytes * 1_000_000_000 < (rate + 1) * nanos
            &&& rate == u64::MAX ==> u64::MAX * nanos <= bytes * 1_000_000_000
        }),
{
    let total = bytes * 1_000_000_000;
    vstd::arithmetic::div_mod::lemma_fundamental_div_mod(total, nanos);
    let quotient = total / nanos;
    let rest = total % nanos;
    assert(quotient >= 0 && quotient * nanos <= total < (quotient + 1) * nanos) by (nonlinear_arith)
        requires
            total == nanos * quotient + rest,
            0 <= rest < nanos,
            total >= 0,
    ;
    if quotient >= u64::MAX {
        assert(u64::MAX * nanos <= quotient * nanos) by (nonlinear_arith)
            requires
                u64::MAX <= quotient,
                nanos > 0,
        ;
    }
}

/// There are no rates across interfaces, across a counter that went back, or without time
/// passing; nor at the first reading.
pub proof fn law_rates_need_two_readings(before: Option<SampleView>, after: SampleView)
    requires
        before matches Some(before) ==> before.interface != after.interface || after.rx
            < before.rx || after.tx < before.tx || after.at <= before.at,
    ensures
        rates_between(before, after).0 is None,
        rates_between(before, after).1 is None,
{
}

/// The first counter is of what was received and the second of what was sent. The reading
/// is kept for the next one.
pub proof fn law_counters_are_taken_over(
    snapshot: SnapshotView,
    sampler: Option<SampleView>,
    rx: u64,
    tx: u64,
    now: u64,
)
    requires
        snapshot.kind != NetworkKind::Offline,
        is_interface_name(snapshot.interface),
    ensures
        ({
            let (after, sample) = counted(snapshot, sampler, Some((rx, tx)), now);
            &&& after.rx_bytes == rx
            &&& after.tx_bytes == tx
            &&& sample is Some
            &&& sample->0.rx == rx
            &&& sample->0.tx == tx
            &&& sample->0.at == now
            &&& sample->0.interface == snapshot.interface
            &&& same_connection(after, snapshot)
            &&& after.ping_ms == snapshot.ping_ms
            &&& after.loss_percent == snapshot.loss_percent
            &&& after.probe_error == snapshot.probe_error
        }),
{
}

/// Two readings in a row give the rates between them.
pub proof fn law_two_readings_give_rates(
    snapshot: SnapshotView,
    sampler: Option<SampleView>,
    first: (u64, u64),
    second: (u64, u64),
    now: u64,
    later: u64,
)
    requires
        snapshot.kind != NetworkKind::Offline,
        is_interface_name(snapshot.interface),
        first.0 <= second.0,
        first.1 <= second.1,
        now < later,
    ensures
        ({
            let (after, sample) = counted(snapshot, sampler, Some(first), now);
            let (last, _) = counted(after, sample, Some(second), later);
            &&& last.rx_per_second == Some(per_second(second.0 - first.0, later - now))
            &&& last.tx_per_second == Some(per_second(second.1 - first.1, later - now))
        }),
{
}

/// Without a connection or without counters there are no rates, and the bytes counted so
/// far stay.
pub proof fn law_unread_counters_leave_the_traffic(
    snapshot: SnapshotView,
    sampler: Option<SampleView>,
    counters: Option<(u64, u64)>,
    now: u64,
)
    requires
        snapshot.kind == NetworkKind::Offline || !is_interface_name(snapshot.interface)
            || counters is None,
    ensures
        ({
            let (after, sample) = counted(snapshot, sampler, counters, now);
            &&& after.rx_per_second is None && after.tx_per_second is None
            &&& after.rx_bytes == snapshot.rx_bytes && after.tx_bytes == snapshot.tx_bytes
            &&& same_connection(after, snapshot)
            &&& after.ping_ms == snapshot.ping_ms && after.loss_percent == snapshot.loss_percent
            &&& sample == sampler
        }),
{
}

/// What follows the digits of a counter does not count.
pub proof fn law_counters_end_with_their_digits(digits: Seq<u8>, rest: Seq<u8>)
    requires
        forall|i: int| 0 <= i < digits.len() ==> 48 <= #[trigger] digits[i] <= 57,
        rest.len() == 0 || !(48 <= rest[0] <= 57),
    ensures
        digits.len() == 0 ==> counter_of(digits + rest) is None,
        digits.len() > 0 && digits_value(digits) <= u64::MAX ==> counter_of(digits + rest) == Some(
            digits_value(digits),
        ),
        digits.len() > 0 && digits_value(digits) > u64::MAX ==> counter_of(digits + rest) is None,
{
    lemma_leading(digits, rest);
}

proof fn lemma_leading(digits: Seq<u8>, rest: Seq<u8>)
    requires
        forall|i: int| 0 <= i < digits.len() ==> 48 <= #[trigger] digits[i] <= 57,
        rest.len() == 0 || !(48 <= rest[0] <= 57),
    ensures
        leading_digits(digits + rest) == digits,
    decreases digits.len(),
{
    let all = digits + rest;
    if digits.len() > 0 {
        lemma_leading(digits.skip(1), rest);
        assert(all.skip(1) =~= digits.skip(1) + rest);
        assert(all[0] == digits[0]);
        assert(seq![digits[0]] + digits.skip(1) =~= digits);
    } else {
        assert(all =~= rest);
        assert(leading_digits(all) =~= digits);
    }
}

/// Counters are decimal numbers.
pub proof fn law_counters_are_decimal(digits: Seq<u8>, digit: u8)
    ensures
        digits_value(seq![digit]) == digit - 48,
        digits_value(digits.push(digit)) == 10 * digits_value(digits) + (digit - 48),
{
    assert(digits.push(digit).drop_last() =~= digits);
    assert(seq![digit].drop_last() =~= Seq::<u8>::empty());
    reveal_with_fuel(digits_value, 2);
}

/// Forgetting the probes leaves the traffic, forgetting the rates leaves the probes, and
/// both leave the connection.
pub proof fn law_only_measurements_are_forgotten(snapshot: SnapshotView)
    ensures
        unprobed(snapshot).ping_ms is None,
        unprobed(snapshot).loss_percent is None,
        unprobed(snapshot).probe_error is None,
        unrated(unprobed(snapshot)) == unprobed(unrated(snapshot)),
        same_connection(unprobed(snapshot), snapshot),
        same_connection(unrated(snapshot), snapshot),
        unprobed(snapshot).rx_per_second == snapshot.rx_per_second,
        unprobed(snapshot).tx_per_second == snapshot.tx_per_second,
        unrated(snapshot).rx_bytes == snapshot.rx_bytes,
        unrated(snapshot).tx_bytes == snapshot.tx_bytes,
        unrated(snapshot).rx_per_second is None,
        unrated(snapshot).tx_per_second is None,
        unrated(snapshot).ping_ms == snapshot.ping_ms,
{
}

/// A field of the IPv6 table is 32 digits, two for each byte, the first byte counting most.
pub proof fn law_ipv6_fields_are_read_byte_by_byte(text: Seq<char>, bytes: int, head: int, byte: int)
    requires
        0 <= bytes < 16,
        ipv6_of(text, bytes) == Some(head),
        unsigned_of(text.subrange(2 * bytes, 2 * bytes + 2), 16, 255) == Some(byte),
    ensures
        ipv6_of(text, bytes + 1) == Some(256 * head + byte),
        ipv6_of(text, 0) == Some(0int),
        text.len() == 32 ==> ipv6_field(text) == ipv6_of(text, 16),
        text.len() != 32 ==> ipv6_field(text) is None,
{
    assert(2 * (bytes + 1) - 2 == 2 * bytes);
}

/// The selected route is over a live interface, over the configured one where there is one,
/// and no such route has a lower metric; of equal ones it is the first. Some route is
/// selected as soon as there is one.
pub proof fn law_selected_routes_have_the_lowest_metric(
    routes: Seq<Route>,
    live: Seq<bool>,
    explicit: Option<Seq<char>>,
    selected: Option<usize>,
    other: int,
)
    requires
        is_selected(routes, live, explicit, selected),
        0 <= other < routes.len(),
        live[other],
        is_interface_name(routes[other].interface@),
        explicit matches Some(wanted) ==> routes[other].interface@ == wanted,
    ensures
        selected is Some,
        selected->0 < routes.len(),
        live[selected->0 as int],
        explicit matches Some(wanted) ==> routes[selected->0 as int].interface@ == wanted,
        routes[selected->0 as int].metric <= routes[other].metric,
        routes[selected->0 as int].metric == routes[other].metric ==> selected->0 <= other,
{
    assert(eligible(routes[other]@, live[other], explicit));
}

} // verus!
