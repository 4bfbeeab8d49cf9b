//! The state of the network: routes, addresses, traffic and probes.
//!
//! Moments are nanoseconds of a monotonic clock. A round-trip time is held as
//! the bit pattern of a double-precision number of milliseconds.

pub mod laws;
pub mod probe;
pub mod probe_laws;
pub mod worker;

use vstd::prelude::*;
use vstd::slice::slice_subrange;

use crate::config::{is_interface_name, valid_interface_name};
use crate::text::{
    chars_of, find_text, found_at, lines_of, option_view, parse_unsigned, same_text, split_lines,
    split_words, starts, string_of, strip_prefix, trim, trimmed, unsigned_of, views, words_of,
};

verus! {

#[derive(Clone, Copy, Debug, PartialEq, Eq, Structural)]
pub enum NetworkKind {
    Offline,
    Ethernet,
    Wifi,
    Vpn,
}

impl Default for NetworkKind {
    fn default() -> (result: Self)
        ensures
            result == NetworkKind::Offline,
    {
        NetworkKind::Offline
    }
}

/// An IP address as the number that its bytes stand for, the first byte counting most.
#[derive(Clone, Copy, Debug, PartialEq, Eq, Structural)]
pub enum IpAddress {
    V4(u32),
    V6(u128),
}

/// What the network's thread is set to: the one interface that counts, if any,
/// and the address that probes go to.
#[derive(Debug)]
pub struct NetworkOptions {
    pub interface: Option<String>,
    pub ping_target: IpAddress,
}

impl NetworkOptions {
    /// Whether the thread may start.
    pub fn valid(&self) -> (result: bool)
        ensures
            result == (self.interface matches Some(interface) ==> is_interface_name(interface@)),
    {
        match &self.interface {
            Some(interface) => valid_interface_name(interface.as_str()),
            None => true,
        }
    }
}

/// How useful an address is to show; 0 for one that is not.
pub open spec fn rank_of(address: IpAddress) -> u8 {
    match address {
        IpAddress::V4(number) => if number == 0 || number as int / 0x100_0000 == 127 {
            0
        } else if number as int / 0x1_0000 == 169 * 256 + 254 {
            1
        } else {
            4
        },
        IpAddress::V6(number) => if number == 0 || number == 1 {
            0
        } else if number as int / 0x40_0000_0000_0000_0000_0000_0000_0000 == 0xfe80int / 64 {
            2
        } else {
            3
        },
    }
}

pub fn address_rank(address: IpAddress) -> (result: u8)
    ensures
        result == rank_of(address),
{
    match address {
        IpAddress::V4(number) => if number == 0 || number / 0x100_0000 == 127 {
            0
        } else if number / 0x1_0000 == 169 * 256 + 254 {
            1
        } else {
            4
        },
        IpAddress::V6(number) => if number == 0 || number == 1 {
            0
        } else if number / 0x40_0000_0000_0000_0000_0000_0000_0000 == 0xfe80 / 64 {
            2
        } else {
            3
        },
    }
}

/// The first of the best addresses among the first `count`.
pub open spec fn best_of(addresses: Seq<IpAddress>, count: int) -> Option<IpAddress>
    decreases count,
{
    if count <= 0 {
        None
    } else {
        let next = addresses[count - 1];
        match best_of(addresses, count - 1) {
            Some(best) => if rank_of(next) > rank_of(best) {
                Some(next)
            } else {
                Some(best)
            },
            None => if rank_of(next) != 0 {
                Some(next)
            } else {
                None
            },
        }
    }
}

/// The address of an interface that is shown.
pub fn best_address(addresses: &Vec<IpAddress>) -> (result: Option<IpAddress>)
    ensures
        result == best_of(addresses@, addresses@.len() as int),
{
    let mut best: Option<IpAddress> = None;
    let mut i: usize = 0;
    while i < addresses.len()
        invariant
            i <= addresses@.len(),
            best == best_of(addresses@, i as int),
        decreases addresses@.len() - i,
    {
        let address = addresses[i];
        let rank = address_rank(address);
        best = match best {
            Some(current) => if rank > address_rank(current) {
                Some(address)
            } else {
                Some(current)
            },
            None => if rank != 0 {
                Some(address)
            } else {
                None
            },
        };
        i += 1;
    }
    best
}

/// The shown address is the best there is.
pub proof fn law_best_address_ranks_highest(addresses: Seq<IpAddress>, count: int, i: int)
    requires
        0 <= i < count <= addresses.len(),
    ensures
        match best_of(addresses, count) {
            Some(best) => rank_of(addresses[i]) <= rank_of(best) && rank_of(best) > 0,
            None => rank_of(addresses[i]) == 0,
        },
    decreases count,
{
    if i < count - 1 {
        law_best_address_ranks_highest(addresses, count - 1, i);
    } else if count > 1 {
        law_best_address_ranks_highest(addresses, count - 1, 0);
    }
}

/// A default route.
#[derive(Debug)]
pub struct Route {
    pub interface: String,
    pub gateway: Option<IpAddress>,
    pub metric: u32,
}

/// The view of a route.
pub ghost struct RouteView {
    pub interface: Seq<char>,
    pub gateway: Option<IpAddress>,
    pub metric: u32,
}

impl View for Route {
    type V = RouteView;

    open spec fn view(&self) -> RouteView {
        RouteView { interface: self.interface@, gateway: self.gateway, metric: self.metric }
    }
}

/// The views of some routes.
pub open spec fn route_views(routes: Seq<Route>) -> Seq<RouteView> {
    Seq::new(routes.len(), |i: int| routes[i]@)
}

proof fn lemma_route_views_push(routes: Seq<Route>, route: Route)
    ensures
        route_views(routes.push(route)) == route_views(routes).push(route@),
{
    assert(route_views(routes.push(route)) =~= route_views(routes).push(route@));
}

/// The number with the bytes of another one in reverse.
pub open spec fn reversed_bytes(value: int) -> int {
    value % 256 * 0x100_0000 + value / 256 % 256 * 0x1_0000 + value / 0x1_0000 % 256 * 256 + value
        / 0x100_0000
}

fn reverse_bytes(value: u32) -> (result: u32)
    ensures
        result == reversed_bytes(value as int),
{
    value % 256 * 0x100_0000 + value / 256 % 256 * 0x1_0000 + value / 0x1_0000 % 256 * 256 + value
        / 0x100_0000
}

/// Whether a route is up and does not reject.
pub open spec fn route_usable(flags: int) -> bool {
    flags % 2 == 1 && flags / 512 % 2 == 0
}

/// The default route that a line of the kernel's IPv4 table stands for, if any:
/// interface, destination, gateway and flags, then two fields, metric and mask.
pub open spec fn ipv4_route_of(fields: Seq<Seq<char>>) -> Option<RouteView> {
    let most = u32::MAX as int;
    let destination = unsigned_of(fields[1], 16, most);
    let gateway = unsigned_of(fields[2], 16, most);
    let flags = unsigned_of(fields[3], 16, most);
    let metric = unsigned_of(fields[6], 10, most);
    let mask = unsigned_of(fields[7], 16, most);
    if fields.len() < 8 || fields[0] == "Iface"@ || fields[0] == "lo"@ || destination != Some(0int)
        || gateway is None || flags is None || metric is None || mask != Some(0int)
        || !route_usable(flags->0) {
        None
    } else {
        Some(
            RouteView {
                interface: fields[0],
                gateway: if gateway->0 != 0 {
                    Some(IpAddress::V4(reversed_bytes(gateway->0) as u32))
                } else {
                    None
                },
                metric: metric->0 as u32,
            },
        )
    }
}

fn parse_u32(field: &[char], radix: u32) -> (result: Option<u32>)
    requires
        2 <= radix <= 36,
    ensures
        match result {
            Some(value) => unsigned_of(field@, radix as int, u32::MAX as int) == Some(
                value as int,
            ),
            None => unsigned_of(field@, radix as int, u32::MAX as int) is None,
        },
{
    match parse_unsigned(field, radix, u32::MAX as u64) {
        Some(value) => Some(value as u32),
        None => None,
    }
}

fn parse_ipv4_route(fields: &Vec<&[char]>) -> (result: Option<Route>)
    ensures
        match result {
            Some(route) => ipv4_route_of(views(fields@)) == Some(route@),
            None => ipv4_route_of(views(fields@)) is None,
        },
{
    if fields.len() < 8 {
        return None;
    }
    let interface = string_of(fields[0]);
    if same_text(interface.as_str(), "Iface") || same_text(interface.as_str(), "lo") {
        return None;
    }
    let (destination, gateway, flags, metric, mask) = match (
        parse_u32(fields[1], 16),
        parse_u32(fields[2], 16),
        parse_u32(fields[3], 16),
        parse_u32(fields[6], 10),
        parse_u32(fields[7], 16),
    ) {
        (Some(destination), Some(gateway), Some(flags), Some(metric), Some(mask)) => (
            destination,
            gateway,
            flags,
            metric,
            mask,
        ),
        _ => return None,
    };
    if destination != 0 || mask != 0 || flags % 2 == 0 || flags / 512 % 2 != 0 {
        return None;
    }
    Some(
        Route {
            interface,
            gateway: if gateway != 0 {
                Some(IpAddress::V4(reverse_bytes(gateway)))
            } else {
                None
            },
            metric,
        },
    )
}

/// The default routes of the first `count` lines of the IPv4 table.
pub open spec fn ipv4_routes_of(lines: Seq<Seq<char>>, count: int) -> Seq<RouteView>
    decreases count,
{
    if count <= 0 {
        Seq::empty()
    } else {
        let before = ipv4_routes_of(lines, count - 1);
        match ipv4_route_of(words_of(lines[count - 1])) {
            Some(route) => before.push(route),
            None => before,
        }
    }
}

pub fn parse_ipv4_routes(input: &str) -> (result: Vec<Route>)
    ensures
        route_views(result@) == ipv4_routes_of(
            lines_of(input@),
            lines_of(input@).len() as int,
        ),
{
    let characters = chars_of(input);
    let lines = split_lines(characters.as_slice());
    let ghost all = views(lines@);
    let mut routes: Vec<Route> = Vec::new();
    let mut i: usize = 0;
    assert(route_views(routes@) =~= Seq::<RouteView>::empty());
    while i < lines.len()
        invariant
            i <= lines@.len(),
            all == views(lines@),
            route_views(routes@) == ipv4_routes_of(all, i as int),
        decreases lines@.len() - i,
    {
        let fields = split_words(lines[i]);
        if let Some(route) = parse_ipv4_route(&fields) {
            proof {
                lemma_route_views_push(routes@, route);
            }
            routes.push(route);
        }
        i += 1;
    }
    routes
}

/// The address that 32 hexadecimal digits stand for, read byte by byte.
pub open spec fn ipv6_of(text: Seq<char>, bytes: int) -> Option<int>
    decreases bytes,
{
    if bytes <= 0 {
        Some(0)
    } else {
        match (
            ipv6_of(text, bytes - 1),
            unsigned_of(text.subrange(2 * bytes - 2, 2 * bytes), 16, 255),
        ) {
            (Some(head), Some(byte)) => Some(head * 256 + byte),
            _ => None,
        }
    }
}

/// The address of a field of the IPv6 table.
pub open spec fn ipv6_field(text: Seq<char>) -> Option<int> {
    if text.len() == 32 {
        ipv6_of(text, 16)
    } else {
        None
    }
}

proof fn lemma_ipv6_bound(text: Seq<char>, bytes: int)
    requires
        0 <= bytes <= 16,
    ensures
        ipv6_of(text, bytes) matches Some(value) ==> 0 <= value < vstd::arithmetic::power::pow(
            256,
            bytes as nat,
        ),
    decreases bytes,
{
    vstd::arithmetic::power::lemma_pow0(256);
    if bytes > 0 {
        lemma_ipv6_bound(text, bytes - 1);
        vstd::arithmetic::power::lemma_pow_adds(256, (bytes - 1) as nat, 1);
        vstd::arithmetic::power::lemma_pow1(256);
        let part = text.subrange(2 * bytes - 2, 2 * bytes);
        let digits = crate::text::unsigned_digits(part);
        if crate::text::all_digits(digits, 16) {
            crate::text::lemma_number_of_prefix(digits, 16, digits.len() as int);
            assert(digits.take(digits.len() as int) =~= digits);
        }
    }
}

proof fn lemma_pow256()
    ensures
        vstd::arithmetic::power::pow(256, 16) == 0x1_0000_0000_0000_0000_0000_0000_0000_0000int,
        vstd::arithmetic::power::pow(256, 15) == 0x1_00_0000_0000_0000_0000_0000_0000_0000int,
{
    vstd::arithmetic::power::lemma_pow1(256);
    vstd::arithmetic::power::lemma_pow_adds(256, 1, 1);
    vstd::arithmetic::power::lemma_pow_adds(256, 2, 2);
    vstd::arithmetic::power::lemma_pow_adds(256, 4, 4);
    vstd::arithmetic::power::lemma_pow_adds(256, 8, 8);
    vstd::arithmetic::power::lemma_pow_adds(256, 8, 4);
    vstd::arithmetic::power::lemma_pow_adds(256, 12, 2);
    vstd::arithmetic::power::lemma_pow_adds(256, 14, 1);
    assert(256 * 256 == 0x1_0000);
    assert(0x1_0000 * 0x1_0000 == 0x1_0000_0000);
    assert(0x1_0000_0000int * 0x1_0000_0000int == 0x1_0000_0000_0000_0000int);
    assert(0x1_0000_0000_0000_0000int * 0x1_0000_0000_0000_0000int
        == 0x1_0000_0000_0000_0000_0000_0000_0000_0000int);
    assert(0x1_0000_0000_0000_0000int * 0x1_0000_0000int == 0x1_0000_0000_0000_0000_0000_0000int);
    assert(0x1_0000_0000_0000_0000_0000_0000int * 0x1_0000int
        == 0x1_0000_0000_0000_0000_0000_0000_0000int);
    assert(0x1_0000_0000_0000_0000_0000_0000_0000int * 256int
        == 0x1_00_0000_0000_0000_0000_0000_0000_0000int);
}

fn parse_ipv6_hex(value: &[char]) -> (result: Option<u128>)
    ensures
        match result {
            Some(address) => ipv6_field(value@) == Some(address as int),
            None => ipv6_field(value@) is None,
        },
{
    if value.len() != 32 {
        return None;
    }
    let mut address: u128 = 0;
    let mut i: usize = 0;
    while i < 16
        invariant
            i <= 16,
            value@.len() == 32,
            ipv6_of(value@, i as int) == Some(address as int),
        decreases 16 - i,
    {
        proof {
            lemma_ipv6_bound(value@, i as int);
            lemma_pow256();
            vstd::arithmetic::power::lemma_pow_increases(256, i as nat, 15);
        }
        match parse_unsigned(slice_subrange(value, i * 2, i * 2 + 2), 16, 255) {
            Some(byte) => {
                address = address * 256 + byte as u128;
            },
            None => {
                proof {
                    lemma_ipv6_stays_none(value@, i + 1, 16);
                }
                return None;
            },
        }
        i += 1;
    }
    Some(address)
}

proof fn lemma_ipv6_stays_none(text: Seq<char>, early: int, late: int)
    requires
        early <= late,
        ipv6_of(text, early) is None,
    ensures
        ipv6_of(text, late) is None,
    decreases late - early,
{
    if early < late {
        lemma_ipv6_stays_none(text, early, late - 1);
    }
}

/// The default route that a line of the kernel's IPv6 table stands for, if any:
/// destination and prefix, then two fields, gateway, metric, two fields, flags
/// and interface.
pub open spec fn ipv6_route_of(fields: Seq<Seq<char>>) -> Option<RouteView> {
    let most = u32::MAX as int;
    let destination = ipv6_field(fields[0]);
    let prefix = unsigned_of(fields[1], 16, 255);
    let gateway = ipv6_field(fields[4]);
    let metric = unsigned_of(fields[5], 16, most);
    let flags = unsigned_of(fields[8], 16, most);
    if fields.len() < 10 || fields[9] == "lo"@ || destination != Some(0int) || prefix != Some(0int)
        || gateway is None || metric is None || flags is None || !route_usable(flags->0) {
        None
    } else {
        Some(
            RouteView {
                interface: fields[9],
                gateway: if gateway->0 != 0 {
                    Some(IpAddress::V6(gateway->0 as u128))
                } else {
                    None
                },
                metric: metric->0 as u32,
            },
        )
    }
}

fn parse_ipv6_route(fields: &Vec<&[char]>) -> (result: Option<Route>)
    ensures
        match result {
            Some(route) => ipv6_route_of(views(fields@)) == Some(route@),
            None => ipv6_route_of(views(fields@)) is None,
        },
{
    if fields.len() < 10 {
        return None;
    }
    let interface = string_of(fields[9]);
    if same_text(interface.as_str(), "lo") {
        return None;
    }
    let (destination, prefix, gateway, metric, flags) = match (
        parse_ipv6_hex(fields[0]),
        parse_unsigned(fields[1], 16, 255),
        parse_ipv6_hex(fields[4]),
        parse_u32(fields[5], 16),
        parse_u32(fields[8], 16),
    ) {
        (Some(destination), Some(prefix), Some(gateway), Some(metric), Some(flags)) => (
            destination,
            prefix,
            gateway,
            metric,
            flags,
        ),
        _ => return None,
    };
    if destination != 0 || prefix != 0 || flags % 2 == 0 || flags / 512 % 2 != 0 {
        return None;
    }
    Some(
        Route {
            interface,
            gateway: if gateway != 0 {
                Some(IpAddress::V6(gateway))
            } else {
                None
            },
            metric,
        },
    )
}

/// The default routes of the first `count` lines of the IPv6 table.
pub open spec fn ipv6_routes_of(lines: Seq<Seq<char>>, count: int) -> Seq<RouteView>
    decreases count,
{
    if count <= 0 {
        Seq::empty()
    } else {
        let before = ipv6_routes_of(lines, count - 1);
        match ipv6_route_of(words_of(lines[count - 1])) {
            Some(route) => before.push(route),
            None => before,
        }
    }
}

pub fn parse_ipv6_routes(input: &str) -> (result: Vec<Route>)
    ensures
        route_views(result@) == ipv6_routes_of(
            lines_of(input@),
            lines_of(input@).len() as int,
        ),
{
    let characters = chars_of(input);
    let lines = split_lines(characters.as_slice());
    let ghost all = views(lines@);
    let mut routes: Vec<Route> = Vec::new();
    let mut i: usize = 0;
    assert(route_views(routes@) =~= Seq::<RouteView>::empty());
    while i < lines.len()
        invariant
            i <= lines@.len(),
            all == views(lines@),
            route_views(routes@) == ipv6_routes_of(all, i as int),
        decreases lines@.len() - i,
    {
        let fields = split_words(lines[i]);
        if let Some(route) = parse_ipv6_route(&fields) {
            proof {
                lemma_route_views_push(routes@, route);
            }
            routes.push(route);
        }
        i += 1;
    }
    routes
}

/// Whether a route may carry the shown connection.
pub open spec fn eligible(route: RouteView, live: bool, explicit: Option<Seq<char>>) -> bool {
    &&& is_interface_name(route.interface)
    &&& explicit matches Some(interface) ==> route.interface == interface
    &&& live
}

/// Whether a route is the one that carries the shown connection, if there is any.
pub open spec fn is_selected(
    routes: Seq<Route>,
    live: Seq<bool>,
    explicit: Option<Seq<char>>,
    selected: Option<usize>,
) -> bool {
    match selected {
        Some(best) => {
            &&& best < routes.len()
            &&& eligible(routes[best as int]@, live[best as int], explicit)
            &&& forall|i: int|
                0 <= i < routes.len() && eligible(#[trigger] routes[i]@, live[i], explicit)
                    ==> routes[best as int].metric <= routes[i].metric && (i < best
                    ==> routes[best as int].metric < routes[i].metric)
        },
        None => forall|i: int|
            0 <= i < routes.len() ==> !eligible(#[trigger] routes[i]@, live[i], explicit),
    }
}

/// The position of the route with the lowest metric, the first of several,
/// among those of live interfaces and of the configured one, if any.
pub fn select_route(routes: &Vec<Route>, live: &Vec<bool>, explicit: &Option<String>) -> (result:
    Option<usize>)
    requires
        live@.len() == routes@.len(),
    ensures
        is_selected(routes@, live@, option_view(*explicit), result),
{
    let mut best: Option<usize> = None;
    let mut i: usize = 0;
    while i < routes.len()
        invariant
            i <= routes@.len(),
            live@.len() == routes@.len(),
            match best {
                Some(best) => {
                    &&& best < i
                    &&& eligible(routes@[best as int]@, live@[best as int], option_view(*explicit))
                    &&& forall|j: int|
                        0 <= j < i && eligible(
                            #[trigger] routes@[j]@,
                            live@[j],
                            option_view(*explicit),
                        ) ==> routes@[best as int].metric <= routes@[j].metric && (j < best
                            ==> routes@[best as int].metric < routes@[j].metric)
                },
                None => forall|j: int|
                    0 <= j < i ==> !eligible(
                        #[trigger] routes@[j]@,
                        live@[j],
                        option_view(*explicit),
                    ),
            },
        decreases routes@.len() - i,
    {
        let route = &routes[i];
        let wanted = match explicit {
            Some(interface) => same_text(route.interface.as_str(), interface.as_str()),
            None => true,
        };
        if wanted && live[i] && valid_interface_name(route.interface.as_str()) {
            assert(eligible(routes@[i as int]@, live@[i as int], option_view(*explicit)));
            let better = match best {
                Some(current) => route.metric < routes[current].metric,
                None => true,
            };
            if better {
                best = Some(i);
            }
        }
        i += 1;
    }
    best
}

/// A text without leading `0x` prefixes.
pub open spec fn without_hex_prefix(text: Seq<char>) -> Seq<char>
    decreases text.len(),
{
    if text.len() >= 2 && text[0] == '0' && text[1] == 'x' {
        without_hex_prefix(text.skip(2))
    } else {
        text
    }
}

/// Whether the text of an interface's flags says that it is up.
pub open spec fn says_up(flags: Seq<char>) -> bool {
    match unsigned_of(without_hex_prefix(trimmed(flags)), 16, u32::MAX as int) {
        Some(bits) => bits % 2 == 1,
        None => false,
    }
}

/// Whether the text of an interface's operational state lets it carry traffic.
pub open spec fn says_working(state: Seq<char>) -> bool {
    trimmed(state) == "up"@ || trimmed(state) == "unknown"@ || trimmed(state) == "dormant"@
}

fn flags_up(flags: &str) -> (result: bool)
    ensures
        result == says_up(flags@),
{
    let characters = chars_of(flags);
    let mut rest = trim(characters.as_slice());
    while rest.len() >= 2 && rest[0] == '0' && rest[1] == 'x'
        invariant
            without_hex_prefix(rest@) == without_hex_prefix(trimmed(flags@)),
        decreases rest@.len(),
    {
        let total: usize = rest.len();
        let shorter = slice_subrange(rest, 2, total);
        assert(shorter@ =~= rest@.skip(2));
        rest = shorter;
    }
    match parse_u32(rest, 16) {
        Some(bits) => bits % 2 == 1,
        None => false,
    }
}

/// Whether an interface is up, from what its flags and its operational state
/// read; a state that cannot be read counts as working.
pub fn interface_is_live(flags: Option<&str>, state: Option<&str>) -> (result: bool)
    ensures
        result == ((flags matches Some(text) && says_up(text@)) && (state matches Some(text)
            ==> says_working(text@))),
{
    let up = match flags {
        Some(text) => flags_up(text),
        None => false,
    };
    if !up {
        return false;
    }
    match state {
        Some(text) => {
            let characters = chars_of(text);
            let word = string_of(trim(characters.as_slice()));
            same_text(word.as_str(), "up") || same_text(word.as_str(), "unknown") || same_text(
                word.as_str(),
                "dormant",
            )
        },
        None => true,
    }
}

/// Whether an interface is named as tunnels are.
pub open spec fn tunnel_name(interface: Seq<char>) -> bool {
    starts(interface, "tun"@) || starts(interface, "tap"@) || starts(interface, "wg"@) || starts(
        interface,
        "ppp"@,
    ) || starts(interface, "tailscale"@)
}

/// What reads of an interface's device: where its link leads, its link type,
/// and whether it has tunnel flags and a wireless directory.
#[derive(Debug)]
pub struct Device {
    pub link: Option<String>,
    pub link_type: Option<String>,
    pub tunnel_flags: bool,
    pub wireless: bool,
}

/// The kind of an interface.
pub open spec fn kind_of(interface: Seq<char>, device: Device) -> NetworkKind {
    let bare = (device.link matches Some(link) && found_at(
        link@,
        "/devices/virtual/net/"@,
        0,
    ) is Some) && (device.link_type matches Some(code) && trimmed(code@) == "65534"@);
    if tunnel_name(interface) || device.tunnel_flags || bare {
        NetworkKind::Vpn
    } else if device.wireless {
        NetworkKind::Wifi
    } else {
        NetworkKind::Ethernet
    }
}

fn named_as_tunnel(interface: &str) -> (result: bool)
    ensures
        result == tunnel_name(interface@),
{
    let characters = chars_of(interface);
    let name = characters.as_slice();
    strip_prefix(name, "tun").is_some() || strip_prefix(name, "tap").is_some() || strip_prefix(
        name,
        "wg",
    ).is_some() || strip_prefix(name, "ppp").is_some() || strip_prefix(name, "tailscale").is_some()
}

pub fn interface_kind(interface: &str, device: &Device) -> (result: NetworkKind)
    ensures
        result == kind_of(interface@, *device),
{
    let in_virtual = match &device.link {
        Some(link) => {
            let characters = chars_of(link.as_str());
            find_text(characters.as_slice(), "/devices/virtual/net/").is_some()
        },
        None => false,
    };
    let no_link_layer = match &device.link_type {
        Some(code) => {
            let characters = chars_of(code.as_str());
            let number = string_of(trim(characters.as_slice()));
            same_text(number.as_str(), "65534")
        },
        None => false,
    };
    if named_as_tunnel(interface) || device.tunnel_flags || (in_virtual && no_link_layer) {
        NetworkKind::Vpn
    } else if device.wireless {
        NetworkKind::Wifi
    } else {
        NetworkKind::Ethernet
    }
}

/// What is known of the network.
#[derive(Debug, Default)]
pub struct NetworkSnapshot {
    pub interface: String,
    pub kind: NetworkKind,
    pub address: Option<IpAddress>,
    pub gateway: Option<IpAddress>,
    pub rx_bytes: u64,
    pub tx_bytes: u64,
    pub rx_per_second: Option<u64>,
    pub tx_per_second: Option<u64>,
    pub ping_ms: Option<u64>,
    pub loss_percent: Option<u8>,
    pub probe_error: Option<String>,
}

/// The view of a snapshot.
pub ghost struct SnapshotView {
    pub interface: Seq<char>,
    pub kind: NetworkKind,
    pub address: Option<IpAddress>,
    pub gateway: Option<IpAddress>,
    pub rx_bytes: u64,
    pub tx_bytes: u64,
    pub rx_per_second: Option<u64>,
    pub tx_per_second: Option<u64>,
    pub ping_ms: Option<u64>,
    pub loss_percent: Option<u8>,
    pub probe_error: Option<Seq<char>>,
}

impl View for NetworkSnapshot {
    type V = SnapshotView;

    open spec fn view(&self) -> SnapshotView {
        SnapshotView {
            interface: self.interface@,
            kind: self.kind,
            address: self.address,
            gateway: self.gateway,
            rx_bytes: self.rx_bytes,
            tx_bytes: self.tx_bytes,
            rx_per_second: self.rx_per_second,
            tx_per_second: self.tx_per_second,
            ping_ms: self.ping_ms,
            loss_percent: self.loss_percent,
            probe_error: option_view(self.probe_error),
        }
    }
}

/// A connection with nothing measured yet.
pub open spec fn unmeasured(
    interface: Seq<char>,
    kind: NetworkKind,
    address: Option<IpAddress>,
    gateway: Option<IpAddress>,
) -> SnapshotView {
    SnapshotView {
        interface,
        kind,
        address,
        gateway,
        rx_bytes: 0,
        tx_bytes: 0,
        rx_per_second: None,
        tx_per_second: None,
        ping_ms: None,
        loss_percent: None,
        probe_error: None,
    }
}

/// The connection over a route, or else over none: with the address of the
/// interface that is shown, and its kind, which counts only while it has an address.
pub open spec fn connection_of(
    route: Option<RouteView>,
    explicit: Option<Seq<char>>,
    address: Option<IpAddress>,
    kind: NetworkKind,
) -> SnapshotView {
    match route {
        Some(route) => unmeasured(
            route.interface,
            if address is Some {
                kind
            } else {
                NetworkKind::Offline
            },
            address,
            route.gateway,
        ),
        None => {
            let interface = match explicit {
                Some(interface) => interface,
                None => Seq::empty(),
            };
            unmeasured(
                interface,
                NetworkKind::Offline,
                if is_interface_name(interface) {
                    address
                } else {
                    None
                },
                None,
            )
        },
    }
}

fn fresh_snapshot(
    interface: String,
    kind: NetworkKind,
    address: Option<IpAddress>,
    gateway: Option<IpAddress>,
) -> (result: NetworkSnapshot)
    ensures
        result@ == unmeasured(interface@, kind, address, gateway),
{
    NetworkSnapshot {
        interface,
        kind,
        address,
        gateway,
        rx_bytes: 0,
        tx_bytes: 0,
        rx_per_second: None,
        tx_per_second: None,
        ping_ms: None,
        loss_percent: None,
        probe_error: None,
    }
}

pub fn connectivity_snapshot(
    route: Option<&Route>,
    explicit: &Option<String>,
    address: Option<IpAddress>,
    kind: NetworkKind,
) -> (result: NetworkSnapshot)
    ensures
        result@ == connection_of(
            (match route {
                Some(route) => Some(route@),
                None => None,
            }),
            option_view(*explicit),
            address,
            kind,
        ),
{
    match route {
        Some(route) => {
            let shown = if address.is_some() {
                kind
            } else {
                NetworkKind::Offline
            };
            fresh_snapshot(route.interface.clone(), shown, address, route.gateway)
        },
        None => {
            let interface = match explicit {
                Some(interface) => interface.clone(),
                None => String::new(),
            };
            assert(explicit is None ==> interface@ =~= Seq::<char>::empty());
            let shown = if valid_interface_name(interface.as_str()) {
                address
            } else {
                None
            };
            fresh_snapshot(interface, NetworkKind::Offline, shown, None)
        },
    }
}

/// A snapshot without what was probed.
pub open spec fn unprobed(snapshot: SnapshotView) -> SnapshotView {
    SnapshotView { ping_ms: None, loss_percent: None, probe_error: None, ..snapshot }
}

/// A snapshot without rates.
pub open spec fn unrated(snapshot: SnapshotView) -> SnapshotView {
    SnapshotView { rx_per_second: None, tx_per_second: None, ..snapshot }
}

/// Whether two snapshots are of the same connection.
pub open spec fn same_connection(left: SnapshotView, right: SnapshotView) -> bool {
    &&& left.interface == right.interface
    &&& left.kind == right.kind
    &&& left.address == right.address
    &&& left.gateway == right.gateway
}

/// The snapshot once a connection has been found.
pub open spec fn connected(snapshot: SnapshotView, connection: SnapshotView) -> SnapshotView {
    let counted = if snapshot.interface == connection.interface {
        snapshot
    } else {
        SnapshotView { rx_bytes: 0, tx_bytes: 0, ..snapshot }
    };
    let kept = if same_connection(snapshot, connection) {
        counted
    } else {
        unrated(unprobed(counted))
    };
    SnapshotView {
        interface: connection.interface,
        kind: connection.kind,
        address: connection.address,
        gateway: connection.gateway,
        ..kept
    }
}

/// Forgets what was probed, and tells whether there was anything.
pub fn clear_probe(snapshot: &mut NetworkSnapshot) -> (result: bool)
    ensures
        final(snapshot)@ == unprobed(old(snapshot)@),
        result == (final(snapshot)@ != old(snapshot)@),
{
    let changed = snapshot.ping_ms.is_some() || snapshot.loss_percent.is_some()
        || snapshot.probe_error.is_some();
    snapshot.ping_ms = None;
    snapshot.loss_percent = None;
    snapshot.probe_error = None;
    changed
}

fn same_address(left: &Option<IpAddress>, right: &Option<IpAddress>) -> (result: bool)
    ensures
        result == (*left == *right),
{
    match (left, right) {
        (Some(left), Some(right)) => *left == *right,
        (None, None) => true,
        _ => false,
    }
}

/// Takes over a connection, and tells whether it is another one.
pub fn apply_connectivity(snapshot: &mut NetworkSnapshot, connection: NetworkSnapshot) -> (result:
    bool)
    ensures
        final(snapshot)@ == connected(old(snapshot)@, connection@),
        result == !same_connection(old(snapshot)@, connection@),
{
    let same_interface = same_text(snapshot.interface.as_str(), connection.interface.as_str());
    let changed = !same_interface || snapshot.kind != connection.kind || !same_address(
        &snapshot.address,
        &connection.address,
    ) || !same_address(&snapshot.gateway, &connection.gateway);
    if !same_interface {
        snapshot.rx_bytes = 0;
        snapshot.tx_bytes = 0;
    }
    if changed {
        clear_probe(snapshot);
        snapshot.rx_per_second = None;
        snapshot.tx_per_second = None;
    }
    snapshot.interface = connection.interface;
    snapshot.kind = connection.kind;
    snapshot.address = connection.address;
    snapshot.gateway = connection.gateway;
    changed
}

/// Another connection has none of the old measurements; the same one keeps them all.
pub proof fn law_connection_changes_discard_measurements(
    snapshot: SnapshotView,
    connection: SnapshotView,
)
    ensures
        same_connection(connected(snapshot, connection), connection),
        same_connection(snapshot, connection) ==> connected(snapshot, connection) == snapshot,
        !same_connection(snapshot, connection) ==> ({
            let after = connected(snapshot, connection);
            &&& after.ping_ms is None && after.loss_percent is None && after.probe_error is None
            &&& after.rx_per_second is None && after.tx_per_second is None
        }),
{
}

/// The digits at the start of a counter's bytes.
pub open spec fn leading_digits(bytes: Seq<u8>) -> Seq<u8>
    decreases bytes.len(),
{
    if bytes.len() > 0 && 48 <= bytes[0] <= 57 {
        seq![bytes[0]] + leading_digits(bytes.skip(1))
    } else {
        Seq::empty()
    }
}

/// The number that decimal digits stand for.
pub open spec fn digits_value(digits: Seq<u8>) -> int
    decreases digits.len(),
{
    if digits.len() == 0 {
        0
    } else {
        digits_value(digits.drop_last()) * 10 + (digits.last() - 48)
    }
}

/// The counter that some bytes stand for.
pub open spec fn counter_of(bytes: Seq<u8>) -> Option<int> {
    let digits = leading_digits(bytes);
    if digits.len() > 0 && digits_value(digits) <= u64::MAX {
        Some(digits_value(digits))
    } else {
        None
    }
}

proof fn lemma_leading_digits(bytes: Seq<u8>, count: int)
    requires
        0 <= count <= bytes.len(),
        forall|i: int| 0 <= i < count ==> 48 <= #[trigger] bytes[i] <= 57,
    ensures
        leading_digits(bytes).len() >= count,
        leading_digits(bytes).take(count) == bytes.take(count),
        forall|i: int|
            0 <= i < leading_digits(bytes).len() ==> 48 <= #[trigger] leading_digits(bytes)[i]
                <= 57,
        count == bytes.len() || !(48 <= bytes[count] <= 57) ==> leading_digits(bytes)
            == bytes.take(count),
    decreases bytes.len(),
{
    let digits = leading_digits(bytes);
    if bytes.len() > 0 && 48 <= bytes[0] <= 57 {
        let rest = bytes.skip(1);
        let fewer: int = if count > 0 {
            count - 1
        } else {
            0
        };
        assert forall|i: int| 0 <= i < fewer implies 48 <= #[trigger] rest[i] <= 57 by {
            assert(rest[i] == bytes[i + 1]);
        }
        lemma_leading_digits(rest, fewer);
        assert(digits == seq![bytes[0]] + leading_digits(rest));
        if count > 0 {
            assert(bytes.take(count) =~= seq![bytes[0]] + rest.take(count - 1));
            assert(digits.take(count) =~= seq![bytes[0]] + leading_digits(rest).take(count - 1));
            if count < bytes.len() {
                assert(rest[count - 1] == bytes[count]);
            }
        }
    }
    assert(digits.take(0) =~= bytes.take(0));
}

proof fn lemma_digits_value_grows(digits: Seq<u8>, count: int)
    requires
        0 <= count <= digits.len(),
        forall|i: int| 0 <= i < digits.len() ==> 48 <= #[trigger] digits[i] <= 57,
    ensures
        0 <= digits_value(digits.take(count)) <= digits_value(digits),
    decreases digits.len(), digits.len() - count,
{
    if count < digits.len() {
        let shorter = digits.drop_last();
        lemma_digits_value_grows(shorter, count);
        assert(shorter.take(count) =~= digits.take(count));
    } else {
        assert(digits.take(count) =~= digits);
        if digits.len() > 0 {
            lemma_digits_value_grows(digits.drop_last(), digits.len() - 1);
            assert(digits.drop_last().take(digits.len() - 1) =~= digits.drop_last());
        }
    }
}

/// The traffic counter that the bytes of its file stand for.
pub fn parse_counter(bytes: &Vec<u8>) -> (result: Option<u64>)
    ensures
        match result {
            Some(value) => counter_of(bytes@) == Some(value as int),
            None => counter_of(bytes@) is None,
        },
{
    let mut value: u64 = 0;
    let mut i: usize = 0;
    assert(bytes@.take(0) =~= Seq::empty());
    while i < bytes.len() && 48 <= bytes[i] && bytes[i] <= 57
        invariant
            i <= bytes@.len(),
            forall|j: int| 0 <= j < i ==> 48 <= #[trigger] bytes@[j] <= 57,
            value == digits_value(bytes@.take(i as int)),
        decreases bytes@.len() - i,
    {
        let digit: u64 = (bytes[i] - 48) as u64;
        proof {
            let digits = leading_digits(bytes@);
            lemma_leading_digits(bytes@, i + 1);
            lemma_digits_value_grows(digits, i + 1);
            assert(bytes@.take(i + 1).drop_last() =~= bytes@.take(i as int));
            assert(digits_value(digits) >= value * 10 + digit);
        }
        if value > u64::MAX / 10 {
            return None;
        }
        let shifted: u64 = value * 10;
        if shifted > u64::MAX - digit {
            return None;
        }
        value = shifted + digit;
        i += 1;
    }
    proof {
        lemma_leading_digits(bytes@, i as int);
    }
    if i == 0 {
        None
    } else {
        Some(value)
    }
}

/// A reading of the traffic counters.
#[derive(Debug)]
pub struct CounterSample {
    pub interface: String,
    pub rx: u64,
    pub tx: u64,
    pub at: u64,
}

/// Turns readings of the traffic counters into rates.
#[derive(Debug)]
pub struct RateSampler {
    pub previous: Option<CounterSample>,
}

/// The view of a reading.
pub ghost struct SampleView {
    pub interface: Seq<char>,
    pub rx: u64,
    pub tx: u64,
    pub at: u64,
}

impl View for RateSampler {
    type V = Option<SampleView>;

    open spec fn view(&self) -> Option<SampleView> {
        match self.previous {
            Some(sample) => Some(
                SampleView {
                    interface: sample.interface@,
                    rx: sample.rx,
                    tx: sample.tx,
                    at: sample.at,
                },
            ),
            None => None,
        }
    }
}

/// The bytes per second that so many bytes in so many nanoseconds are.
pub open spec fn per_second(bytes: int, nanos: int) -> u64 {
    let rate = bytes * 1_000_000_000 / nanos;
    if rate > u64::MAX {
        u64::MAX
    } else {
        rate as u64
    }
}

/// The rates between two readings, if they are of one interface, the later one
/// is later, and no counter has gone back.
pub open spec fn rates_between(before: Option<SampleView>, after: SampleView) -> (
    Option<u64>,
    Option<u64>,
) {
    match before {
        Some(before) => if before.interface != after.interface || after.rx < before.rx || after.tx
            < before.tx || after.at <= before.at {
            (None, None)
        } else {
            (
                Some(per_second(after.rx - before.rx, after.at - before.at)),
                Some(per_second(after.tx - before.tx, after.at - before.at)),
            )
        },
        None => (None, None),
    }
}

fn rate(bytes: u64, nanos: u64) -> (result: u64)
    requires
        nanos > 0,
    ensures
        result == per_second(bytes as int, nanos as int),
{
    let product: u128 = bytes as u128 * 1_000_000_000;
    let rate: u128 = product / nanos as u128;
    if rate > u64::MAX as u128 {
        u64::MAX
    } else {
        rate as u64
    }
}

impl RateSampler {
    pub fn new() -> (result: Self)
        ensures
            result@ is None,
    {
        RateSampler { previous: None }
    }

    /// The rates since the last reading; this one takes its place.
    pub fn sample(&mut self, interface: &str, rx: u64, tx: u64, now: u64) -> (result: (
        Option<u64>,
        Option<u64>,
    ))
        ensures
            final(self)@ == Some((SampleView { interface: interface@, rx, tx, at: now })),
            result == rates_between(
                old(self)@,
                (SampleView { interface: interface@, rx, tx, at: now }),
            ),
    {
        let rates = match &self.previous {
            Some(previous) => {
                if !same_text(previous.interface.as_str(), interface) || rx < previous.rx || tx
                    < previous.tx || now <= previous.at {
                    (None, None)
                } else {
                    let nanos: u64 = now - previous.at;
                    (Some(rate(rx - previous.rx, nanos)), Some(rate(tx - previous.tx, nanos)))
                }
            },
            None => (None, None),
        };
        let characters = chars_of(interface);
        self.previous = Some(
            CounterSample { interface: string_of(characters.as_slice()), rx, tx, at: now },
        );
        rates
    }
}

/// The snapshot once the counters have been read, or could not be.
pub open spec fn counted(
    snapshot: SnapshotView,
    sampler: Option<SampleView>,
    counters: Option<(u64, u64)>,
    now: u64,
) -> (SnapshotView, Option<SampleView>) {
    if snapshot.kind == NetworkKind::Offline || !is_interface_name(snapshot.interface)
        || counters is None {
        (unrated(snapshot), sampler)
    } else {
        let (rx, tx) = counters->0;
        let sample = SampleView { interface: snapshot.interface, rx, tx, at: now };
        let rates = rates_between(sampler, sample);
        (
            SnapshotView {
                rx_bytes: rx,
                tx_bytes: tx,
                rx_per_second: rates.0,
                tx_per_second: rates.1,
                ..snapshot
            },
            Some(sample),
        )
    }
}

fn same_rate(left: Option<u64>, right: Option<u64>) -> (result: bool)
    ensures
        result == (left == right),
{
    match (left, right) {
        (Some(left), Some(right)) => left == right,
        (None, None) => true,
        _ => false,
    }
}

/// Takes over a reading of the received and sent bytes, and tells whether the
/// snapshot has changed.
pub fn update_counters(
    snapshot: &mut NetworkSnapshot,
    sampler: &mut RateSampler,
    counters: Option<(u64, u64)>,
    now: u64,
) -> (result: bool)
    ensures
        (final(snapshot)@, final(sampler)@) == counted(
            old(snapshot)@,
            old(sampler)@,
            counters,
            now,
        ),
        result == (final(snapshot)@ != old(snapshot)@),
{
    let usable = snapshot.kind != NetworkKind::Offline && valid_interface_name(
        snapshot.interface.as_str(),
    );
    match (usable, counters) {
        (true, Some((rx, tx))) => {
            let (rx_rate, tx_rate) = sampler.sample(snapshot.interface.as_str(), rx, tx, now);
            let changed = snapshot.rx_bytes != rx || snapshot.tx_bytes != tx || !same_rate(
                snapshot.rx_per_second,
                rx_rate,
            ) || !same_rate(snapshot.tx_per_second, tx_rate);
            snapshot.rx_bytes = rx;
            snapshot.tx_bytes = tx;
            snapshot.rx_per_second = rx_rate;
            snapshot.tx_per_second = tx_rate;
            changed
        },
        _ => {
            let changed = snapshot.rx_per_second.is_some() || snapshot.tx_per_second.is_some();
            snapshot.rx_per_second = None;
            snapshot.tx_per_second = None;
            changed
        },
    }
}

} // verus!
