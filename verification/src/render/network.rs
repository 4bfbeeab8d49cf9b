//! The card of the network's state.

use vstd::prelude::*;

use crate::config::{color_of, ColorError, Config};
use crate::network::{IpAddress, NetworkKind, NetworkSnapshot, SnapshotView};
use crate::render::card::{
    area_of, button_at, button_of, card_area, card_views, push_command, push_text, text_step,
    Card, CardCommand, CardIcon, CardView,
};
use crate::render::layout::{at_least_one, has_colors};
use crate::render::menu::{MenuHitbox, MenuSelection};
use crate::render::pixels::PixelRect;
use crate::text::{byte_length, chars_of, decimal, fits_bytes, push_decimal};

verus! {

pub const WIDTH: u32 = 400;

pub const HEIGHT: u32 = 196;

/// The height that addresses of their own rows add.
pub const EXTRA: u32 = 19;

#[derive(Clone, Copy, Debug)]
pub struct NetworkPalette {
    pub background: [u8; 4],
    pub foreground: [u8; 4],
    pub muted: [u8; 4],
    pub accent: [u8; 4],
    pub border: [u8; 4],
}

impl NetworkPalette {
    /// The colors that settings give the card.
    pub open spec fn follows(&self, config: Config) -> bool {
        &&& color_of(config.network_background@) == Ok::<Seq<u8>, ColorError>(self.background@)
        &&& color_of(config.network_foreground@) == Ok::<Seq<u8>, ColorError>(self.foreground@)
        &&& color_of(config.network_muted@) == Ok::<Seq<u8>, ColorError>(self.muted@)
        &&& color_of(config.network_accent@) == Ok::<Seq<u8>, ColorError>(self.accent@)
        &&& color_of(config.network_border@) == Ok::<Seq<u8>, ColorError>(self.border@)
    }

    pub fn new(config: &Config) -> (result: Self)
        requires
            has_colors(*config),
        ensures
            result.follows(*config),
    {
        proof {
            assert(color_of(config.color_text(22)) is Ok);
            assert(color_of(config.color_text(23)) is Ok);
            assert(color_of(config.color_text(24)) is Ok);
            assert(color_of(config.color_text(25)) is Ok);
            assert(color_of(config.color_text(26)) is Ok);
        }
        NetworkPalette {
            background: config.color_rgba(config.network_background.as_str()),
            foreground: config.color_rgba(config.network_foreground.as_str()),
            muted: config.color_rgba(config.network_muted.as_str()),
            accent: config.color_rgba(config.network_accent.as_str()),
            border: config.color_rgba(config.network_border.as_str()),
        }
    }
}

/// A quotient, rounded to the nearest number, and to the even one of two.
pub open spec fn half_even(dividend: int, divisor: int) -> int {
    let quotient = dividend / divisor;
    let rest = dividend % divisor;
    if 2 * rest > divisor || (2 * rest == divisor && quotient % 2 == 1) {
        quotient + 1
    } else {
        quotient
    }
}

fn round_half_even(dividend: u128, divisor: u128) -> (result: u128)
    requires
        0 < divisor <= 0x1_0000_0000_0000_0000,
        dividend <= 0xf_ffff_ffff_ffff_ffff_ffff,
    ensures
        result == half_even(dividend as int, divisor as int),
        result <= dividend / divisor + 1,
{
    let quotient: u128 = dividend / divisor;
    let rest: u128 = dividend % divisor;
    assert(quotient <= dividend) by (nonlinear_arith)
        requires
            quotient == dividend / divisor,
            divisor > 0,
    ;
    if 2 * rest > divisor || (2 * rest == divisor && quotient % 2 == 1) {
        quotient + 1
    } else {
        quotient
    }
}

/// The distance of the double-precision numbers near a whole number.
pub open spec fn double_step(value: int) -> int
    decreases value,
{
    if value < 0x20_0000_0000_0000 {
        1
    } else {
        2 * double_step(value / 2)
    }
}

/// The double-precision number nearest to a whole number.
pub open spec fn nearest_double(value: int) -> int {
    half_even(value, double_step(value)) * double_step(value)
}

/// The binary multiple of bytes that an amount is told in, from kibibytes on.
pub open spec fn traffic_unit(amount: int) -> (int, Seq<char>) {
    if amount < 0x10_0000 {
        (0x400, " KiB"@)
    } else if amount < 0x4000_0000 {
        (0x10_0000, " MiB"@)
    } else if amount < 0x100_0000_0000 {
        (0x4000_0000, " GiB"@)
    } else if amount < 0x4_0000_0000_0000 {
        (0x100_0000_0000, " TiB"@)
    } else if amount < 0x1000_0000_0000_0000 {
        (0x4_0000_0000_0000, " PiB"@)
    } else {
        (0x1000_0000_0000_0000, " EiB"@)
    }
}

/// An amount of traffic as a text: whole bytes, or a larger unit with one decimal.
pub open spec fn traffic_text(value: u64) -> Seq<char> {
    if value < 1024 {
        decimal(value as nat) + " B"@
    } else {
        let amount = nearest_double(value as int);
        let (size, name) = traffic_unit(amount);
        let tenths = half_even(amount * 10, size);
        decimal((tenths / 10) as nat) + seq!['.'] + decimal((tenths % 10) as nat) + name
    }
}

/// A rate of traffic as a text.
pub open spec fn rate_text(value: Option<u64>) -> Seq<char> {
    match value {
        Some(value) => traffic_text(value) + "/s"@,
        None => "—"@,
    }
}

proof fn lemma_double_step(value: int)
    requires
        0 <= value < 0x1_0000_0000_0000_0000,
    ensures
        double_step(value) >= 1,
        double_step(value) <= 0x800,
        value < 0x20_0000_0000_0000 ==> double_step(value) == 1,
{
    reveal_with_fuel(double_step, 13);
    assert(value / 2 / 2 / 2 / 2 / 2 / 2 / 2 / 2 / 2 / 2 / 2 < 0x20_0000_0000_0000);
}

fn step_of(value: u64) -> (result: u64)
    ensures
        result == double_step(value as int),
        1 <= result <= 0x800,
    decreases value,
{
    proof {
        lemma_double_step(value as int);
        lemma_double_step(value as int / 2);
    }
    if value < 0x20_0000_0000_0000 {
        1
    } else {
        2 * step_of(value / 2)
    }
}

fn nearest(value: u64) -> (result: u128)
    ensures
        result == nearest_double(value as int),
        result <= 0x1_0000_0000_0000_0800,
{
    let step: u128 = step_of(value) as u128;
    let count: u128 = round_half_even(value as u128, step);
    assert(count * step <= value + step) by (nonlinear_arith)
        requires
            count <= value as u128 / step + 1,
            step >= 1,
    ;
    count * step
}

pub fn bytes(value: u64) -> (result: String)
    ensures
        result@ == traffic_text(value),
{
    let mut text = String::new();
    assert(text@ =~= Seq::<char>::empty());
    if value < 1024 {
        push_decimal(&mut text, value);
        assert(text@ =~= decimal(value as nat));
        text.append(" B");
        return text;
    }
    let amount: u128 = nearest(value);
    let (size, name): (u128, &str) = if amount < 0x10_0000 {
        (0x400, " KiB")
    } else if amount < 0x4000_0000 {
        (0x10_0000, " MiB")
    } else if amount < 0x100_0000_0000 {
        (0x4000_0000, " GiB")
    } else if amount < 0x4_0000_0000_0000 {
        (0x100_0000_0000, " TiB")
    } else if amount < 0x1000_0000_0000_0000 {
        (0x4_0000_0000_0000, " PiB")
    } else {
        (0x1000_0000_0000_0000, " EiB")
    };
    let tenths: u128 = round_half_even(amount * 10, size);
    assert((amount * 10) / (size as int) < 0x2_8000) by (nonlinear_arith)
        requires
            amount < 1024 * size,
            size > 0,
    ;
    push_decimal(&mut text, (tenths / 10) as u64);
    assert(text@ =~= decimal((tenths / 10) as nat));
    text.push('.');
    assert(text@ =~= decimal((tenths / 10) as nat) + seq!['.']);
    push_decimal(&mut text, (tenths % 10) as u64);
    text.append(name);
    text
}

pub fn rate(value: Option<u64>) -> (result: String)
    ensures
        result@ == rate_text(value),
{
    match value {
        Some(value) => {
            let mut text = bytes(value);
            text.append("/s");
            text
        },
        None => "—".to_owned(),
    }
}

/// The texts of the figures that the card shows beside those of its snapshot:
/// the whole milliseconds of a round trip, the addresses, and the probes' target.
/// The first three are shown only where the snapshot has the figure.
#[derive(Debug)]
pub struct NetworkTexts {
    pub ping: String,
    pub address: String,
    pub gateway: String,
    pub target: String,
}

/// The text of an address, or a dash where there is none.
pub open spec fn address_text(address: Option<IpAddress>, text: Seq<char>) -> Seq<char> {
    if address is Some {
        text
    } else {
        "—"@
    }
}

fn address_of(address: Option<IpAddress>, text: &String) -> (result: String)
    ensures
        result@ == address_text(address, text@),
{
    if address.is_some() {
        text.clone()
    } else {
        "—".to_owned()
    }
}

/// The name of a kind of connection.
pub open spec fn kind_title(kind: NetworkKind) -> Seq<char> {
    match kind {
        NetworkKind::Ethernet => "Ethernet"@,
        NetworkKind::Wifi => "Wi-Fi"@,
        NetworkKind::Vpn => "VPN"@,
        NetworkKind::Offline => "Disconnected"@,
    }
}

/// The line under the name of the connection.
pub open spec fn status_text(kind: NetworkKind, interface: Seq<char>) -> Seq<char> {
    if interface.len() == 0 {
        "NO ACTIVE CONNECTION"@
    } else if kind == NetworkKind::Offline {
        "OFFLINE"@ + " · "@ + interface
    } else {
        "CONNECTED"@ + " · "@ + interface
    }
}

/// The round-trip time as it is shown.
pub open spec fn ping_text(ping: Option<u64>, time: Seq<char>) -> Seq<char> {
    if ping is Some {
        time + " ms"@
    } else {
        "—"@
    }
}

/// The loss as it is shown.
pub open spec fn loss_text(loss: Option<u8>) -> Seq<char> {
    match loss {
        Some(share) => decimal(share as nat) + "%"@,
        None => "—"@,
    }
}

/// The line about the probes.
pub open spec fn probe_text(target: Seq<char>, failed: bool) -> Seq<char> {
    if failed {
        "Ping "@ + target + ": unavailable"@
    } else {
        "Ping "@ + target + " · loss over last 20 probes"@
    }
}

/// Whether the addresses are too long to share a row.
pub open spec fn long_addresses(address: Seq<char>, gateway: Seq<char>) -> bool {
    byte_length(address) > 15 || byte_length(gateway) > 15
}

/// The height of the card.
pub open spec fn card_height(long: bool) -> int {
    if long {
        215
    } else {
        196
    }
}

/// The frame, the icon, the name and the button.
pub open spec fn header_steps(
    kind: NetworkKind,
    interface: Seq<char>,
    height: int,
    s: int,
    palette: &NetworkPalette,
) -> Seq<CardView> {
    seq![
        CardView::Fill { area: area_of(6, 6, 388, height - 12, s), color: palette.background },
        CardView::Outline {
            area: area_of(6, 6, 388, height - 12, s),
            width: s as i32,
            color: palette.border,
        },
        CardView::Icon {
            icon: CardIcon::Network(kind),
            x: (18 * s) as i32,
            y: (20 * s) as i32,
            size: (22 * s) as u32,
            color: palette.foreground,
        },
        text_step(
            kind_title(kind),
            area_of(52, 17, 286, 21, s),
            14,
            palette.foreground,
            false,
        ),
        text_step(
            status_text(kind, interface),
            area_of(52, 38, 286, 16, s),
            10,
            palette.muted,
            false,
        ),
        CardView::Icon {
            icon: CardIcon::Refresh,
            x: 0,
            y: 0,
            size: s as u32,
            color: palette.accent,
        },
    ]
}

/// A label and its value, at a column of a row.
pub open spec fn entry_steps(
    label: Seq<char>,
    value: Seq<char>,
    x: int,
    y: int,
    width: int,
    s: int,
    palette: &NetworkPalette,
) -> Seq<CardView> {
    seq![
        text_step(label, area_of(x, y, 80, 19, s), 10, palette.muted, false),
        text_step(value, area_of(x + 80, y, width, 19, s), 11, palette.foreground, true),
    ]
}

/// Two labels with their values, side by side.
pub open spec fn row_steps(
    row: int,
    left: (Seq<char>, Seq<char>),
    right: (Seq<char>, Seq<char>),
    s: int,
    palette: &NetworkPalette,
) -> Seq<CardView> {
    entry_steps(left.0, left.1, 20, 65 + row * 19, 98, s, palette) + entry_steps(
        right.0,
        right.1,
        210,
        65 + row * 19,
        98,
        s,
        palette,
    )
}

/// The addresses: in one row, or in two where they are long.
pub open spec fn address_steps(
    address: Seq<char>,
    gateway: Seq<char>,
    s: int,
    palette: &NetworkPalette,
) -> Seq<CardView> {
    if long_addresses(address, gateway) {
        entry_steps("IP Address"@, address, 20, 122, 278, s, palette) + entry_steps(
            "Gateway"@,
            gateway,
            20,
            141,
            278,
            s,
            palette,
        )
    } else {
        row_steps(3, ("IP Address"@, address), ("Gateway"@, gateway), s, palette)
    }
}

/// The notes below the figures.
pub open spec fn footer_steps(
    probe: Seq<char>,
    extra: int,
    s: int,
    palette: &NetworkPalette,
) -> Seq<CardView> {
    seq![
        CardView::Fill { area: area_of(20, 148 + extra, 358, 1, s), color: palette.border },
        text_step(probe, area_of(20, 153 + extra, 358, 16, s), 9, palette.muted, false),
        text_step(
            "Traffic totals since interface started"@,
            area_of(20, 170 + extra, 358, 16, s),
            9,
            palette.muted,
            false,
        ),
    ]
}

/// The drawing of the card.
pub open spec fn network_steps(
    snapshot: SnapshotView,
    texts: NetworkTexts,
    s: int,
    palette: &NetworkPalette,
) -> Seq<CardView> {
    let address = address_text(snapshot.address, texts.address@);
    let gateway = address_text(snapshot.gateway, texts.gateway@);
    let height = card_height(long_addresses(address, gateway));
    header_steps(snapshot.kind, snapshot.interface, height, s, palette) + row_steps(
        0,
        ("Ping"@, ping_text(snapshot.ping_ms, texts.ping@)),
        ("Packet Loss"@, loss_text(snapshot.loss_percent)),
        s,
        palette,
    ) + row_steps(
        1,
        ("Receiving"@, rate_text(snapshot.rx_per_second)),
        ("Sending"@, rate_text(snapshot.tx_per_second)),
        s,
        palette,
    ) + row_steps(
        2,
        ("Downloaded"@, traffic_text(snapshot.rx_bytes)),
        ("Uploaded"@, traffic_text(snapshot.tx_bytes)),
        s,
        palette,
    ) + address_steps(address, gateway, s, palette) + footer_steps(
        probe_text(texts.target@, snapshot.probe_error is Some),
        height - 196,
        s,
        palette,
    )
}

fn title_of(kind: NetworkKind) -> (result: String)
    ensures
        result@ == kind_title(kind),
{
    match kind {
        NetworkKind::Ethernet => "Ethernet".to_owned(),
        NetworkKind::Wifi => "Wi-Fi".to_owned(),
        NetworkKind::Vpn => "VPN".to_owned(),
        NetworkKind::Offline => "Disconnected".to_owned(),
    }
}

fn status_of(kind: NetworkKind, interface: &str) -> (result: String)
    ensures
        result@ == status_text(kind, interface@),
{
    if chars_of(interface).len() == 0 {
        return "NO ACTIVE CONNECTION".to_owned();
    }
    let mut status = if kind == NetworkKind::Offline {
        "OFFLINE".to_owned()
    } else {
        "CONNECTED".to_owned()
    };
    status.append(" · ");
    status.append(interface);
    status
}

fn push_header(
    commands: &mut Vec<CardCommand>,
    kind: NetworkKind,
    interface: &str,
    height: i32,
    s: i32,
    palette: &NetworkPalette,
)
    requires
        196 <= height <= 215,
        1 <= s <= 0x1_0000,
    ensures
        card_views(final(commands)@) == card_views(old(commands)@) + header_steps(
            kind,
            interface@,
            height as int,
            s as int,
            palette,
        ),
{
    let frame = card_area(6, 6, 388, height - 12, s);
    push_command(commands, CardCommand::Fill { area: frame, color: palette.background });
    push_command(commands, CardCommand::Outline { area: frame, width: s, color: palette.border });
    push_command(
        commands,
        CardCommand::Icon {
            icon: CardIcon::Network(kind),
            x: 18 * s,
            y: 20 * s,
            size: (22 * s) as u32,
            color: palette.foreground,
        },
    );
    push_text(
        commands,
        title_of(kind),
        card_area(52, 17, 286, 21, s),
        14,
        palette.foreground,
        false,
    );
    push_text(
        commands,
        status_of(kind, interface),
        card_area(52, 38, 286, 16, s),
        10,
        palette.muted,
        false,
    );
    push_command(
        commands,
        CardCommand::Icon {
            icon: CardIcon::Refresh,
            x: 0,
            y: 0,
            size: s as u32,
            color: palette.accent,
        },
    );
    assert(card_views(commands@) =~= card_views(old(commands)@) + header_steps(
        kind,
        interface@,
        height as int,
        s as int,
        palette,
    ));
}

fn push_entry(
    commands: &mut Vec<CardCommand>,
    label: &str,
    value: String,
    x: i32,
    y: i32,
    width: i32,
    s: i32,
    palette: &NetworkPalette,
)
    requires
        0 <= x <= 210,
        0 <= y <= 215,
        0 <= width <= 278,
        1 <= s <= 0x1_0000,
    ensures
        card_views(final(commands)@) == card_views(old(commands)@) + entry_steps(
            label@,
            value@,
            x as int,
            y as int,
            width as int,
            s as int,
            palette,
        ),
{
    push_text(
        commands,
        label.to_owned(),
        card_area(x, y, 80, 19, s),
        10,
        palette.muted,
        false,
    );
    push_text(
        commands,
        value,
        card_area(x + 80, y, width, 19, s),
        11,
        palette.foreground,
        true,
    );
    assert(card_views(commands@) =~= card_views(old(commands)@) + entry_steps(
        label@,
        value@,
        x as int,
        y as int,
        width as int,
        s as int,
        palette,
    ));
}

fn push_row(
    commands: &mut Vec<CardCommand>,
    row: i32,
    left: (&str, String),
    right: (&str, String),
    s: i32,
    palette: &NetworkPalette,
)
    requires
        0 <= row <= 3,
        1 <= s <= 0x1_0000,
    ensures
        card_views(final(commands)@) == card_views(old(commands)@) + row_steps(
            row as int,
            (left.0@, left.1@),
            (right.0@, right.1@),
            s as int,
            palette,
        ),
{
    let y: i32 = 65 + row * 19;
    push_entry(commands, left.0, left.1, 20, y, 98, s, palette);
    push_entry(commands, right.0, right.1, 210, y, 98, s, palette);
    assert(card_views(commands@) =~= card_views(old(commands)@) + row_steps(
        row as int,
        (left.0@, left.1@),
        (right.0@, right.1@),
        s as int,
        palette,
    ));
}

fn push_addresses(
    commands: &mut Vec<CardCommand>,
    address: String,
    gateway: String,
    s: i32,
    palette: &NetworkPalette,
)
    requires
        1 <= s <= 0x1_0000,
    ensures
        card_views(final(commands)@) == card_views(old(commands)@) + address_steps(
            address@,
            gateway@,
            s as int,
            palette,
        ),
{
    let ghost steps = address_steps(address@, gateway@, s as int, palette);
    if addresses_long(address.as_str(), gateway.as_str()) {
        push_entry(commands, "IP Address", address, 20, 122, 278, s, palette);
        push_entry(commands, "Gateway", gateway, 20, 141, 278, s, palette);
        assert(card_views(commands@) =~= card_views(old(commands)@) + steps);
    } else {
        push_row(commands, 3, ("IP Address", address), ("Gateway", gateway), s, palette);
    }
}

fn addresses_long(address: &str, gateway: &str) -> (result: bool)
    ensures
        result == long_addresses(address@, gateway@),
{
    let first = chars_of(address);
    let second = chars_of(gateway);
    !fits_bytes(first.as_slice(), 15) || !fits_bytes(second.as_slice(), 15)
}

fn push_footer(
    commands: &mut Vec<CardCommand>,
    probe: String,
    extra: i32,
    s: i32,
    palette: &NetworkPalette,
)
    requires
        0 <= extra <= 19,
        1 <= s <= 0x1_0000,
    ensures
        card_views(final(commands)@) == card_views(old(commands)@) + footer_steps(
            probe@,
            extra as int,
            s as int,
            palette,
        ),
{
    push_command(
        commands,
        CardCommand::Fill { area: card_area(20, 148 + extra, 358, 1, s), color: palette.border },
    );
    push_text(
        commands,
        probe,
        card_area(20, 153 + extra, 358, 16, s),
        9,
        palette.muted,
        false,
    );
    push_text(
        commands,
        "Traffic totals since interface started".to_owned(),
        card_area(20, 170 + extra, 358, 16, s),
        9,
        palette.muted,
        false,
    );
    assert(card_views(commands@) =~= card_views(old(commands)@) + footer_steps(
        probe@,
        extra as int,
        s as int,
        palette,
    ));
}

fn ping_of(ping: Option<u64>, time: &String) -> (result: String)
    ensures
        result@ == ping_text(ping, time@),
{
    if ping.is_some() {
        let mut text = time.clone();
        text.append(" ms");
        text
    } else {
        "—".to_owned()
    }
}

fn loss_of(loss: Option<u8>) -> (result: String)
    ensures
        result@ == loss_text(loss),
{
    match loss {
        Some(share) => {
            let mut text = String::new();
            push_decimal(&mut text, share as u64);
            assert(text@ =~= decimal(share as nat));
            text.append("%");
            text
        },
        None => "—".to_owned(),
    }
}

fn probe_of(target: &str, failed: bool) -> (result: String)
    ensures
        result@ == probe_text(target@, failed),
{
    let mut text = "Ping ".to_owned();
    text.append(target);
    if failed {
        text.append(": unavailable");
    } else {
        text.append(" · loss over last 20 probes");
    }
    text
}

/// The card of the network.
#[derive(Debug)]
pub struct PreparedNetwork {
    pub card: Card,
}

impl PreparedNetwork {
    pub open spec fn wf(&self) -> bool {
        self.card.wf()
    }

    pub fn size(&self) -> (result: (u32, u32))
        ensures
            result == (self.card.width, self.card.height),
    {
        self.card.size()
    }

    /// Gives the card the room that there is for it; the rest is cut off.
    pub fn constrain(&mut self, width: u32, height: u32)
        requires
            old(self).wf(),
        ensures
            final(self).wf(),
            final(self).card.constrained_from(&old(self).card, width, height),
    {
        self.card.constrain(width, height);
    }

    pub fn selection_at(&self, x: i32, y: i32) -> (result: Option<MenuSelection>)
        requires
            self.wf(),
        ensures
            result == self.card.selected_at(x as int, y as int),
    {
        self.card.selection_at(x, y)
    }

    pub fn next_selection(&self) -> (result: Option<MenuSelection>)
        requires
            self.wf(),
        ensures
            result == self.card.only_selection(),
    {
        self.card.next_selection()
    }

    /// The visible buttons, and the frame around the selected one, to be drawn
    /// over the card.
    pub fn draw_network(&self, selected: Option<MenuSelection>) -> (result: (
        Vec<MenuHitbox>,
        Option<PixelRect>,
    ))
        requires
            self.wf(),
        ensures
            result.0@ == self.card.visible_buttons(),
            result.1 == self.card.frame_of(selected),
    {
        self.card.draw(selected)
    }
}

/// Lays out the card of the network's state.
pub fn prepare_network(
    snapshot: &NetworkSnapshot,
    texts: &NetworkTexts,
    scale: u32,
    palette: &NetworkPalette,
) -> (result: PreparedNetwork)
    requires
        scale <= 0x1_0000,
    ensures
        result.wf(),
        result.card.scale == at_least_one(scale),
        result.card.accent == palette.accent,
        result.card.width == 400 * result.card.scale,
        result.card.height == result.card.scale * card_height(
            long_addresses(
                address_text(snapshot.address, texts.address@),
                address_text(snapshot.gateway, texts.gateway@),
            ),
        ),
        result.card.natural_size == (result.card.width, result.card.height),
        result.card.refresh == button_of(
            area_of(350, 15, 32, 36, result.card.scale as int),
        ),
        card_views(result.card.commands@) == network_steps(
            snapshot@,
            *texts,
            result.card.scale as int,
            palette,
        ),
{
    let scale: u32 = if scale > 1 {
        scale
    } else {
        1
    };
    let s: i32 = scale as i32;
    let address = address_of(snapshot.address, &texts.address);
    let gateway = address_of(snapshot.gateway, &texts.gateway);
    let extra: u32 = if addresses_long(address.as_str(), gateway.as_str()) {
        EXTRA
    } else {
        0
    };
    let height: u32 = HEIGHT + extra;
    let mut commands: Vec<CardCommand> = Vec::new();
    assert(card_views(commands@) =~= Seq::<CardView>::empty());
    push_header(
        &mut commands,
        snapshot.kind,
        snapshot.interface.as_str(),
        height as i32,
        s,
        palette,
    );
    push_row(
        &mut commands,
        0,
        ("Ping", ping_of(snapshot.ping_ms, &texts.ping)),
        ("Packet Loss", loss_of(snapshot.loss_percent)),
        s,
        palette,
    );
    push_row(
        &mut commands,
        1,
        ("Receiving", rate(snapshot.rx_per_second)),
        ("Sending", rate(snapshot.tx_per_second)),
        s,
        palette,
    );
    push_row(
        &mut commands,
        2,
        ("Downloaded", bytes(snapshot.rx_bytes)),
        ("Uploaded", bytes(snapshot.tx_bytes)),
        s,
        palette,
    );
    push_addresses(&mut commands, address, gateway, s, palette);
    push_footer(
        &mut commands,
        probe_of(texts.target.as_str(), snapshot.probe_error.is_some()),
        extra as i32,
        s,
        palette,
    );
    assert(card_views(commands@) =~= network_steps(snapshot@, *texts, s as int, palette));
    PreparedNetwork {
        card: Card {
            width: WIDTH * scale,
            height: height * scale,
            natural_size: (WIDTH * scale, height * scale),
            scale,
            refresh: button_at(card_area(350, 15, 32, 36, s)),
            accent: palette.accent,
            commands,
        },
    }
}

} // verus!
