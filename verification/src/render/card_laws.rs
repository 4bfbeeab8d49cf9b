//! What holds of every information card: each figure stands beside its own label.

use vstd::prelude::*;

use crate::config::WeatherUnits;
use crate::network::SnapshotView;
use crate::render::bar::Size;
use crate::render::card::{area_of, button_of, text_place, Card, CardIcon, CardView};
use crate::render::calendar::box_holds;
use crate::render::layout::smaller;
use crate::render::menu::MenuSelection;
use crate::render::network::{
    address_steps, address_text, card_height, double_step, entry_steps, footer_steps, half_even,
    header_steps, kind_title, long_addresses, loss_text, nearest_double, network_steps, ping_text,
    probe_text, rate_text, row_steps, status_text, traffic_text, NetworkPalette, NetworkTexts,
};
use crate::render::pixels::PixelRect;
use crate::render::weather::{
    day_steps, days_steps, empty_steps, figure_steps, forecast_steps, frame_steps, now_steps,
    report_steps, unit_of, weather_steps, weekday_text, wind_unit, with_unit, DayTexts,
    WeatherPalette, WeatherTexts,
};
use crate::text::{decimal, uppercase};
use crate::weather::schedule::StateView;
use crate::weather::{ReportView, WeatherDay};

verus! {

/// Whether a step is a text.
pub open spec fn is_text(step: CardView, wanted: Seq<char>) -> bool {
    step matches CardView::Text { text, .. } && text == wanted
}

/// Where the text of a step stands.
pub open spec fn place(step: CardView) -> PixelRect {
    step->Text_area
}

/// Whether a value stands right of a label, in the same row.
pub open spec fn stands_beside(steps: Seq<CardView>, label: Seq<char>, value: Seq<char>) -> bool {
    exists|i: int, j: int|
        #![trigger steps[i], steps[j]]
        0 <= i < steps.len() && 0 <= j < steps.len() && is_text(steps[i], label) && is_text(
            steps[j],
            value,
        ) && place(steps[i]).y == place(steps[j]).y && place(steps[i]).height == place(
            steps[j],
        ).height && place(steps[j]).x == place(steps[i]).x + place(steps[i]).width
}

/// Whether a value stands right below a label.
pub open spec fn stands_below(steps: Seq<CardView>, label: Seq<char>, value: Seq<char>) -> bool {
    exists|i: int, j: int|
        #![trigger steps[i], steps[j]]
        0 <= i < steps.len() && 0 <= j < steps.len() && is_text(steps[i], label) && is_text(
            steps[j],
            value,
        ) && place(steps[i]).x == place(steps[j]).x && place(steps[i]).width == place(
            steps[j],
        ).width && place(steps[i]).y < place(steps[j]).y
}

/// Whether a text is on a card.
pub open spec fn says(steps: Seq<CardView>, wanted: Seq<char>) -> bool {
    exists|i: int| 0 <= i < steps.len() && is_text(#[trigger] steps[i], wanted)
}

/// Whether an icon is on a card.
pub open spec fn shows(steps: Seq<CardView>, wanted: CardIcon) -> bool {
    exists|i: int| 0 <= i < steps.len() && is_icon(#[trigger] steps[i], wanted)
}

/// Whether a text is placed on a card by itself.
pub open spec fn places(steps: Seq<CardView>, wanted: Seq<char>) -> bool {
    exists|i: int|
        0 <= i < steps.len() && #[trigger] steps[i] is Placed && steps[i]->Placed_text == wanted
}

/// Whether a step is an icon.
pub open spec fn is_icon(step: CardView, wanted: CardIcon) -> bool {
    step matches CardView::Icon { icon, .. } && icon == wanted
}

proof fn lemma_beside_join(
    before: Seq<CardView>,
    part: Seq<CardView>,
    after: Seq<CardView>,
    label: Seq<char>,
    value: Seq<char>,
)
    requires
        stands_beside(part, label, value),
    ensures
        stands_beside(before + part + after, label, value),
{
    let (i, j) = choose|i: int, j: int|
        #![trigger part[i], part[j]]
        0 <= i < part.len() && 0 <= j < part.len() && is_text(part[i], label) && is_text(
            part[j],
            value,
        ) && place(part[i]).y == place(part[j]).y && place(part[i]).height == place(part[j]).height
            && place(part[j]).x == place(part[i]).x + place(part[i]).width;
    let all = before + part + after;
    assert(all[before.len() + i] == part[i]);
    assert(all[before.len() + j] == part[j]);
}

proof fn lemma_below_join(
    before: Seq<CardView>,
    part: Seq<CardView>,
    after: Seq<CardView>,
    label: Seq<char>,
    value: Seq<char>,
)
    requires
        stands_below(part, label, value),
    ensures
        stands_below(before + part + after, label, value),
{
    let (i, j) = choose|i: int, j: int|
        #![trigger part[i], part[j]]
        0 <= i < part.len() && 0 <= j < part.len() && is_text(part[i], label) && is_text(
            part[j],
            value,
        ) && place(part[i]).x == place(part[j]).x && place(part[i]).width == place(part[j]).width
            && place(part[i]).y < place(part[j]).y;
    let all = before + part + after;
    assert(all[before.len() + i] == part[i]);
    assert(all[before.len() + j] == part[j]);
}

proof fn lemma_says_join(
    before: Seq<CardView>,
    part: Seq<CardView>,
    after: Seq<CardView>,
    wanted: Seq<char>,
)
    requires
        says(part, wanted),
    ensures
        says(before + part + after, wanted),
{
    let i = choose|i: int| 0 <= i < part.len() && is_text(#[trigger] part[i], wanted);
    assert((before + part + after)[before.len() + i] == part[i]);
}

proof fn lemma_shows_join(
    before: Seq<CardView>,
    part: Seq<CardView>,
    after: Seq<CardView>,
    wanted: CardIcon,
)
    requires
        shows(part, wanted),
    ensures
        shows(before + part + after, wanted),
{
    let i = choose|i: int| 0 <= i < part.len() && is_icon(#[trigger] part[i], wanted);
    assert((before + part + after)[before.len() + i] == part[i]);
}

proof fn lemma_entry(
    label: Seq<char>,
    value: Seq<char>,
    x: int,
    y: int,
    width: int,
    s: int,
    palette: &NetworkPalette,
)
    requires
        0 <= x <= 300,
        0 <= y <= 300,
        0 <= width <= 300,
        1 <= s <= 0x1_0000,
    ensures
        stands_beside(entry_steps(label, value, x, y, width, s, palette), label, value),
{
    let steps = entry_steps(label, value, x, y, width, s, palette);
    assert((x + 80) * s == x * s + 80 * s) by (nonlinear_arith);
    assert(0 <= x * s <= 0x200_0000 && 0 <= y * s <= 0x200_0000 && 0 <= 80 * s <= 0x200_0000)
        by (nonlinear_arith)
        requires
            0 <= x <= 300,
            0 <= y <= 300,
            1 <= s <= 0x1_0000,
    ;
    assert(steps[0] is Text && steps[1] is Text);
}

proof fn lemma_row(
    row: int,
    left: (Seq<char>, Seq<char>),
    right: (Seq<char>, Seq<char>),
    s: int,
    palette: &NetworkPalette,
)
    requires
        0 <= row <= 3,
        1 <= s <= 0x1_0000,
    ensures
        stands_beside(row_steps(row, left, right, s, palette), left.0, left.1),
        stands_beside(row_steps(row, left, right, s, palette), right.0, right.1),
{
    let a = entry_steps(left.0, left.1, 20, 65 + row * 19, 98, s, palette);
    let b = entry_steps(right.0, right.1, 210, 65 + row * 19, 98, s, palette);
    lemma_entry(left.0, left.1, 20, 65 + row * 19, 98, s, palette);
    lemma_entry(right.0, right.1, 210, 65 + row * 19, 98, s, palette);
    let none = Seq::<CardView>::empty();
    lemma_beside_join(none, a, b, left.0, left.1);
    lemma_beside_join(a, b, none, right.0, right.1);
    assert(none + a + b =~= row_steps(row, left, right, s, palette));
    assert(a + b + none =~= row_steps(row, left, right, s, palette));
}

proof fn lemma_addresses(
    address: Seq<char>,
    gateway: Seq<char>,
    s: int,
    palette: &NetworkPalette,
)
    requires
        1 <= s <= 0x1_0000,
    ensures
        stands_beside(address_steps(address, gateway, s, palette), "IP Address"@, address),
        stands_beside(address_steps(address, gateway, s, palette), "Gateway"@, gateway),
{
    if long_addresses(address, gateway) {
        let a = entry_steps("IP Address"@, address, 20, 122, 278, s, palette);
        let b = entry_steps("Gateway"@, gateway, 20, 141, 278, s, palette);
        lemma_entry("IP Address"@, address, 20, 122, 278, s, palette);
        lemma_entry("Gateway"@, gateway, 20, 141, 278, s, palette);
        let none = Seq::<CardView>::empty();
        lemma_beside_join(none, a, b, "IP Address"@, address);
        lemma_beside_join(a, b, none, "Gateway"@, gateway);
        assert(none + a + b =~= address_steps(address, gateway, s, palette));
        assert(a + b + none =~= address_steps(address, gateway, s, palette));
    } else {
        lemma_row(3, ("IP Address"@, address), ("Gateway"@, gateway), s, palette);
    }
}

/// The parts of the card of the network.
spec fn network_parts(
    snapshot: SnapshotView,
    texts: NetworkTexts,
    s: int,
    palette: &NetworkPalette,
) -> (
    Seq<CardView>,
    Seq<CardView>,
    Seq<CardView>,
    Seq<CardView>,
    Seq<CardView>,
    Seq<CardView>,
) {
    let address = address_text(snapshot.address, texts.address@);
    let gateway = address_text(snapshot.gateway, texts.gateway@);
    let height = card_height(long_addresses(address, gateway));
    (
        header_steps(snapshot.kind, snapshot.interface, height, s, palette),
        row_steps(
            0,
            ("Ping"@, ping_text(snapshot.ping_ms, texts.ping@)),
            ("Packet Loss"@, loss_text(snapshot.loss_percent)),
            s,
            palette,
        ),
        row_steps(
            1,
            ("Receiving"@, rate_text(snapshot.rx_per_second)),
            ("Sending"@, rate_text(snapshot.tx_per_second)),
            s,
            palette,
        ),
        row_steps(
            2,
            ("Downloaded"@, traffic_text(snapshot.rx_bytes)),
            ("Uploaded"@, traffic_text(snapshot.tx_bytes)),
            s,
            palette,
        ),
        address_steps(address, gateway, s, palette),
        footer_steps(
            probe_text(texts.target@, snapshot.probe_error is Some),
            height - 196,
            s,
            palette,
        ),
    )
}

/// Each figure of the network stands beside its own label: what is received beside
/// "Receiving" and "Downloaded", what is sent beside "Sending" and "Uploaded", and a
/// dash where a figure is not known.
pub proof fn law_network_figures_stand_beside_their_labels(
    snapshot: SnapshotView,
    texts: NetworkTexts,
    s: int,
    palette: &NetworkPalette,
)
    requires
        1 <= s <= 0x1_0000,
    ensures
        ({
            let steps = network_steps(snapshot, texts, s, palette);
            &&& stands_beside(steps, "Receiving"@, rate_text(snapshot.rx_per_second))
            &&& stands_beside(steps, "Sending"@, rate_text(snapshot.tx_per_second))
            &&& stands_beside(steps, "Downloaded"@, traffic_text(snapshot.rx_bytes))
            &&& stands_beside(steps, "Uploaded"@, traffic_text(snapshot.tx_bytes))
            &&& snapshot.ping_ms is Some ==> stands_beside(steps, "Ping"@, texts.ping@ + " ms"@)
            &&& snapshot.ping_ms is None ==> stands_beside(steps, "Ping"@, "—"@)
            &&& snapshot.loss_percent matches Some(loss) ==> stands_beside(
                steps,
                "Packet Loss"@,
                decimal(loss as nat) + "%"@,
            )
            &&& snapshot.loss_percent is None ==> stands_beside(steps, "Packet Loss"@, "—"@)
            &&& snapshot.address is Some ==> stands_beside(steps, "IP Address"@, texts.address@)
            &&& snapshot.address is None ==> stands_beside(steps, "IP Address"@, "—"@)
            &&& snapshot.gateway is Some ==> stands_beside(steps, "Gateway"@, texts.gateway@)
            &&& snapshot.gateway is None ==> stands_beside(steps, "Gateway"@, "—"@)
        }),
{
    let steps = network_steps(snapshot, texts, s, palette);
    let (a, b, c, d, e, f) = network_parts(snapshot, texts, s, palette);
    assert(steps == a + b + c + d + e + f);
    let ping = ping_text(snapshot.ping_ms, texts.ping@);
    let loss = loss_text(snapshot.loss_percent);
    let receiving = rate_text(snapshot.rx_per_second);
    let sending = rate_text(snapshot.tx_per_second);
    let downloaded = traffic_text(snapshot.rx_bytes);
    let uploaded = traffic_text(snapshot.tx_bytes);
    let address = address_text(snapshot.address, texts.address@);
    let gateway = address_text(snapshot.gateway, texts.gateway@);
    lemma_row(0, ("Ping"@, ping), ("Packet Loss"@, loss), s, palette);
    lemma_row(1, ("Receiving"@, receiving), ("Sending"@, sending), s, palette);
    lemma_row(2, ("Downloaded"@, downloaded), ("Uploaded"@, uploaded), s, palette);
    lemma_addresses(address, gateway, s, palette);
    lemma_beside_join(a, b, c + d + e + f, "Ping"@, ping);
    lemma_beside_join(a, b, c + d + e + f, "Packet Loss"@, loss);
    assert(a + b + (c + d + e + f) =~= steps);
    lemma_beside_join(a + b, c, d + e + f, "Receiving"@, receiving);
    lemma_beside_join(a + b, c, d + e + f, "Sending"@, sending);
    assert(a + b + c + (d + e + f) =~= steps);
    lemma_beside_join(a + b + c, d, e + f, "Downloaded"@, downloaded);
    lemma_beside_join(a + b + c, d, e + f, "Uploaded"@, uploaded);
    assert(a + b + c + d + (e + f) =~= steps);
    lemma_beside_join(a + b + c + d, e, f, "IP Address"@, address);
    lemma_beside_join(a + b + c + d, e, f, "Gateway"@, gateway);
}

/// The head of the card tells the kind of the connection, in its icon and in words, and
/// the interface; its foot tells what is probed and whether that is possible.
pub proof fn law_network_cards_tell_the_connection(
    snapshot: SnapshotView,
    texts: NetworkTexts,
    s: int,
    palette: &NetworkPalette,
)
    requires
        1 <= s <= 0x1_0000,
    ensures
        ({
            let steps = network_steps(snapshot, texts, s, palette);
            &&& shows(steps, CardIcon::Network(snapshot.kind))
            &&& shows(steps, CardIcon::Refresh)
            &&& snapshot.kind is Ethernet ==> says(steps, "Ethernet"@)
            &&& snapshot.kind is Wifi ==> says(steps, "Wi-Fi"@)
            &&& snapshot.kind is Vpn ==> says(steps, "VPN"@)
            &&& snapshot.kind is Offline ==> says(steps, "Disconnected"@)
            &&& snapshot.interface.len() == 0 ==> says(steps, "NO ACTIVE CONNECTION"@)
            &&& snapshot.interface.len() > 0 && snapshot.kind is Offline ==> says(
                steps,
                "OFFLINE"@ + " · "@ + snapshot.interface,
            )
            &&& snapshot.interface.len() > 0 && !(snapshot.kind is Offline) ==> says(
                steps,
                "CONNECTED"@ + " · "@ + snapshot.interface,
            )
            &&& snapshot.probe_error is Some ==> says(
                steps,
                "Ping "@ + texts.target@ + ": unavailable"@,
            )
            &&& snapshot.probe_error is None ==> says(
                steps,
                "Ping "@ + texts.target@ + " · loss over last 20 probes"@,
            )
        }),
{
    let steps = network_steps(snapshot, texts, s, palette);
    let (a, b, c, d, e, f) = network_parts(snapshot, texts, s, palette);
    assert(steps == a + b + c + d + e + f);
    let none = Seq::<CardView>::empty();
    let rest = b + c + d + e + f;
    let status = status_text(snapshot.kind, snapshot.interface);
    let probe = probe_text(texts.target@, snapshot.probe_error is Some);
    assert(a[2] is Icon && a[3] is Text && a[4] is Text && a[5] is Icon);
    assert(f[1] is Text);
    lemma_shows_join(none, a, rest, CardIcon::Network(snapshot.kind));
    lemma_shows_join(none, a, rest, CardIcon::Refresh);
    lemma_says_join(none, a, rest, kind_title(snapshot.kind));
    lemma_says_join(none, a, rest, status);
    assert(none + a + rest =~= steps);
    lemma_says_join(a + b + c + d + e, f, none, probe);
    assert(a + b + c + d + e + f + none =~= steps);
}

/// Traffic is told in bytes, or to the nearest tenth of a unit that the amount reaches:
/// what is written is at most half a tenth of the unit away from the amount.
pub proof fn law_traffic_is_rounded_to_tenths(value: u64)
    requires
        value < 0x20_0000_0000_0000,
    ensures
        value < 1024 ==> traffic_text(value) == decimal(value as nat) + " B"@,
        value >= 1024 ==> exists|tenths: int, power: int|
            #![trigger unit_size(power), decimal((tenths / 10) as nat)]
            {
                &&& 1 <= power <= 5
                &&& 10 <= tenths <= 10240
                &&& -unit_size(power) <= 2 * (tenths * unit_size(power) - 10 * value) <= unit_size(
                    power,
                )
                &&& unit_size(power) <= value < 1024 * unit_size(power)
                &&& traffic_text(value) == decimal((tenths / 10) as nat) + seq!['.'] + decimal(
                    (tenths % 10) as nat,
                ) + unit_name(power)
            },
{
    if value >= 1024 {
        reveal_with_fuel(double_step, 2);
        assert(double_step(value as int) == 1);
        assert(nearest_double(value as int) == value) by {
            assert(value as int / 1 == value);
            assert(value as int % 1 == 0);
        }
        reveal_with_fuel(unit_size, 6);
        let power: int = if value < 0x10_0000 {
            1
        } else if value < 0x4000_0000 {
            2
        } else if value < 0x100_0000_0000 {
            3
        } else if value < 0x4_0000_0000_0000 {
            4
        } else {
            5
        };
        let size = unit_size(power);
        let tenths = half_even(value * 10, size);
        lemma_half_even(value * 10, size);
        assert(10 <= tenths <= 10240) by (nonlinear_arith)
            requires
                -size <= 2 * (tenths * size - value * 10) <= size,
                size <= value < 1024 * size,
                size > 1,
        ;
        assert(traffic_text(value) =~= decimal((tenths / 10) as nat) + seq!['.'] + decimal(
            (tenths % 10) as nat,
        ) + unit_name(power));
    }
}

proof fn lemma_half_even(dividend: int, divisor: int)
    requires
        0 <= dividend,
        0 < divisor,
    ensures
        -divisor <= 2 * (half_even(dividend, divisor) * divisor - dividend) <= divisor,
{
    let quotient = dividend / divisor;
    let rest = dividend % divisor;
    vstd::arithmetic::div_mod::lemma_fundamental_div_mod(dividend, divisor);
    assert((quotient + 1) * divisor == quotient * divisor + divisor) by (nonlinear_arith);
    assert(divisor * quotient == quotient * divisor) by (nonlinear_arith);
}

/// The bytes of a binary unit: each is 1024 of the one before it.
pub open spec fn unit_size(power: int) -> int
    decreases power,
{
    if power <= 0 {
        1
    } else {
        1024 * unit_size(power - 1)
    }
}

/// The name of a binary unit.
pub open spec fn unit_name(power: int) -> Seq<char> {
    if power == 1 {
        " KiB"@
    } else if power == 2 {
        " MiB"@
    } else if power == 3 {
        " GiB"@
    } else if power == 4 {
        " TiB"@
    } else {
        " PiB"@
    }
}

/// A rate is the traffic of a second, or unknown.
pub proof fn law_rates_are_traffic_per_second(value: u64)
    ensures
        rate_text(Some(value)) == traffic_text(value) + "/s"@,
        rate_text(None) == "—"@,
{
}

proof fn lemma_figure(
    x: int,
    label: Seq<char>,
    value: Seq<char>,
    s: int,
    palette: &WeatherPalette,
)
    requires
        0 <= x <= 480,
        1 <= s <= 0x1_0000,
    ensures
        stands_below(figure_steps(x, label, value, s, palette), label, value),
{
    let steps = figure_steps(x, label, value, s, palette);
    assert(0 <= x * s <= 0x1e0_0000) by (nonlinear_arith)
        requires
            0 <= x <= 480,
            1 <= s <= 0x1_0000,
    ;
    assert(steps[0] is Text && steps[1] is Text);
}

/// The parts of what is shown of a report.
spec fn report_parts(
    report: ReportView,
    texts: WeatherTexts,
    units: WeatherUnits,
    width: int,
    s: int,
    palette: &WeatherPalette,
) -> (
    Seq<CardView>,
    Seq<CardView>,
    Seq<CardView>,
    Seq<CardView>,
    Seq<CardView>,
    Seq<CardView>,
) {
    (
        now_steps(report, texts.temperature@, units, width, s, palette),
        figure_steps(
            250,
            "FEELS"@,
            with_unit(report.feels, texts.feels@, unit_of(units)),
            s,
            palette,
        ),
        figure_steps(
            322,
            "WIND"@,
            with_unit(report.wind, texts.wind@, wind_unit(units)),
            s,
            palette,
        ),
        figure_steps(400, "HUMID"@, with_unit(report.humidity, texts.humidity@, "%"@), s, palette),
        seq![CardView::Fill { area: area_of(22, 120, 436, 1, s), color: palette.border }],
        forecast_steps(report.days, texts.days@, s, palette),
    )
}

proof fn lemma_joined(
    frame: Seq<CardView>,
    a: Seq<CardView>,
    b: Seq<CardView>,
    c: Seq<CardView>,
    d: Seq<CardView>,
    e: Seq<CardView>,
    f: Seq<CardView>,
    last: Seq<CardView>,
)
    ensures
        ({
            let all = frame + (a + b + c + d + e + f) + last;
            &&& frame + a + (b + c + d + e + f + last) == all
            &&& frame + a + b + (c + d + e + f + last) == all
            &&& frame + a + b + c + (d + e + f + last) == all
            &&& frame + a + b + c + d + (e + f + last) == all
            &&& frame + a + b + c + d + e + f + last == all
        }),
{
    let all = frame + (a + b + c + d + e + f) + last;
    assert(frame + a + (b + c + d + e + f + last) =~= all);
    assert(frame + a + b + (c + d + e + f + last) =~= all);
    assert(frame + a + b + c + (d + e + f + last) =~= all);
    assert(frame + a + b + c + d + (e + f + last) =~= all);
    assert(frame + a + b + c + d + e + f + last =~= all);
}

proof fn lemma_weather_parts(
    state: StateView,
    texts: WeatherTexts,
    units: WeatherUnits,
    width: int,
    s: int,
    palette: &WeatherPalette,
)
    requires
        state.report is Some,
    ensures
        ({
            let steps = weather_steps(state, texts, units, width, s, palette);
            let (a, b, c, d, e, f) = report_parts(state.report->0, texts, units, width, s, palette);
            steps == frame_steps(s, palette) + (a + b + c + d + e + f) + seq![steps.last()]
        }),
{
    let steps = weather_steps(state, texts, units, width, s, palette);
    let middle = report_steps(state.report->0, texts, units, width, s, palette);
    assert(steps =~= frame_steps(s, palette) + middle + seq![steps.last()]);
}

/// The figures of a report stand below their labels, in the wanted units, and a dash
/// where a figure is not known.
pub proof fn law_weather_figures_stand_below_their_labels(
    state: StateView,
    texts: WeatherTexts,
    units: WeatherUnits,
    width: int,
    s: int,
    palette: &WeatherPalette,
)
    requires
        1 <= s <= 0x1_0000,
        state.report is Some,
    ensures
        ({
            let steps = weather_steps(state, texts, units, width, s, palette);
            let report = state.report->0;
            let imperial = units == WeatherUnits::Imperial;
            &&& report.feels is None ==> stands_below(steps, "FEELS"@, "—"@)
            &&& report.feels is Some && imperial ==> stands_below(
                steps,
                "FEELS"@,
                texts.feels@ + "°F"@,
            )
            &&& report.feels is Some && !imperial ==> stands_below(
                steps,
                "FEELS"@,
                texts.feels@ + "°C"@,
            )
            &&& report.wind is None ==> stands_below(steps, "WIND"@, "—"@)
            &&& report.wind is Some && imperial ==> stands_below(
                steps,
                "WIND"@,
                texts.wind@ + " mph"@,
            )
            &&& report.wind is Some && !imperial ==> stands_below(
                steps,
                "WIND"@,
                texts.wind@ + " km/h"@,
            )
            &&& report.humidity is None ==> stands_below(steps, "HUMID"@, "—"@)
            &&& report.humidity is Some ==> stands_below(
                steps,
                "HUMID"@,
                texts.humidity@ + "%"@,
            )
        }),
{
    let steps = weather_steps(state, texts, units, width, s, palette);
    let report = state.report->0;
    let frame = frame_steps(s, palette);
    let (a, b, c, d, e, f) = report_parts(report, texts, units, width, s, palette);
    let last = seq![steps.last()];
    lemma_weather_parts(state, texts, units, width, s, palette);
    lemma_joined(frame, a, b, c, d, e, f, last);
    let feels = with_unit(report.feels, texts.feels@, unit_of(units));
    let wind = with_unit(report.wind, texts.wind@, wind_unit(units));
    let humidity = with_unit(report.humidity, texts.humidity@, "%"@);
    lemma_figure(250, "FEELS"@, feels, s, palette);
    lemma_figure(322, "WIND"@, wind, s, palette);
    lemma_figure(400, "HUMID"@, humidity, s, palette);
    lemma_below_join(frame + a, b, c + d + e + f + last, "FEELS"@, feels);
    lemma_below_join(frame + a + b, c, d + e + f + last, "WIND"@, wind);
    lemma_below_join(frame + a + b + c, d, e + f + last, "HUMID"@, humidity);
}

/// The icon is that of the weather now, and the location and the unit of the temperature are
/// told.
pub proof fn law_weather_cards_tell_the_place(
    state: StateView,
    texts: WeatherTexts,
    units: WeatherUnits,
    width: int,
    s: int,
    palette: &WeatherPalette,
)
    requires
        state.report is Some,
    ensures
        ({
            let steps = weather_steps(state, texts, units, width, s, palette);
            let report = state.report->0;
            &&& shows(
                steps,
                CardIcon::Weather { condition: report.condition, night: report.night },
            )
            &&& says(steps, uppercase(report.location))
            &&& units == WeatherUnits::Imperial ==> says(steps, "°F"@)
            &&& units == WeatherUnits::Metric ==> says(steps, "°C"@)
            &&& report.days.len() == 0 ==> says(steps, "Forecast unavailable"@)
        }),
{
    let steps = weather_steps(state, texts, units, width, s, palette);
    let report = state.report->0;
    let frame = frame_steps(s, palette);
    let (a, b, c, d, e, f) = report_parts(report, texts, units, width, s, palette);
    let last = seq![steps.last()];
    lemma_weather_parts(state, texts, units, width, s, palette);
    lemma_joined(frame, a, b, c, d, e, f, last);
    let rest = b + c + d + e + f + last;
    assert(a[0] is Icon && a[2] is Text && a[3] is Text);
    lemma_shows_join(
        frame,
        a,
        rest,
        CardIcon::Weather { condition: report.condition, night: report.night },
    );
    lemma_says_join(frame, a, rest, unit_of(units));
    lemma_says_join(frame, a, rest, uppercase(report.location));
    if report.days.len() == 0 {
        assert(f[0] is Text);
        lemma_says_join(frame + a + b + c + d + e, f, last, "Forecast unavailable"@);
    }
}

/// The temperature is written on the card of a report.
pub proof fn law_weather_cards_show_the_temperature(
    state: StateView,
    texts: WeatherTexts,
    units: WeatherUnits,
    width: int,
    s: int,
    palette: &WeatherPalette,
)
    requires
        state.report is Some,
    ensures
        places(weather_steps(state, texts, units, width, s, palette), texts.temperature@),
{
    let steps = weather_steps(state, texts, units, width, s, palette);
    let frame = frame_steps(s, palette);
    let (a, b, c, d, e, f) = report_parts(state.report->0, texts, units, width, s, palette);
    assert(frame.len() == 3);
    assert(steps[4] == a[1]);
}

proof fn lemma_day_part(
    days: Seq<WeatherDay>,
    texts: Seq<DayTexts>,
    count: int,
    s: int,
    palette: &WeatherPalette,
    index: int,
)
    requires
        0 <= index < count,
    ensures
        days_steps(days, texts, count, s, palette).len() == 4 * count,
        forall|k: int|
            0 <= k < 4 ==> days_steps(days, texts, count, s, palette)[4 * index + k]
                == #[trigger] day_steps(
                index,
                days[index],
                texts[index].high@,
                texts[index].low@,
                s,
                palette,
            )[k],
    decreases count,
{
    let before = days_steps(days, texts, count - 1, s, palette);
    let last = day_steps(
        count - 1,
        days[count - 1],
        texts[count - 1].high@,
        texts[count - 1].low@,
        s,
        palette,
    );
    assert(last.len() == 4);
    assert(days_steps(days, texts, count, s, palette) == before + last);
    if index < count - 1 {
        lemma_day_part(days, texts, count - 1, s, palette, index);
        let part = day_steps(
            index,
            days[index],
            texts[index].high@,
            texts[index].low@,
            s,
            palette,
        );
        assert forall|k: int| 0 <= k < 4 implies (before + last)[4 * index + k] == #[trigger] part[k] by {
            assert((before + last)[4 * index + k] == before[4 * index + k]);
        }
    } else if count > 1 {
        lemma_day_part(days, texts, count - 1, s, palette, 0);
    } else {
        assert(before.len() == 0);
    }
}

/// Each of the next three days has its own icon, its day of the week, and its highest
/// and lowest temperature, the highest one first, in the row of the day; the days stand
/// from left to right.
pub proof fn law_forecasts_show_their_days(
    report: ReportView,
    texts: WeatherTexts,
    s: int,
    palette: &WeatherPalette,
    index: int,
)
    requires
        1 <= s <= 0x1_0000,
        0 <= index < report.days.len(),
        index < 3,
        texts.days@.len() == report.days.len(),
    ensures
        ({
            let steps = forecast_steps(report.days, texts.days@, s, palette);
            let day = report.days[index];
            let high = if day.high is Some {
                texts.days@[index].high@ + "°"@
            } else {
                "—"@
            };
            let low = if day.low is Some {
                texts.days@[index].low@ + "°"@
            } else {
                "—"@
            };
            &&& 4 * index + 3 < steps.len()
            &&& is_icon(
                steps[4 * index],
                CardIcon::Weather { condition: day.condition, night: false },
            )
            &&& is_text(steps[4 * index + 1], weekday_text(day.date.weekday()))
            &&& is_text(steps[4 * index + 2], high)
            &&& is_text(steps[4 * index + 3], low)
            &&& steps[4 * index]->Icon_x < place(steps[4 * index + 1]).x
            &&& place(steps[4 * index + 1]).x == place(steps[4 * index + 2]).x
            &&& place(steps[4 * index + 2]).x + place(steps[4 * index + 2]).width < place(
                steps[4 * index + 3],
            ).x
            &&& place(steps[4 * index + 1]).y < place(steps[4 * index + 2]).y
            &&& place(steps[4 * index + 2]).y == place(steps[4 * index + 3]).y
            &&& index > 0 ==> steps[4 * index - 4] is Icon && steps[4 * index - 4]->Icon_x
                < steps[4 * index]->Icon_x
        }),
{
    let count = smaller(report.days.len() as int, 3);
    let steps = forecast_steps(report.days, texts.days@, s, palette);
    lemma_day_part(report.days, texts.days@, count, s, palette, index);
    let part = day_steps(
        index,
        report.days[index],
        texts.days@[index].high@,
        texts.days@[index].low@,
        s,
        palette,
    );
    assert(steps[4 * index + 0] == part[0]);
    assert(steps[4 * index + 1] == part[1]);
    assert(steps[4 * index + 2] == part[2]);
    assert(steps[4 * index + 3] == part[3]);
    let x = 31 + index * 147;
    assert(0 <= x * s <= 0x1e0_0000 && x * s < (x + 35) * s <= 0x1e0_0000 && (x + 35) * s + 42 * s < (x
        + 79) * s <= 0x1e0_0000) by (nonlinear_arith)
        requires
            31 <= x <= 325,
            1 <= s <= 0x1_0000,
    ;
    if index > 0 {
        lemma_day_part(report.days, texts.days@, count, s, palette, index - 1);
        let before = day_steps(
            index - 1,
            report.days[index - 1],
            texts.days@[index - 1].high@,
            texts.days@[index - 1].low@,
            s,
            palette,
        );
        assert(steps[4 * (index - 1) + 0] == before[0]);
        assert(0 <= (x - 147) * s < x * s) by (nonlinear_arith)
            requires
                178 <= x <= 325,
                1 <= s <= 0x1_0000,
        ;
    }
}

/// Without a report the card tells what is wrong, or that the weather is being loaded.
/// The foot tells of a failed update, or when the last one was.
pub proof fn law_weather_cards_tell_the_state(
    state: StateView,
    texts: WeatherTexts,
    units: WeatherUnits,
    width: int,
    s: int,
    palette: &WeatherPalette,
)
    ensures
        ({
            let steps = weather_steps(state, texts, units, width, s, palette);
            &&& state.report is None && state.error is None ==> says(steps, "Loading weather…"@)
            &&& state.report is None ==> (state.error matches Some(error) ==> says(
                steps,
                "Weather unavailable"@,
            ) && says(steps, error))
            &&& state.error is None && state.updated_at is Some ==> says(
                steps,
                "Open-Meteo · updated "@ + texts.updated@,
            )
            &&& state.error is Some && state.report is Some ==> says(
                steps,
                "Open-Meteo · update failed; showing saved data"@,
            )
            &&& shows(steps, CardIcon::Refresh)
        }),
{
    let steps = weather_steps(state, texts, units, width, s, palette);
    let frame = frame_steps(s, palette);
    let last = seq![steps.last()];
    let none = Seq::<CardView>::empty();
    let middle = match state.report {
        Some(report) => report_steps(report, texts, units, width, s, palette),
        None => empty_steps(state.error, s, palette),
    };
    assert(steps =~= frame + middle + last);
    assert(frame[2] is Icon);
    lemma_shows_join(none, frame, middle + last, CardIcon::Refresh);
    assert(none + frame + (middle + last) =~= steps);
    if state.report is None {
        assert(middle[1] is Text && middle[2] is Text);
        if let Some(error) = state.error {
            lemma_says_join(frame, middle, last, "Weather unavailable"@);
            lemma_says_join(frame, middle, last, error);
        } else {
            lemma_says_join(frame, middle, last, "Loading weather…"@);
        }
    }
    assert(steps[steps.len() - 1] == last[0]);
    assert(last[0] is Text);
}

/// A text at the right edge of its area ends there and one at the left edge begins there;
/// both stand in the middle of its height.
pub proof fn law_texts_stand_in_their_area(area: PixelRect, size: Size)
    requires
        0 <= size.height <= area.height,
    ensures
        text_place(area, size, true).0 + size.width == area.x + area.width,
        text_place(area, size, false).0 == area.x,
        area.y <= text_place(area, size, true).1,
        text_place(area, size, true).1 + size.height <= area.y + area.height,
        text_place(area, size, true).1 == text_place(area, size, false).1,
        ({
            let above = text_place(area, size, true).1 - area.y;
            let below = area.y + area.height - (text_place(area, size, true).1 + size.height);
            above == below || above + 1 == below
        }),
{
}

/// A card has one button, which is selected by the points on it and framed while it is
/// selected.
pub proof fn law_buttons_of_cards(card: &Card, x: int, y: int)
    requires
        card.wf(),
    ensures
        card.selected_at(x, y) is Some <==> box_holds(card.refresh, x, y) && 0 <= x < card.width
            && 0 <= y < card.height,
        card.selected_at(x, y) is Some ==> card.selected_at(x, y) == Some(MenuSelection::Item(0))
            && card.only_selection() == Some(MenuSelection::Item(0)),
        card.frame_of(None) is None,
        card.only_selection() is Some ==> {
            let frame = card.frame_of(Some(MenuSelection::Item(0)));
            &&& frame is Some
            &&& 0 <= x < card.width && 0 <= y < card.height ==> (frame->0.contains(x, y)
                <==> box_holds(card.refresh, x, y))
        },
{
    crate::render::calendar_laws::law_clipped_boxes_are_on_the_canvas(
        card.refresh,
        card.width as int,
        card.height as int,
        x,
        y,
    );
}

/// An area is its figures times the scale, and a button has the area that it is drawn in.
pub proof fn law_areas_are_scaled(x: int, y: int, width: int, height: int, scale: int)
    requires
        0 <= x <= 512,
        0 <= y <= 512,
        0 <= width <= 512,
        0 <= height <= 512,
        1 <= scale <= 0x1_0000,
    ensures
        ({
            let area = area_of(x, y, width, height, scale);
            &&& area.x == x * scale
            &&& area.y == y * scale
            &&& area.width == width * scale
            &&& area.height == height * scale
            &&& button_of(area).x == area.x
            &&& button_of(area).y == area.y
            &&& button_of(area).width == area.width
            &&& button_of(area).height == area.height
            &&& button_of(area).enabled
            &&& button_of(area).selection == MenuSelection::Item(0)
        }),
{
    assert(0 <= x * scale <= 0x200_0000 && 0 <= y * scale <= 0x200_0000 && 0 <= width * scale
        <= 0x200_0000 && 0 <= height * scale <= 0x200_0000) by (nonlinear_arith)
        requires
            0 <= x <= 512,
            0 <= y <= 512,
            0 <= width <= 512,
            0 <= height <= 512,
            1 <= scale <= 0x1_0000,
    ;
}

/// The color of a step.
pub open spec fn color_of_step(step: CardView) -> [u8; 4] {
    match step {
        CardView::Fill { color, .. } => color,
        CardView::Outline { color, .. } => color,
        CardView::Icon { color, .. } => color,
        CardView::Text { color, .. } => color,
        CardView::Placed { color, .. } => color,
    }
}

/// Labels and notes are muted and values are not; the frame has the color of borders and
/// the button that of accents.
pub proof fn law_network_cards_are_colored(
    snapshot: SnapshotView,
    texts: NetworkTexts,
    label: Seq<char>,
    value: Seq<char>,
    s: int,
    palette: &NetworkPalette,
)
    ensures
        color_of_step(entry_steps(label, value, 20, 65, 98, s, palette)[0]) == palette.muted,
        color_of_step(entry_steps(label, value, 20, 65, 98, s, palette)[1]) == palette.foreground,
        ({
            let steps = network_steps(snapshot, texts, s, palette);
            &&& steps[0] is Fill && color_of_step(steps[0]) == palette.background
            &&& steps[1] is Outline && color_of_step(steps[1]) == palette.border
            &&& steps[1]->Outline_area == steps[0]->Fill_area
            &&& is_icon(steps[2], CardIcon::Network(snapshot.kind)) && color_of_step(steps[2])
                == palette.foreground
            &&& is_text(steps[3], kind_title(snapshot.kind)) && color_of_step(steps[3])
                == palette.foreground
            &&& is_text(steps[4], status_text(snapshot.kind, snapshot.interface)) && color_of_step(
                steps[4],
            ) == palette.muted
            &&& is_icon(steps[5], CardIcon::Refresh) && color_of_step(steps[5]) == palette.accent
            &&& place(steps[3]).y < place(steps[4]).y || s <= 0 || s > 0x1_0000
        }),
{
    let (a, b, c, d, e, f) = network_parts(snapshot, texts, s, palette);
    let steps = network_steps(snapshot, texts, s, palette);
    assert(steps == a + b + c + d + e + f);
    assert(forall|i: int| 0 <= i < 6 ==> #[trigger] steps[i] == a[i]);
}

/// In a forecast the highest temperature has the color of accents and the lowest one that of
/// text, and the day of the week is muted.
pub proof fn law_forecasts_are_colored(
    index: int,
    day: WeatherDay,
    high: Seq<char>,
    low: Seq<char>,
    s: int,
    palette: &WeatherPalette,
)
    ensures
        ({
            let steps = day_steps(index, day, high, low, s, palette);
            &&& color_of_step(steps[0]) == palette.foreground
            &&& color_of_step(steps[1]) == palette.muted
            &&& color_of_step(steps[2]) == palette.accent
            &&& color_of_step(steps[3]) == palette.foreground
        }),
        ({
            let steps = figure_steps(250, high, low, s, palette);
            &&& color_of_step(steps[0]) == palette.muted
            &&& color_of_step(steps[1]) == palette.foreground
        }),
        ({
            let steps = frame_steps(s, palette);
            &&& steps[0] is Fill && color_of_step(steps[0]) == palette.background
            &&& steps[1] is Outline && color_of_step(steps[1]) == palette.border
            &&& is_icon(steps[2], CardIcon::Refresh) && color_of_step(steps[2]) == palette.muted
        }),
{
}

} // verus!
