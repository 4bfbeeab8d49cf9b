//! What holds of places, reports and requests, whatever the weather services answer.

use vstd::prelude::*;

use crate::config::within;
use crate::date::Date;
use crate::text::{is_control_char, option_view, trimmed};
use crate::weather::schedule::{
    answered, may_request, name_or_coordinates, pause_of, report_url, search_url, source_of,
    LocationView, SourceView, StateView,
};
use crate::weather::{
    condition_of, day_fields, days_after, encoded_byte, finite, first_bytes, forecast_of, hex_digit,
    location_read, not_negative, percent_encoded, place_name, place_of, place_path, printable,
    report_of, report_read, Condition, DayFields, LocationFields, ReportFields, ReportView,
    WeatherError,
};
use crate::json::{json_length, json_natural, json_number, json_text};

verus! {

/// The codes of the world's weather service: clear sky, clouds, fog, drizzle and rain, snow,
/// and thunder. No other code has a meaning.
pub proof fn law_codes_of_conditions(code: u64)
    ensures
        condition_of(Some(code)) == Condition::Clear <==> code == 0,
        condition_of(Some(code)) == Condition::PartlyCloudy <==> 1 <= code <= 2,
        condition_of(Some(code)) == Condition::Cloudy <==> code == 3,
        condition_of(Some(code)) == Condition::Fog <==> code == 45 || code == 48,
        condition_of(Some(code)) == Condition::Rain <==> 51 <= code <= 67 || 80 <= code <= 82,
        condition_of(Some(code)) == Condition::Snow <==> 71 <= code <= 77 || 85 <= code <= 86,
        condition_of(Some(code)) == Condition::Thunder <==> 95 <= code <= 99,
        condition_of(None) == Condition::Unknown,
{
}

/// Letters, digits and `-._~` stay in a query, and any other byte is written as `%` and its
/// two hexadecimal digits.
pub proof fn law_bytes_are_encoded(byte: u8)
    ensures
        encoded_byte(byte).len() == 1 || encoded_byte(byte).len() == 3,
        encoded_byte(byte).len() == 1 ==> encoded_byte(byte)[0] == byte as char,
        encoded_byte(byte).len() == 3 ==> {
            &&& encoded_byte(byte)[0] == '%'
            &&& encoded_byte(byte)[1] == hex_digit(byte as int / 16)
            &&& encoded_byte(byte)[2] == hex_digit(byte as int % 16)
        },
        encoded_byte(byte).len() == 1 <==> {
            ||| 'a' as int <= byte <= 'z' as int
            ||| 'A' as int <= byte <= 'Z' as int
            ||| '0' as int <= byte <= '9' as int
            ||| byte == '-' as int
            ||| byte == '.' as int
            ||| byte == '_' as int
            ||| byte == '~' as int
        },
{
}

/// The digits from 0 to 9 and from A to F stand for the numbers from 0 to 15.
pub proof fn law_hexadecimal_digits(value: int)
    requires
        0 <= value < 16,
    ensures
        value < 10 ==> hex_digit(value) as int == '0' as int + value,
        value >= 10 ==> hex_digit(value) as int == 'A' as int + (value - 10),
{
}

/// Bytes are encoded one after the other.
pub proof fn law_queries_are_encoded_byte_by_byte(left: Seq<u8>, right: Seq<u8>)
    ensures
        percent_encoded(left + right) == percent_encoded(left) + percent_encoded(right),
        percent_encoded(Seq::empty()).len() == 0,
    decreases right.len(),
{
    if right.len() == 0 {
        assert(left + right =~= left);
        assert(percent_encoded(left) + percent_encoded(right) =~= percent_encoded(left));
    } else {
        law_queries_are_encoded_byte_by_byte(left, right.drop_last());
        assert((left + right).drop_last() =~= left + right.drop_last());
        assert((left + right).last() == right.last());
        assert(percent_encoded(left + right) =~= percent_encoded(left) + percent_encoded(right));
    }
}

/// A place has the latitude and the longitude that were found, and no place is found
/// without both of them.
pub proof fn law_places_are_where_they_were_found(fields: LocationFields, auto: bool)
    ensures
        place_of(fields, auto) matches Ok(place) ==> {
            &&& fields.latitude == Some(place.latitude)
            &&& fields.longitude == Some(place.longitude)
            &&& place.name == place_name(option_view(fields.name))
            &&& auto ==> fields.success == Some(true)
            &&& !auto ==> fields.results is Some && fields.results->0 > 0
        },
        auto && fields.success != Some(true) ==> place_of(fields, auto) is Err && place_of(
            fields,
            auto,
        )->Err_0 == WeatherError::NotDetected,
        !auto && (fields.results is None || fields.results == Some(0usize)) ==> place_of(
            fields,
            auto,
        ) is Err && place_of(fields, auto)->Err_0 == WeatherError::NotFound,
{
}

/// The name of a place is at most 100 characters without control characters, and blanks
/// around it do not count.
pub proof fn law_names_are_printable(name: Seq<char>)
    ensures
        trimmed(name).len() == 0 ==> place_name(Some(name)) is None,
        trimmed(name).len() > 0 ==> {
            let shown = place_name(Some(name));
            &&& shown is Some
            &&& shown->0.len() <= 100
            &&& forall|i: int| 0 <= i < shown->0.len() ==> !is_control_char(#[trigger] shown->0[i])
        },
        trimmed(name).len() > 0 && trimmed(name).len() <= 100 && (forall|i: int|
            0 <= i < trimmed(name).len() ==> !is_control_char(#[trigger] trimmed(name)[i]))
            ==> place_name(Some(name)) == Some(trimmed(name)),
        place_name(None) is None,
{
    lemma_printable(trimmed(name), 100);
}

proof fn lemma_printable(text: Seq<char>, limit: int)
    requires
        0 <= limit,
    ensures
        printable(text, limit).len() <= limit,
        forall|i: int|
            0 <= i < printable(text, limit).len() ==> !is_control_char(
                #[trigger] printable(text, limit)[i],
            ),
        text.len() <= limit && (forall|i: int|
            0 <= i < text.len() ==> !is_control_char(#[trigger] text[i])) ==> printable(text, limit)
            == text,
    decreases text.len(),
{
    if text.len() > 0 && limit > 0 {
        let rest = text.skip(1);
        if is_control_char(text[0]) {
            lemma_printable(rest, limit);
        } else {
            lemma_printable(rest, limit - 1);
            if text.len() <= limit && (forall|i: int|
                0 <= i < text.len() ==> !is_control_char(#[trigger] text[i])) {
                assert forall|i: int| 0 <= i < rest.len() implies !is_control_char(
                    #[trigger] rest[i],
                ) by {
                    assert(rest[i] == text[i + 1]);
                }
                assert(seq![text[0]] + rest =~= text);
            }
        }
    } else if text.len() == 0 {
        assert(printable(text, limit) =~= text);
    }
}

/// Each figure of a report is the one that was read under its own name, or none where what
/// was read is no such figure. A place that rejects the request gives no report.
pub proof fn law_reports_tell_what_was_read(fields: ReportFields, location: Seq<char>)
    ensures
        report_of(fields, location) is Ok <==> fields.error != Some(true) && finite(
            fields.temperature,
        ) is Some && fields.today is Some,
        report_of(fields, location) matches Ok(report) ==> {
            &&& report.location == location
            &&& Some(report.temperature) == fields.temperature
            &&& report.feels is Some ==> report.feels == fields.feels
            &&& report.wind is Some ==> report.wind == fields.wind && not_negative(report.wind->0)
            &&& report.humidity is Some ==> report.humidity == fields.humidity && not_negative(
                report.humidity->0,
            ) && within(report.humidity->0, 0x4059_0000_0000_0000)
            &&& finite(fields.feels) is Some ==> report.feels is Some
            &&& finite(fields.wind) is Some && not_negative(fields.wind->0) ==> report.wind is Some
            &&& report.condition == condition_of(fields.code)
            &&& report.night <==> fields.is_day == Some(0u64)
        },
        fields.error == Some(true) ==> report_of(fields, location) is Err && report_of(
            fields,
            location,
        )->Err_0 == WeatherError::Rejected,
{
}

/// What the service calls temperature, felt temperature, wind and humidity is read as that.
pub proof fn law_figures_are_read_under_their_names(fields: ReportFields, document: Seq<u8>)
    requires
        report_read(fields, document),
    ensures
        fields.temperature == json_number(document, "/current/temperature_2m"@),
        fields.feels == json_number(document, "/current/apparent_temperature"@),
        fields.wind == json_number(document, "/current/wind_speed_10m"@),
        fields.humidity == json_number(document, "/current/relative_humidity_2m"@),
        fields.code == json_natural(document, "/current/weather_code"@),
        fields.is_day == json_natural(document, "/current/is_day"@),
        forall|i: int|
            0 <= i < fields.days@.len() ==> {
                let day = #[trigger] fields.days@[i];
                &&& day.high is Some ==> day.high == json_number(
                    document,
                    place_path("/daily/temperature_2m_max"@, i),
                )
                &&& day.low is Some ==> day.low == json_number(
                    document,
                    place_path("/daily/temperature_2m_min"@, i),
                )
                &&& day.code is Some ==> day.code == json_natural(
                    document,
                    place_path("/daily/weather_code"@, i),
                )
            },
{
    assert forall|i: int| 0 <= i < fields.days@.len() implies #[trigger] fields.days@[i]
        == day_fields(document, i) by {
    }
}

/// A detected place and a found city are read from the answers to those requests.
pub proof fn law_places_are_read_from_their_answer(
    fields: LocationFields,
    document: Seq<u8>,
    auto: bool,
)
    requires
        location_read(fields, document, auto),
    ensures
        auto ==> fields.latitude == json_number(document, "/latitude"@) && fields.longitude
            == json_number(document, "/longitude"@) && option_view(fields.name) == json_text(
            document,
            "/city"@,
        ),
        !auto ==> fields.latitude == json_number(document, "/results/0/latitude"@)
            && fields.longitude == json_number(document, "/results/0/longitude"@) && option_view(
            fields.name,
        ) == json_text(document, "/results/0/name"@) && fields.results == json_length(
            document,
            "/results"@,
        ),
{
}

/// A number counts unless it is infinite or none.
pub proof fn law_only_numbers_are_figures(bits: u64)
    ensures
        finite(Some(bits)) is Some ==> finite(Some(bits)) == Some(bits),
        finite(Some(bits)) is Some <==> bits % 0x8000_0000_0000_0000 < 0x7ff0_0000_0000_0000,
        finite(None) is None,
        not_negative(bits) <==> bits < 0x8000_0000_0000_0000 || bits == 0x8000_0000_0000_0000,
{
}

/// A day of a forecast is a day that was read, with its own temperatures and weather, in the
/// order in which the days were read.
pub proof fn law_forecasts_tell_what_was_read(days: Seq<DayFields>, today: Date, place: int)
    requires
        0 <= place < forecast_of(days, today).len(),
    ensures
        exists|i: int|
            0 <= i < days.len() && {
                let day = forecast_of(days, today)[place];
                &&& (#[trigger] days[i]).date == Some(day.date)
                &&& day.high == finite(days[i].high)
                &&& day.low == finite(days[i].low)
                &&& day.condition == condition_of(days[i].code)
            },
{
    lemma_days_after(days, today, days.len() as int, place);
}

proof fn lemma_days_after(days: Seq<DayFields>, today: Date, count: int, place: int)
    requires
        0 <= count <= days.len(),
        0 <= place < days_after(days, today, count).len(),
    ensures
        exists|i: int|
            0 <= i < count && {
                let day = days_after(days, today, count)[place];
                &&& (#[trigger] days[i]).date == Some(day.date)
                &&& day.high == finite(days[i].high)
                &&& day.low == finite(days[i].low)
                &&& day.condition == condition_of(days[i].code)
            },
    decreases count,
{
    if count > 0 {
        let before = days_after(days, today, count - 1);
        let all = days_after(days, today, count);
        if place < before.len() {
            lemma_days_after(days, today, count - 1, place);
            assert(all[place] == before[place]);
        } else {
            assert(days[count - 1].date == Some(all[place].date));
        }
    }
}

/// The first days to come are forecast, and today and the days before are not.
pub proof fn law_days_to_come_are_forecast(days: Seq<DayFields>, today: Date, day: DayFields)
    ensures
        ({
            let before = days_after(days, today, days.len() as int);
            let after = days_after(days.push(day), today, days.len() as int + 1);
            &&& day.date is None ==> after == before
            &&& day.date matches Some(date) ==> (if date.later(today) {
                after.len() == before.len() + 1 && after.last().date == date && after.last().high
                    == finite(day.high) && after.last().low == finite(day.low)
            } else {
                after == before
            })
        }),
        forecast_of(days, today).len() <= 3,
        days_after(days, today, days.len() as int).len() <= 3 ==> forecast_of(days, today)
            == days_after(days, today, days.len() as int),
{
    lemma_days_prefix(days, today, day, days.len() as int);
}

proof fn lemma_days_prefix(days: Seq<DayFields>, today: Date, day: DayFields, count: int)
    requires
        0 <= count <= days.len(),
    ensures
        days_after(days.push(day), today, count) == days_after(days, today, count),
    decreases count,
{
    if count > 0 {
        lemma_days_prefix(days, today, day, count - 1);
    }
}

/// Given coordinates are used as they are; without them a city is searched for once and
/// then kept, and without a city the place is detected each time.
pub proof fn law_sources_of_places(
    location: Seq<char>,
    coordinates: Option<(u64, u64)>,
    cached: Option<LocationView>,
    text: Seq<char>,
)
    ensures
        ({
            let source = source_of(location, coordinates, cached, text);
            &&& coordinates matches Some((latitude, longitude)) ==> source is Known
                && source->Known_0.latitude == latitude && source->Known_0.longitude == longitude
            &&& coordinates is Some && location.len() > 0 ==> source->Known_0.name == location
            &&& coordinates is Some && location.len() == 0 ==> source->Known_0.name == text
            &&& coordinates is None && location.len() == 0 ==> source is Detect
            &&& coordinates is None && location.len() > 0 && cached is None ==> source
                == SourceView::Search(search_url(location))
            &&& coordinates is None && location.len() > 0 ==> (cached matches Some(kept) ==> source
                == SourceView::Known(kept))
        }),
        name_or_coordinates(Seq::empty(), text) == text,
{
}

/// A request names the latitude before the longitude and ends with what is asked for; the
/// city of a search stands encoded in it.
pub proof fn law_requests_name_the_place(latitude: Seq<char>, longitude: Seq<char>, city: Seq<char>)
    ensures
        ({
            let url = report_url(latitude, longitude);
            let start = "https://api.open-meteo.com/v1/forecast?latitude="@;
            let middle = "&longitude="@;
            &&& url.take(start.len() as int) == start
            &&& url.subrange(start.len() as int, (start.len() + latitude.len()) as int) == latitude
            &&& url.subrange(
                (start.len() + latitude.len() + middle.len()) as int,
                (start.len() + latitude.len() + middle.len() + longitude.len()) as int,
            ) == longitude
        }),
        ({
            let url = search_url(city);
            let start = "https://geocoding-api.open-meteo.com/v1/search?name="@;
            let query = percent_encoded(vstd::utf8::encode_utf8(city));
            &&& url.take(start.len() as int) == start
            &&& url.subrange(start.len() as int, (start.len() + query.len()) as int) == query
        }),
{
    let url = report_url(latitude, longitude);
    let start = "https://api.open-meteo.com/v1/forecast?latitude="@;
    let middle = "&longitude="@;
    assert(url.take(start.len() as int) =~= start);
    assert(url.subrange(start.len() as int, (start.len() + latitude.len()) as int) =~= latitude);
    assert(url.subrange(
        (start.len() + latitude.len() + middle.len()) as int,
        (start.len() + latitude.len() + middle.len() + longitude.len()) as int,
    ) =~= longitude);
    let search = search_url(city);
    let first = "https://geocoding-api.open-meteo.com/v1/search?name="@;
    let query = percent_encoded(vstd::utf8::encode_utf8(city));
    assert(search.take(first.len() as int) =~= first);
    assert(search.subrange(first.len() as int, (first.len() + query.len()) as int) =~= query);
}

/// An answer replaces the report and clears the error; a failure keeps the report and tells
/// of itself.
pub proof fn law_answers_are_shown(state: StateView, report: ReportView, now: i64)
    ensures
        answered(state, Some(report), now).report == Some(report),
        answered(state, Some(report), now).error is None,
        answered(state, Some(report), now).updated_at == Some(now),
        answered(state, None, now).report == state.report,
        answered(state, None, now).updated_at == state.updated_at,
        answered(state, None, now).error is Some,
{
}

/// After a success the next request waits for the interval and after a failure for a
/// minute, counted from the last request.
pub proof fn law_pauses_count_from_the_request(interval: u128, last: u64, now: u64)
    requires
        last <= now,
    ensures
        pause_of(true, interval, Some(last), now) == (if now - last >= 60_000_000_000 {
            0
        } else {
            60_000_000_000 - (now - last)
        }),
        now - last <= interval ==> pause_of(false, interval, Some(last), now) + (now - last)
            == interval,
        now - last >= interval ==> pause_of(false, interval, Some(last), now) == 0,
        pause_of(false, interval, None, now) == interval,
        pause_of(true, interval, None, now) == 60_000_000_000,
        may_request(Some(last), now) <==> now - last >= 60_000_000_000,
        may_request(None, now),
{
}

/// The first bytes of a text are a beginning of it that is so long, encoded, and there are
/// none where a character stands across the end.
pub proof fn law_beginnings_are_counted_in_bytes(text: Seq<char>, count: int)
    requires
        0 <= count,
    ensures
        first_bytes(text, count) matches Some(start) ==> start.len() <= text.len() && text.take(
            start.len() as int,
        ) == start && crate::text::byte_length(start) == count,
        first_bytes(text, 0) == Some(Seq::<char>::empty()),
    decreases text.len(),
{
    if count > 0 && text.len() > 0 && crate::text::utf8_length(text[0]) <= count {
        let rest = text.skip(1);
        law_beginnings_are_counted_in_bytes(rest, count - crate::text::utf8_length(text[0]));
        if let Some(start) = first_bytes(text, count) {
            let tail = first_bytes(rest, count - crate::text::utf8_length(text[0]))->0;
            assert(start =~= seq![text[0]] + tail);
            assert(text.take(start.len() as int) =~= seq![text[0]] + rest.take(tail.len() as int));
            lemma_byte_length_of_head(text[0], tail);
        }
    } else {
        assert(text.take(0) =~= Seq::<char>::empty());
    }
}

proof fn lemma_byte_length_of_head(head: char, tail: Seq<char>)
    ensures
        crate::text::byte_length(seq![head] + tail) == crate::text::utf8_length(head)
            + crate::text::byte_length(tail),
    decreases tail.len(),
{
    let text = seq![head] + tail;
    if tail.len() > 0 {
        lemma_byte_length_of_head(head, tail.drop_last());
        assert(text.drop_last() =~= seq![head] + tail.drop_last());
        assert(text.last() == tail.last());
    } else {
        assert(text.drop_last() =~= Seq::<char>::empty());
        reveal_with_fuel(crate::text::byte_length, 2);
    }
}

} // verus!
