//! The weather and its forecast.
//!
//! Temperatures, speeds and coordinates are held as the bits of
//! double-precision numbers.

pub mod laws;
pub mod schedule;

use vstd::prelude::*;
use vstd::slice::slice_subrange;
use vstd::utf8::encode_utf8;

use crate::config::{
    is_within, within, DOUBLE_SIGN, MAXIMUM_LATITUDE, MAXIMUM_LONGITUDE,
};
use crate::date::{date_of, date_of_text, parse_date, Date};
use crate::json::{
    flag_at, is_json, json_flag, json_length, json_natural, json_number, json_text, length_at,
    natural_at, number_at, text_at, valid_json,
};
use crate::network::worker::DOUBLE_INFINITY;
use crate::text::{
    chars_of, decimal, encoded_length, is_control, is_control_char, option_view, push_decimal,
    string_of, trim, trimmed, utf8_length,
};

verus! {

#[derive(Clone, Copy, Debug, PartialEq, Eq, Structural)]
pub enum Condition {
    Unknown,
    Clear,
    PartlyCloudy,
    Cloudy,
    Fog,
    Rain,
    Snow,
    Thunder,
}

impl Default for Condition {
    fn default() -> (result: Self)
        ensures
            result == Condition::Unknown,
    {
        Condition::Unknown
    }
}

/// The condition that a code of the World Meteorological Organization stands for.
pub open spec fn condition_of(code: Option<u64>) -> Condition {
    match code {
        None => Condition::Unknown,
        Some(code) => if code == 0 {
            Condition::Clear
        } else if code == 1 || code == 2 {
            Condition::PartlyCloudy
        } else if code == 3 {
            Condition::Cloudy
        } else if code == 45 || code == 48 {
            Condition::Fog
        } else if 51 <= code <= 67 || 80 <= code <= 82 {
            Condition::Rain
        } else if 71 <= code <= 77 || code == 85 || code == 86 {
            Condition::Snow
        } else if 95 <= code <= 99 {
            Condition::Thunder
        } else {
            Condition::Unknown
        },
    }
}

impl Condition {
    pub fn from_code(code: Option<u64>) -> (result: Self)
        ensures
            result == condition_of(code),
    {
        match code {
            Some(0) => Condition::Clear,
            Some(1 | 2) => Condition::PartlyCloudy,
            Some(3) => Condition::Cloudy,
            Some(45 | 48) => Condition::Fog,
            Some(51..=67 | 80..=82) => Condition::Rain,
            Some(71..=77 | 85 | 86) => Condition::Snow,
            Some(95..=99) => Condition::Thunder,
            _ => Condition::Unknown,
        }
    }
}

/// A character that needs no encoding in a query.
pub open spec fn is_unreserved(byte: u8) -> bool {
    48 <= byte <= 57 || 65 <= byte <= 90 || 97 <= byte <= 122 || byte == 45 || byte == 46 || byte
        == 95 || byte == 126
}

/// An uppercase hexadecimal digit.
pub open spec fn hex_digit(value: int) -> char {
    if value < 10 {
        (48 + value) as char
    } else {
        (55 + value) as char
    }
}

/// A byte as it stands in a query.
pub open spec fn encoded_byte(byte: u8) -> Seq<char> {
    if is_unreserved(byte) {
        seq![byte as char]
    } else {
        seq!['%', hex_digit(byte as int / 16), hex_digit(byte as int % 16)]
    }
}

/// Bytes as they stand in a query.
pub open spec fn percent_encoded(bytes: Seq<u8>) -> Seq<char>
    decreases bytes.len(),
{
    if bytes.len() == 0 {
        Seq::empty()
    } else {
        percent_encoded(bytes.drop_last()) + encoded_byte(bytes.last())
    }
}

fn digit_char(value: u8) -> (result: char)
    requires
        value < 16,
    ensures
        result == hex_digit(value as int),
{
    if value < 10 {
        (48 + value) as char
    } else {
        (55 + value) as char
    }
}

/// A text as it stands in a query: its bytes in UTF-8, those that are neither
/// letters, digits nor one of `-._~` by their hexadecimal numbers.
pub fn encode(value: &str) -> (result: String)
    ensures
        result@ == percent_encoded(encode_utf8(value@)),
{
    let bytes = value.as_bytes();
    let mut text = String::new();
    let mut i: usize = 0;
    assert(bytes@.take(0) =~= Seq::empty());
    assert(text@ =~= Seq::<char>::empty());
    while i < bytes.len()
        invariant
            i <= bytes@.len(),
            text@ == percent_encoded(bytes@.take(i as int)),
        decreases bytes@.len() - i,
    {
        let byte = bytes[i];
        let ghost before = text@;
        if (48 <= byte && byte <= 57) || (65 <= byte && byte <= 90) || (97 <= byte && byte <= 122)
            || byte == 45 || byte == 46 || byte == 95 || byte == 126 {
            text.push(byte as char);
        } else {
            text.push('%');
            text.push(digit_char(byte / 16));
            text.push(digit_char(byte % 16));
        }
        assert(text@ =~= before + encoded_byte(byte));
        assert(bytes@.take(i + 1).drop_last() =~= bytes@.take(i as int));
        i += 1;
    }
    assert(bytes@.take(i as int) =~= bytes@);
    text
}

/// A query holds nothing that could end it or separate its parts.
pub proof fn law_encoded_queries_hold_no_separators(bytes: Seq<u8>)
    ensures
        forall|i: int|
            0 <= i < percent_encoded(bytes).len() ==> {
                let c = #[trigger] percent_encoded(bytes)[i];
                c == '%' || ((c as u32) < 128 && is_unreserved(c as u8))
            },
    decreases bytes.len(),
{
    if bytes.len() > 0 {
        law_encoded_queries_hold_no_separators(bytes.drop_last());
        let last = encoded_byte(bytes.last());
        assert forall|i: int| 0 <= i < percent_encoded(bytes).len() implies {
            let c = #[trigger] percent_encoded(bytes)[i];
            c == '%' || ((c as u32) < 128 && is_unreserved(c as u8))
        } by {
            let split = percent_encoded(bytes.drop_last()).len();
            if i < split {
                assert(percent_encoded(bytes)[i] == percent_encoded(bytes.drop_last())[i]);
            } else {
                assert(percent_encoded(bytes)[i] == last[i - split]);
            }
        }
    }
}

/// The bits of the double-precision number 100.
pub const HUNDRED: u64 = 0x4059_0000_0000_0000;

/// A number, if it is finite.
pub open spec fn finite(bits: Option<u64>) -> Option<u64> {
    match bits {
        Some(bits) => if within(bits, (DOUBLE_INFINITY - 1) as u64) {
            Some(bits)
        } else {
            None
        },
        None => None,
    }
}

fn finite_number(bits: Option<u64>) -> (result: Option<u64>)
    ensures
        result == finite(bits),
{
    match bits {
        Some(bits) => if is_within(bits, DOUBLE_INFINITY - 1) {
            Some(bits)
        } else {
            None
        },
        None => None,
    }
}

/// Whether a number is not below zero; the zero with a sign is not.
pub open spec fn not_negative(bits: u64) -> bool {
    bits <= DOUBLE_SIGN
}

/// The longest answer that is read, in bytes.
pub const MAX_RESPONSE: usize = 262144;

/// Why there is no weather.
#[derive(Clone, Copy, Debug, PartialEq, Eq, Structural)]
pub enum WeatherError {
    TooLarge,
    InvalidJson,
    NotDetected,
    NotFound,
    NoLatitude,
    NoLongitude,
    InvalidCoordinates,
    Rejected,
    NoTemperature,
    NoDate,
}

impl WeatherError {
    /// The error as a text.
    pub open spec fn text(self) -> Seq<char> {
        match self {
            WeatherError::TooLarge => "weather response is too large"@,
            WeatherError::InvalidJson => "invalid weather JSON"@,
            WeatherError::NotDetected => "automatic location unavailable"@,
            WeatherError::NotFound => "city not found; try coordinates"@,
            WeatherError::NoLatitude => "location has no latitude"@,
            WeatherError::NoLongitude => "location has no longitude"@,
            WeatherError::InvalidCoordinates => "invalid location coordinates"@,
            WeatherError::Rejected => "weather service rejected request"@,
            WeatherError::NoTemperature => "current temperature unavailable"@,
            WeatherError::NoDate => "weather date unavailable"@,
        }
    }

    pub fn message(self) -> (result: String)
        ensures
            result@ == self.text(),
    {
        match self {
            WeatherError::TooLarge => "weather response is too large".to_owned(),
            WeatherError::InvalidJson => "invalid weather JSON".to_owned(),
            WeatherError::NotDetected => "automatic location unavailable".to_owned(),
            WeatherError::NotFound => "city not found; try coordinates".to_owned(),
            WeatherError::NoLatitude => "location has no latitude".to_owned(),
            WeatherError::NoLongitude => "location has no longitude".to_owned(),
            WeatherError::InvalidCoordinates => "invalid location coordinates".to_owned(),
            WeatherError::Rejected => "weather service rejected request".to_owned(),
            WeatherError::NoTemperature => "current temperature unavailable".to_owned(),
            WeatherError::NoDate => "weather date unavailable".to_owned(),
        }
    }
}

/// What a document says about a location.
#[derive(Debug)]
pub struct LocationFields {
    /// Whether the location was detected.
    pub success: Option<bool>,
    /// The number of cities found.
    pub results: Option<usize>,
    pub latitude: Option<u64>,
    pub longitude: Option<u64>,
    pub name: Option<String>,
}

/// A place; one without a name goes by its coordinates.
#[derive(Debug)]
pub struct Place {
    pub name: Option<String>,
    pub latitude: u64,
    pub longitude: u64,
}

/// The view of a place.
pub ghost struct PlaceView {
    pub name: Option<Seq<char>>,
    pub latitude: u64,
    pub longitude: u64,
}

impl View for Place {
    type V = PlaceView;

    open spec fn view(&self) -> PlaceView {
        PlaceView {
            name: option_view(self.name),
            latitude: self.latitude,
            longitude: self.longitude,
        }
    }
}

/// The first characters of a text that are no control characters, at most `limit`.
pub open spec fn printable(text: Seq<char>, limit: int) -> Seq<char>
    decreases text.len(),
{
    if text.len() == 0 || limit <= 0 {
        Seq::empty()
    } else if is_control_char(text[0]) {
        printable(text.skip(1), limit)
    } else {
        seq![text[0]] + printable(text.skip(1), limit - 1)
    }
}

fn printable_text(characters: &[char], limit: usize) -> (result: String)
    ensures
        result@ == printable(characters@, limit as int),
{
    let total: usize = characters.len();
    let mut text = String::new();
    let mut left: usize = limit;
    let mut i: usize = 0;
    assert(characters@.skip(0) =~= characters@);
    assert(text@ =~= Seq::<char>::empty());
    assert(text@ + printable(characters@, limit as int) =~= printable(characters@, limit as int));
    while i < total && left > 0
        invariant
            i <= total,
            total == characters@.len(),
            left <= limit,
            text@ + printable(characters@.skip(i as int), left as int) == printable(
                characters@,
                limit as int,
            ),
        decreases total - i,
    {
        let ghost rest = characters@.skip(i as int);
        assert(rest.skip(1) =~= characters@.skip(i + 1));
        assert(rest[0] == characters@[i as int]);
        let character = characters[i];
        if !is_control(character) {
            let ghost before = text@;
            text.push(character);
            left -= 1;
            assert(text@ + printable(rest.skip(1), left as int) =~= before + (seq![character]
                + printable(rest.skip(1), left as int)));
        }
        i += 1;
    }
    assert(printable(characters@.skip(i as int), left as int) =~= Seq::<char>::empty());
    assert(text@ =~= printable(characters@, limit as int));
    text
}

/// The name of a place: without control characters, at most a hundred, and
/// nothing where the text is blank.
pub open spec fn place_name(name: Option<Seq<char>>) -> Option<Seq<char>> {
    match name {
        Some(name) => if trimmed(name).len() == 0 {
            None
        } else {
            Some(printable(trimmed(name), 100))
        },
        None => None,
    }
}

/// The place that a document tells of.
pub open spec fn place_of(fields: LocationFields, auto: bool) -> Result<PlaceView, WeatherError> {
    let latitude = finite(fields.latitude);
    let longitude = finite(fields.longitude);
    if auto && fields.success != Some(true) {
        Err(WeatherError::NotDetected)
    } else if !auto && !(fields.results matches Some(count) && count > 0) {
        Err(WeatherError::NotFound)
    } else if latitude is None {
        Err(WeatherError::NoLatitude)
    } else if longitude is None {
        Err(WeatherError::NoLongitude)
    } else if !within(latitude->0, MAXIMUM_LATITUDE) || !within(longitude->0, MAXIMUM_LONGITUDE) {
        Err(WeatherError::InvalidCoordinates)
    } else {
        Ok(
            PlaceView {
                name: place_name(option_view(fields.name)),
                latitude: latitude->0,
                longitude: longitude->0,
            },
        )
    }
}

/// The place that the fields of a document tell of.
pub fn locate(fields: &LocationFields, auto: bool) -> (result: Result<Place, WeatherError>)
    ensures
        match result {
            Ok(place) => place_of(*fields, auto) == Ok::<PlaceView, WeatherError>(place@),
            Err(error) => place_of(*fields, auto) == Err::<PlaceView, WeatherError>(error),
        },
{
    if auto {
        let detected = match fields.success {
            Some(success) => success,
            None => false,
        };
        if !detected {
            return Err(WeatherError::NotDetected);
        }
    } else {
        let found = match fields.results {
            Some(count) => count > 0,
            None => false,
        };
        if !found {
            return Err(WeatherError::NotFound);
        }
    }
    let latitude = match finite_number(fields.latitude) {
        Some(latitude) => latitude,
        None => return Err(WeatherError::NoLatitude),
    };
    let longitude = match finite_number(fields.longitude) {
        Some(longitude) => longitude,
        None => return Err(WeatherError::NoLongitude),
    };
    if !is_within(latitude, MAXIMUM_LATITUDE) || !is_within(longitude, MAXIMUM_LONGITUDE) {
        return Err(WeatherError::InvalidCoordinates);
    }
    let name = match &fields.name {
        Some(name) => {
            let characters = chars_of(name.as_str());
            let bare = trim(characters.as_slice());
            if bare.len() == 0 {
                None
            } else {
                Some(printable_text(bare, 100))
            }
        },
        None => None,
    };
    Ok(Place { name, latitude, longitude })
}

/// Whether fields are what a document says about a location.
pub open spec fn location_read(fields: LocationFields, document: Seq<u8>, auto: bool) -> bool {
    if auto {
        &&& fields.success == json_flag(document, "/success"@)
        &&& fields.results is None
        &&& fields.latitude == json_number(document, "/latitude"@)
        &&& fields.longitude == json_number(document, "/longitude"@)
        &&& option_view(fields.name) == json_text(document, "/city"@)
    } else {
        &&& fields.success is None
        &&& fields.results == json_length(document, "/results"@)
        &&& fields.latitude == json_number(document, "/results/0/latitude"@)
        &&& fields.longitude == json_number(document, "/results/0/longitude"@)
        &&& option_view(fields.name) == json_text(document, "/results/0/name"@)
    }
}

fn read_location(document: &Vec<u8>, auto: bool) -> (result: LocationFields)
    ensures
        location_read(result, document@, auto),
{
    if auto {
        LocationFields {
            success: flag_at(document, "/success"),
            results: None,
            latitude: number_at(document, "/latitude"),
            longitude: number_at(document, "/longitude"),
            name: text_at(document, "/city"),
        }
    } else {
        LocationFields {
            success: None,
            results: length_at(document, "/results"),
            latitude: number_at(document, "/results/0/latitude"),
            longitude: number_at(document, "/results/0/longitude"),
            name: text_at(document, "/results/0/name"),
        }
    }
}

/// Reads the answer to the question for a location: of an address if `auto`,
/// else of a city.
pub fn parse_location(document: &Vec<u8>, auto: bool) -> (result: Result<Place, WeatherError>)
    ensures
        document@.len() > MAX_RESPONSE ==> result == Err::<Place, WeatherError>(
            WeatherError::TooLarge,
        ),
        document@.len() <= MAX_RESPONSE && !is_json(document@) ==> result == Err::<
            Place,
            WeatherError,
        >(WeatherError::InvalidJson),
        document@.len() <= MAX_RESPONSE && is_json(document@) ==> exists|fields: LocationFields| #[trigger]
            location_read(fields, document@, auto) && match result {
                Ok(place) => place_of(fields, auto) == Ok::<PlaceView, WeatherError>(place@),
                Err(error) => place_of(fields, auto) == Err::<PlaceView, WeatherError>(error),
            },
{
    if document.len() > MAX_RESPONSE {
        return Err(WeatherError::TooLarge);
    }
    if !valid_json(document) {
        return Err(WeatherError::InvalidJson);
    }
    let fields = read_location(document, auto);
    locate(&fields, auto)
}

/// A place that was found lies on the globe.
pub proof fn law_places_are_on_the_globe(fields: LocationFields, auto: bool)
    ensures
        place_of(fields, auto) matches Ok(place) ==> within(place.latitude, MAXIMUM_LATITUDE)
            && within(place.longitude, MAXIMUM_LONGITUDE),
{
}

/// The first bytes of a text, if a character ends there.
pub open spec fn first_bytes(text: Seq<char>, count: int) -> Option<Seq<char>>
    decreases text.len(),
{
    if count == 0 {
        Some(Seq::empty())
    } else if text.len() == 0 || utf8_length(text[0]) > count {
        None
    } else {
        match first_bytes(text.skip(1), count - utf8_length(text[0])) {
            Some(rest) => Some(seq![text[0]] + rest),
            None => None,
        }
    }
}

fn take_bytes(characters: &[char], count: usize) -> (result: Option<String>)
    ensures
        option_view(result) == first_bytes(characters@, count as int),
{
    let total: usize = characters.len();
    let mut left: usize = count;
    let mut i: usize = 0;
    let ghost whole = first_bytes(characters@, count as int);
    assert(characters@.skip(0) =~= characters@);
    proof {
        if whole is Some {
            assert(characters@.take(0) + whole->0 =~= whole->0);
        }
    }
    while left > 0
        invariant
            i <= total,
            total == characters@.len(),
            whole == first_bytes(characters@, count as int),
            match first_bytes(characters@.skip(i as int), left as int) {
                Some(rest) => whole == Some(characters@.take(i as int) + rest),
                None => whole is None,
            },
        decreases left,
    {
        if i == total {
            return None;
        }
        let ghost rest = characters@.skip(i as int);
        assert(rest.skip(1) =~= characters@.skip(i + 1));
        assert(rest[0] == characters@[i as int]);
        let length: usize = encoded_length(characters[i]);
        if length > left {
            return None;
        }
        proof {
            if let Some(tail) = first_bytes(rest.skip(1), left - length) {
                assert(characters@.take(i as int) + (seq![rest[0]] + tail) =~= characters@.take(
                    i + 1,
                ) + tail);
            }
        }
        left -= length;
        i += 1;
    }
    let start = slice_subrange(characters, 0, i);
    assert(start@ =~= characters@.take(i as int) + Seq::<char>::empty());
    Some(string_of(start))
}

/// What a document says about a day.
#[derive(Clone, Copy, Debug, PartialEq, Eq, Structural)]
pub struct DayFields {
    pub date: Option<Date>,
    pub high: Option<u64>,
    pub low: Option<u64>,
    pub code: Option<u64>,
}

/// What a document says about the weather.
#[derive(Debug)]
pub struct ReportFields {
    pub error: Option<bool>,
    pub today: Option<Date>,
    pub temperature: Option<u64>,
    pub feels: Option<u64>,
    pub wind: Option<u64>,
    pub humidity: Option<u64>,
    pub code: Option<u64>,
    pub is_day: Option<u64>,
    pub days: Vec<DayFields>,
}

/// The weather of a day to come.
#[derive(Clone, Copy, Debug, PartialEq, Eq, Structural)]
pub struct WeatherDay {
    pub date: Date,
    pub high: Option<u64>,
    pub low: Option<u64>,
    pub condition: Condition,
}

/// The weather now and in the days to come.
#[derive(Debug)]
pub struct WeatherReport {
    pub location: String,
    pub temperature: u64,
    pub feels: Option<u64>,
    pub wind: Option<u64>,
    pub humidity: Option<u64>,
    pub condition: Condition,
    pub night: bool,
    pub days: Vec<WeatherDay>,
}

/// The view of a report.
pub ghost struct ReportView {
    pub location: Seq<char>,
    pub temperature: u64,
    pub feels: Option<u64>,
    pub wind: Option<u64>,
    pub humidity: Option<u64>,
    pub condition: Condition,
    pub night: bool,
    pub days: Seq<WeatherDay>,
}

impl View for WeatherReport {
    type V = ReportView;

    open spec fn view(&self) -> ReportView {
        ReportView {
            location: self.location@,
            temperature: self.temperature,
            feels: self.feels,
            wind: self.wind,
            humidity: self.humidity,
            condition: self.condition,
            night: self.night,
            days: self.days@,
        }
    }
}

impl WeatherReport {
    /// Whether the days are days of the calendar.
    pub open spec fn wf(&self) -> bool {
        forall|i: int| 0 <= i < self.days@.len() ==> (#[trigger] self.days@[i]).date.wf()
    }
}

/// Whether the days that a document tells of are days of the calendar.
pub open spec fn real_days(days: Seq<DayFields>) -> bool {
    forall|i: int|
        0 <= i < days.len() ==> ((#[trigger] days[i]).date matches Some(date) ==> date.wf())
}

/// The days to come among the first `count`.
pub open spec fn days_after(days: Seq<DayFields>, today: Date, count: int) -> Seq<WeatherDay>
    decreases count,
{
    if count <= 0 {
        Seq::empty()
    } else {
        let before = days_after(days, today, count - 1);
        let day = days[count - 1];
        match day.date {
            Some(date) => if date.later(today) {
                before.push(
                    WeatherDay {
                        date,
                        high: finite(day.high),
                        low: finite(day.low),
                        condition: condition_of(day.code),
                    },
                )
            } else {
                before
            },
            None => before,
        }
    }
}

/// The first three days to come.
pub open spec fn forecast_of(days: Seq<DayFields>, today: Date) -> Seq<WeatherDay> {
    let all = days_after(days, today, days.len() as int);
    if all.len() > 3 {
        all.take(3)
    } else {
        all
    }
}

/// The weather that fields tell of.
pub open spec fn report_of(fields: ReportFields, location: Seq<char>) -> Result<
    ReportView,
    WeatherError,
> {
    if fields.error == Some(true) {
        Err(WeatherError::Rejected)
    } else if finite(fields.temperature) is None {
        Err(WeatherError::NoTemperature)
    } else if fields.today is None {
        Err(WeatherError::NoDate)
    } else {
        Ok(
            ReportView {
                location,
                temperature: finite(fields.temperature)->0,
                feels: finite(fields.feels),
                wind: match finite(fields.wind) {
                    Some(wind) => if not_negative(wind) {
                        Some(wind)
                    } else {
                        None
                    },
                    None => None,
                },
                humidity: match finite(fields.humidity) {
                    Some(share) => if not_negative(share) && within(share, HUNDRED) {
                        Some(share)
                    } else {
                        None
                    },
                    None => None,
                },
                condition: condition_of(fields.code),
                night: fields.is_day == Some(0u64),
                days: forecast_of(fields.days@, fields.today->0),
            },
        )
    }
}

proof fn lemma_days_after_grow(days: Seq<DayFields>, today: Date, early: int, late: int)
    requires
        0 <= early <= late,
    ensures
        days_after(days, today, early).len() <= days_after(days, today, late).len(),
        days_after(days, today, late).take(days_after(days, today, early).len() as int)
            == days_after(days, today, early),
    decreases late,
{
    let head = days_after(days, today, early);
    if early < late {
        lemma_days_after_grow(days, today, early, late - 1);
        let before = days_after(days, today, late - 1);
        let after = days_after(days, today, late);
        assert(after.take(head.len() as int) =~= before.take(head.len() as int));
    } else {
        assert(head.take(head.len() as int) =~= head);
    }
}

fn forecast(days: &Vec<DayFields>, today: Date) -> (result: Vec<WeatherDay>)
    ensures
        result@ == forecast_of(days@, today),
        real_days(days@) ==> forall|i: int|
            0 <= i < result@.len() ==> (#[trigger] result@[i]).date.wf(),
{
    let mut kept: Vec<WeatherDay> = Vec::new();
    let mut i: usize = 0;
    while i < days.len() && kept.len() < 3
        invariant
            i <= days@.len(),
            kept@.len() <= 3,
            kept@ == days_after(days@, today, i as int),
            real_days(days@) ==> forall|k: int|
                0 <= k < kept@.len() ==> (#[trigger] kept@[k]).date.wf(),
        decreases days@.len() - i,
    {
        let day = days[i];
        if let Some(date) = day.date {
            if date.is_later(today) {
                kept.push(
                    WeatherDay {
                        date,
                        high: finite_number(day.high),
                        low: finite_number(day.low),
                        condition: Condition::from_code(day.code),
                    },
                );
            }
        }
        i += 1;
    }
    proof {
        lemma_days_after_grow(days@, today, i as int, days@.len() as int);
        let all = days_after(days@, today, days@.len() as int);
        assert(all.take(all.len() as int) =~= all);
    }
    kept
}

/// The weather that the fields of a document tell of.
pub fn weather_of(fields: &ReportFields, location: String) -> (result: Result<
    WeatherReport,
    WeatherError,
>)
    ensures
        match result {
            Ok(report) => report_of(*fields, location@) == Ok::<ReportView, WeatherError>(
                report@,
            ) && (real_days(fields.days@) ==> report.wf()),
            Err(error) => report_of(*fields, location@) == Err::<ReportView, WeatherError>(error),
        },
{
    let rejected = match fields.error {
        Some(error) => error,
        None => false,
    };
    if rejected {
        return Err(WeatherError::Rejected);
    }
    let temperature = match finite_number(fields.temperature) {
        Some(temperature) => temperature,
        None => return Err(WeatherError::NoTemperature),
    };
    let today = match fields.today {
        Some(today) => today,
        None => return Err(WeatherError::NoDate),
    };
    let wind = match finite_number(fields.wind) {
        Some(wind) => if wind <= DOUBLE_SIGN {
            Some(wind)
        } else {
            None
        },
        None => None,
    };
    let humidity = match finite_number(fields.humidity) {
        Some(share) => if share <= DOUBLE_SIGN && is_within(share, HUNDRED) {
            Some(share)
        } else {
            None
        },
        None => None,
    };
    let night = match fields.is_day {
        Some(day) => day == 0,
        None => false,
    };
    Ok(
        WeatherReport {
            location,
            temperature,
            feels: finite_number(fields.feels),
            wind,
            humidity,
            condition: Condition::from_code(fields.code),
            night,
            days: forecast(&fields.days, today),
        },
    )
}

/// A forecast has at most three days, all of them after today.
pub proof fn law_forecasts_lie_ahead(days: Seq<DayFields>, today: Date, i: int)
    requires
        0 <= i < forecast_of(days, today).len(),
    ensures
        forecast_of(days, today).len() <= 3,
        forecast_of(days, today)[i].date.later(today),
{
    lemma_days_lie_ahead(days, today, days.len() as int, i);
}

proof fn lemma_days_lie_ahead(days: Seq<DayFields>, today: Date, count: int, i: int)
    requires
        0 <= i < days_after(days, today, count).len(),
    ensures
        days_after(days, today, count)[i].date.later(today),
    decreases count,
{
    if count > 0 {
        if i < days_after(days, today, count - 1).len() {
            lemma_days_lie_ahead(days, today, count - 1, i);
        }
    }
}

/// The date that a text stands for.
pub open spec fn date_in(text: Option<Seq<char>>) -> Option<Date> {
    match text {
        Some(text) => match date_of_text(text) {
            Some(parts) => Some(date_of(parts)),
            None => None,
        },
        None => None,
    }
}

/// The date at the start of a text.
pub open spec fn leading_date(text: Option<Seq<char>>) -> Option<Date> {
    match text {
        Some(text) => date_in(first_bytes(text, 10)),
        None => None,
    }
}

fn read_date(text: Option<String>) -> (result: Option<Date>)
    ensures
        result == date_in(option_view(text)),
        result matches Some(date) ==> date.wf(),
{
    match text {
        Some(text) => parse_date(text.as_str()),
        None => None,
    }
}

fn read_leading_date(text: Option<String>) -> (result: Option<Date>)
    ensures
        result == leading_date(option_view(text)),
{
    match text {
        Some(text) => {
            let characters = chars_of(text.as_str());
            read_date(take_bytes(characters.as_slice(), 10))
        },
        None => None,
    }
}

/// The path of a place in an array.
pub open spec fn place_path(array: Seq<char>, index: int) -> Seq<char> {
    array + "/"@ + decimal(index as nat)
}

fn path_to(array: &str, index: usize) -> (result: String)
    ensures
        result@ == place_path(array@, index as int),
{
    let mut path = array.to_owned();
    path.append("/");
    push_decimal(&mut path, index as u64);
    path
}

/// Whether an array has a place.
pub open spec fn has_place(document: Seq<u8>, array: Seq<char>, index: int) -> bool {
    json_length(document, array) matches Some(length) && index < length
}

fn array_has(document: &Vec<u8>, array: &str, index: usize) -> (result: bool)
    ensures
        result == has_place(document@, array@, index as int),
{
    match length_at(document, array) {
        Some(length) => index < length,
        None => false,
    }
}

/// The number at a place of an array.
pub open spec fn number_in(document: Seq<u8>, array: Seq<char>, index: int) -> Option<u64> {
    if has_place(document, array, index) {
        json_number(document, place_path(array, index))
    } else {
        None
    }
}

/// What a document says about one of its days.
pub open spec fn day_fields(document: Seq<u8>, index: int) -> DayFields {
    DayFields {
        date: date_in(json_text(document, place_path("/daily/time"@, index))),
        high: number_in(document, "/daily/temperature_2m_max"@, index),
        low: number_in(document, "/daily/temperature_2m_min"@, index),
        code: if has_place(document, "/daily/weather_code"@, index) {
            json_natural(document, place_path("/daily/weather_code"@, index))
        } else {
            None
        },
    }
}

fn read_number(document: &Vec<u8>, array: &str, index: usize) -> (result: Option<u64>)
    ensures
        result == number_in(document@, array@, index as int),
{
    if array_has(document, array, index) {
        let path = path_to(array, index);
        number_at(document, path.as_str())
    } else {
        None
    }
}

fn read_day(document: &Vec<u8>, index: usize) -> (result: DayFields)
    ensures
        result == day_fields(document@, index as int),
        result.date matches Some(date) ==> date.wf(),
{
    let date_path = path_to("/daily/time", index);
    let code = if array_has(document, "/daily/weather_code", index) {
        let path = path_to("/daily/weather_code", index);
        natural_at(document, path.as_str())
    } else {
        None
    };
    DayFields {
        date: read_date(text_at(document, date_path.as_str())),
        high: read_number(document, "/daily/temperature_2m_max", index),
        low: read_number(document, "/daily/temperature_2m_min", index),
        code,
    }
}

/// Whether fields are what a document says about the weather.
pub open spec fn report_read(fields: ReportFields, document: Seq<u8>) -> bool {
    &&& fields.error == json_flag(document, "/error"@)
    &&& fields.today == leading_date(json_text(document, "/current/time"@))
    &&& fields.temperature == json_number(document, "/current/temperature_2m"@)
    &&& fields.feels == json_number(document, "/current/apparent_temperature"@)
    &&& fields.wind == json_number(document, "/current/wind_speed_10m"@)
    &&& fields.humidity == json_number(document, "/current/relative_humidity_2m"@)
    &&& fields.code == json_natural(document, "/current/weather_code"@)
    &&& fields.is_day == json_natural(document, "/current/is_day"@)
    &&& fields.days@ == Seq::new(
        (match json_length(document, "/daily/time"@) {
            Some(length) => length as nat,
            None => 0nat,
        }),
        |i: int| day_fields(document, i),
    )
}

fn read_report(document: &Vec<u8>) -> (result: ReportFields)
    ensures
        report_read(result, document@),
        real_days(result.days@),
{
    let total: usize = match length_at(document, "/daily/time") {
        Some(length) => length,
        None => 0,
    };
    let mut days: Vec<DayFields> = Vec::new();
    let mut i: usize = 0;
    while i < total
        invariant
            i <= total,
            days@ == Seq::new(i as nat, |k: int| day_fields(document@, k)),
            real_days(days@),
        decreases total - i,
    {
        days.push(read_day(document, i));
        assert(days@ =~= Seq::new((i + 1) as nat, |k: int| day_fields(document@, k)));
        i += 1;
    }
    ReportFields {
        error: flag_at(document, "/error"),
        today: read_leading_date(text_at(document, "/current/time")),
        temperature: number_at(document, "/current/temperature_2m"),
        feels: number_at(document, "/current/apparent_temperature"),
        wind: number_at(document, "/current/wind_speed_10m"),
        humidity: number_at(document, "/current/relative_humidity_2m"),
        code: natural_at(document, "/current/weather_code"),
        is_day: natural_at(document, "/current/is_day"),
        days,
    }
}

/// Reads the answer to the question for the weather at a location.
pub fn parse_report(document: &Vec<u8>, location: String) -> (result: Result<
    WeatherReport,
    WeatherError,
>)
    ensures
        result matches Ok(report) ==> report.wf(),
        document@.len() > MAX_RESPONSE ==> result == Err::<WeatherReport, WeatherError>(
            WeatherError::TooLarge,
        ),
        document@.len() <= MAX_RESPONSE && !is_json(document@) ==> result == Err::<
            WeatherReport,
            WeatherError,
        >(WeatherError::InvalidJson),
        document@.len() <= MAX_RESPONSE && is_json(document@) ==> exists|fields: ReportFields| #[trigger]
            report_read(fields, document@) && real_days(fields.days@) && match result {
                Ok(report) => report_of(fields, location@) == Ok::<ReportView, WeatherError>(
                    report@,
                ),
                Err(error) => report_of(fields, location@) == Err::<ReportView, WeatherError>(
                    error,
                ),
            },
{
    if document.len() > MAX_RESPONSE {
        return Err(WeatherError::TooLarge);
    }
    if !valid_json(document) {
        return Err(WeatherError::InvalidJson);
    }
    let fields = read_report(document);
    weather_of(&fields, location)
}

} // verus!
