//! When and where the weather is asked for, and what is kept of the answers.

use vstd::prelude::*;

use super::{encode, percent_encoded, ReportView, WeatherReport};
use crate::config::Config;
use crate::text::{chars_of, option_view, string_of, trim, trimmed};
use vstd::utf8::encode_utf8;

verus! {

/// The least time between two requests, in nanoseconds, and the time after
/// which a failed one is tried again.
pub const MINUTE: u64 = 60_000_000_000;

/// Where and how often the weather is asked for.
#[derive(Debug)]
pub struct WeatherOptions {
    pub location: String,
    pub coordinates: Option<(u64, u64)>,
    /// The time between two requests, in nanoseconds.
    pub interval: u128,
}

impl WeatherOptions {
    pub fn new(config: &Config) -> (result: Self)
        ensures
            result.location@ == trimmed(config.weather_location@),
            result.coordinates == (match (config.weather_latitude, config.weather_longitude) {
                (Some(latitude), Some(longitude)) => Some((latitude, longitude)),
                _ => None,
            }),
            result.interval == config.weather_refresh_minutes * MINUTE,
    {
        let characters = chars_of(config.weather_location.as_str());
        WeatherOptions {
            location: string_of(trim(characters.as_slice())),
            coordinates: match (config.weather_latitude, config.weather_longitude) {
                (Some(latitude), Some(longitude)) => Some((latitude, longitude)),
                _ => None,
            },
            interval: config.weather_refresh_minutes as u128 * MINUTE as u128,
        }
    }
}

/// A place with a name.
#[derive(Debug)]
pub struct Location {
    pub name: String,
    pub latitude: u64,
    pub longitude: u64,
}

/// The view of a location.
pub ghost struct LocationView {
    pub name: Seq<char>,
    pub latitude: u64,
    pub longitude: u64,
}

impl View for Location {
    type V = LocationView;

    open spec fn view(&self) -> LocationView {
        LocationView { name: self.name@, latitude: self.latitude, longitude: self.longitude }
    }
}

/// How the location of the next report is found.
#[derive(Debug)]
pub enum LocationSource {
    /// It is known.
    Known(Location),
    /// By the address of the machine, anew each time.
    Detect(String),
    /// By the name of a city; what is found is kept.
    Search(String),
}

/// The view of a source.
pub ghost enum SourceView {
    Known(LocationView),
    Detect(Seq<char>),
    Search(Seq<char>),
}

impl View for LocationSource {
    type V = SourceView;

    open spec fn view(&self) -> SourceView {
        match *self {
            LocationSource::Known(location) => SourceView::Known(location@),
            LocationSource::Detect(url) => SourceView::Detect(url@),
            LocationSource::Search(url) => SourceView::Search(url@),
        }
    }
}

/// The address that answers with a city.
pub open spec fn search_url(city: Seq<char>) -> Seq<char> {
    "https://geocoding-api.open-meteo.com/v1/search?name="@ + percent_encoded(encode_utf8(city))
        + "&count=1&language=en&format=json"@
}

/// The name of a place: the configured one, or else its coordinates as a text.
pub open spec fn name_or_coordinates(name: Seq<char>, coordinates: Seq<char>) -> Seq<char> {
    if name.len() == 0 {
        coordinates
    } else {
        name
    }
}

/// How the location is found: by the configured coordinates, else by the
/// address where no city is configured, else by the city, once.
pub open spec fn source_of(
    location: Seq<char>,
    coordinates: Option<(u64, u64)>,
    cached: Option<LocationView>,
    coordinates_text: Seq<char>,
) -> SourceView {
    match coordinates {
        Some(pair) => SourceView::Known(
            LocationView {
                name: name_or_coordinates(location, coordinates_text),
                latitude: pair.0,
                longitude: pair.1,
            },
        ),
        None => if location.len() == 0 {
            SourceView::Detect(
                "https://ipwho.is/?fields=success,city,latitude,longitude,message"@,
            )
        } else {
            match cached {
                Some(location) => SourceView::Known(location),
                None => SourceView::Search(search_url(location)),
            }
        },
    }
}

/// The view of a kept location.
pub open spec fn cached_view(cached: Option<Location>) -> Option<LocationView> {
    match cached {
        Some(location) => Some(location@),
        None => None,
    }
}

/// Decides how the location of the next report is found. `coordinates_text` is
/// the text of the configured coordinates.
pub fn location_source(
    options: &WeatherOptions,
    cached: &Option<Location>,
    coordinates_text: &str,
) -> (result: LocationSource)
    ensures
        result@ == source_of(
            options.location@,
            options.coordinates,
            cached_view(*cached),
            coordinates_text@,
        ),
{
    let unnamed = chars_of(options.location.as_str()).len() == 0;
    if let Some((latitude, longitude)) = options.coordinates {
        let name = if unnamed {
            coordinates_text.to_owned()
        } else {
            options.location.clone()
        };
        return LocationSource::Known(Location { name, latitude, longitude });
    }
    if unnamed {
        return LocationSource::Detect(
            "https://ipwho.is/?fields=success,city,latitude,longitude,message".to_owned(),
        );
    }
    match cached {
        Some(location) => LocationSource::Known(
            Location {
                name: location.name.clone(),
                latitude: location.latitude,
                longitude: location.longitude,
            },
        ),
        None => {
            let mut url = "https://geocoding-api.open-meteo.com/v1/search?name=".to_owned();
            let city = encode(options.location.as_str());
            url.append(city.as_str());
            url.append("&count=1&language=en&format=json");
            LocationSource::Search(url)
        },
    }
}

/// The address that answers with the weather at coordinates, given as texts.
pub open spec fn report_url(latitude: Seq<char>, longitude: Seq<char>) -> Seq<char> {
    "https://api.open-meteo.com/v1/forecast?latitude="@ + latitude + "&longitude="@ + longitude
        + "&current=temperature_2m,apparent_temperature,relative_humidity_2m,wind_speed_10m,weather_code,is_day"@
        + "&daily=weather_code,temperature_2m_max,temperature_2m_min&forecast_days=4&timezone=auto"@
}

pub fn forecast_url(latitude: &str, longitude: &str) -> (result: String)
    ensures
        result@ == report_url(latitude@, longitude@),
{
    let mut url = "https://api.open-meteo.com/v1/forecast?latitude=".to_owned();
    url.append(latitude);
    url.append("&longitude=");
    url.append(longitude);
    url.append(
        "&current=temperature_2m,apparent_temperature,relative_humidity_2m,wind_speed_10m,weather_code,is_day",
    );
    url.append(
        "&daily=weather_code,temperature_2m_max,temperature_2m_min&forecast_days=4&timezone=auto",
    );
    url
}

/// Configured coordinates win over everything else, and a city is searched for
/// only while it is not known.
pub proof fn law_coordinates_win(
    location: Seq<char>,
    coordinates: Option<(u64, u64)>,
    cached: Option<LocationView>,
    text: Seq<char>,
)
    ensures
        coordinates is Some ==> source_of(location, coordinates, cached, text) is Known,
        source_of(location, coordinates, cached, text) is Search ==> cached is None
            && location.len() > 0,
        source_of(location, coordinates, cached, text) is Detect ==> location.len() == 0,
{
}

/// The weather that is known, and whether the last request failed.
#[derive(Debug)]
pub struct WeatherState {
    pub report: Option<WeatherReport>,
    pub error: Option<String>,
    /// When the report came, in seconds since 1970.
    pub updated_at: Option<i64>,
}

/// The view of a state.
pub ghost struct StateView {
    pub report: Option<ReportView>,
    pub error: Option<Seq<char>>,
    pub updated_at: Option<i64>,
}

impl View for WeatherState {
    type V = StateView;

    open spec fn view(&self) -> StateView {
        StateView {
            report: match self.report {
                Some(report) => Some(report@),
                None => None,
            },
            error: option_view(self.error),
            updated_at: self.updated_at,
        }
    }
}

/// The state after a request: with the new report, or with the old one and an error.
pub open spec fn answered(state: StateView, report: Option<ReportView>, now: i64) -> StateView {
    match report {
        Some(report) => StateView { report: Some(report), error: None, updated_at: Some(now) },
        None => StateView { error: Some("Weather unavailable; retry in a moment"@), ..state },
    }
}

/// Whether the weather may be asked for.
pub open spec fn may_request(last: Option<u64>, now: u64) -> bool {
    match last {
        Some(last) => now - last >= MINUTE,
        None => true,
    }
}

/// The time until the next request.
pub open spec fn pause_of(failed: bool, interval: u128, last: Option<u64>, now: u64) -> int {
    let wanted: int = if failed {
        MINUTE as int
    } else {
        interval as int
    };
    let spent: int = match last {
        Some(last) => if now > last {
            now - last
        } else {
            0
        },
        None => 0,
    };
    if wanted > spent {
        wanted - spent
    } else {
        0
    }
}

impl WeatherState {
    pub fn new() -> (result: Self)
        ensures
            result@ == (StateView { report: None, error: None, updated_at: None }),
    {
        WeatherState { report: None, error: None, updated_at: None }
    }

    /// Takes over the answer to a request, if there was one.
    pub fn answer(&mut self, report: Option<WeatherReport>, now: i64)
        ensures
            final(self)@ == answered(
                old(self)@,
                (match report {
                    Some(report) => Some(report@),
                    None => None,
                }),
                now,
            ),
    {
        match report {
            Some(report) => {
                self.report = Some(report);
                self.error = None;
                self.updated_at = Some(now);
            },
            None => {
                self.error = Some("Weather unavailable; retry in a moment".to_owned());
            },
        }
    }

    /// The time until the next request, in nanoseconds.
    pub fn delay(&self, options: &WeatherOptions, last: Option<u64>, now: u64) -> (result: u128)
        ensures
            result == pause_of(self.error is Some, options.interval, last, now),
    {
        let wanted: u128 = if self.error.is_some() {
            MINUTE as u128
        } else {
            options.interval
        };
        let spent: u128 = match last {
            Some(last) => if now > last {
                (now - last) as u128
            } else {
                0
            },
            None => 0,
        };
        if wanted > spent {
            wanted - spent
        } else {
            0
        }
    }
}

/// Whether the weather may be asked for: at most once a minute.
pub fn request_due(last: Option<u64>, now: u64) -> (result: bool)
    ensures
        result == may_request(last, now),
{
    match last {
        Some(last) => now >= last && now - last >= MINUTE,
        None => true,
    }
}

/// Requests are a minute apart, and one is due once a pause has passed, if the
/// time between two is at least a minute.
pub proof fn law_requests_are_a_minute_apart(
    failed: bool,
    interval: u128,
    last: u64,
    now: u64,
    later: u64,
)
    requires
        last <= now <= later,
    ensures
        may_request(Some(last), now) ==> now >= last + MINUTE,
        interval >= MINUTE && later - now >= pause_of(failed, interval, Some(last), now)
            ==> may_request(Some(last), later),
{
}

/// A failed request keeps the report that there was, with its time.
pub proof fn law_failures_keep_the_report(state: StateView, now: i64)
    ensures
        answered(state, None, now).report == state.report,
        answered(state, None, now).updated_at == state.updated_at,
        answered(state, None, now).error is Some,
{
}

/// What the weather's thread is asked for.
#[derive(Clone, Copy, Debug, PartialEq, Eq, Structural)]
pub struct WeatherHandle {
    /// It is to look up from its pause.
    pub awake: bool,
    pub shutdown: bool,
}

impl WeatherHandle {
    pub fn new() -> (result: Self)
        ensures
            result == (WeatherHandle { awake: false, shutdown: false }),
    {
        WeatherHandle { awake: false, shutdown: false }
    }

    /// Asks for the weather; further calls change nothing until the thread has
    /// seen the first.
    pub fn refresh(&mut self)
        ensures
            *final(self) == (WeatherHandle { awake: true, shutdown: old(self).shutdown }),
    {
        self.awake = true;
    }

    /// Ends the thread.
    pub fn stop(&mut self)
        ensures
            *final(self) == (WeatherHandle { awake: true, shutdown: true }),
    {
        self.shutdown = true;
        self.awake = true;
    }

    /// Ends a pause, and tells whether it was asked for.
    pub fn resume(&mut self) -> (result: bool)
        ensures
            result == old(self).awake,
            *final(self) == (WeatherHandle { awake: false, shutdown: old(self).shutdown }),
    {
        let asked = self.awake;
        self.awake = false;
        asked
    }
}

} // verus!
