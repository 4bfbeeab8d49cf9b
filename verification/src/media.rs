//! The media players on the session bus: one player.
//!
//! Positions and lengths are microseconds, moments nanoseconds of a monotonic
//! clock, and a rate is held as the bits of a double-precision number.

pub mod laws;
pub mod players;

use vstd::prelude::*;

use crate::config::{is_within, within, DOUBLE_SIGN};
use crate::network::worker::DOUBLE_INFINITY;
use crate::text::{
    chars_of, copy_option, decimal, option_view, push_decimal, same_option, same_text,
    string_views, trim, trimmed,
};

verus! {

/// The bits of the double-precision number one.
pub const NORMAL_RATE: u64 = 0x3ff0_0000_0000_0000;

/// The most characters of a title that are shown.
pub const TITLE_LIMIT: usize = 32;

/// What is shown of a player.
#[derive(Debug)]
pub struct MediaSnapshot {
    pub title: String,
    pub detail: String,
}

/// The view of what is shown.
pub ghost struct MediaView {
    pub title: Seq<char>,
    pub detail: Seq<char>,
}

impl View for MediaSnapshot {
    type V = MediaView;

    open spec fn view(&self) -> MediaView {
        MediaView { title: self.title@, detail: self.detail@ }
    }
}

#[derive(Clone, Copy, Debug, PartialEq, Eq, Structural)]
pub enum Status {
    Stopped,
    Paused,
    Playing,
}

impl Status {
    /// Where the status stands in the order of players.
    pub open spec fn rank(self) -> int {
        match self {
            Status::Stopped => 0,
            Status::Paused => 1,
            Status::Playing => 2,
        }
    }

    pub fn order(self) -> (result: u8)
        ensures
            result == self.rank(),
    {
        match self {
            Status::Stopped => 0,
            Status::Paused => 1,
            Status::Playing => 2,
        }
    }

    pub open spec fn text(self) -> Seq<char> {
        match self {
            Status::Playing => "Playing"@,
            Status::Paused => "Paused"@,
            Status::Stopped => "Stopped"@,
        }
    }

    pub fn label(self) -> (result: &'static str)
        ensures
            result@ == self.text(),
    {
        match self {
            Status::Playing => "Playing",
            Status::Paused => "Paused",
            Status::Stopped => "Stopped",
        }
    }
}

/// The status that a word stands for.
pub open spec fn status_of(word: Seq<char>) -> Status {
    if word == "Playing"@ {
        Status::Playing
    } else if word == "Paused"@ {
        Status::Paused
    } else {
        Status::Stopped
    }
}

fn parse_status(word: &str) -> (result: Status)
    ensures
        result == status_of(word@),
{
    if same_text(word, "Playing") {
        Status::Playing
    } else if same_text(word, "Paused") {
        Status::Paused
    } else {
        Status::Stopped
    }
}

/// The piece that a player is at.
#[derive(Debug)]
pub struct Track {
    pub title: String,
    pub artist: String,
    pub length: Option<i64>,
    pub id: Option<String>,
}

/// The view of a piece.
pub ghost struct TrackView {
    pub title: Seq<char>,
    pub artist: Seq<char>,
    pub length: Option<i64>,
    pub id: Option<Seq<char>>,
}

impl View for Track {
    type V = TrackView;

    open spec fn view(&self) -> TrackView {
        TrackView {
            title: self.title@,
            artist: self.artist@,
            length: self.length,
            id: option_view(self.id),
        }
    }
}

/// The view of a piece that may be missing.
pub open spec fn track_view(track: Option<Track>) -> Option<TrackView> {
    match track {
        Some(track) => Some(track@),
        None => None,
    }
}

/// What a player tells of a piece, each as far as it has the right type.
#[derive(Debug)]
pub struct Metadata {
    pub title: Option<String>,
    pub artists: Option<Vec<String>>,
    /// The length where it is a signed number.
    pub signed_length: Option<i64>,
    /// The length where it is an unsigned number.
    pub unsigned_length: Option<u64>,
    pub id: Option<String>,
}

/// The artists that have a name, among the first `count`.
pub open spec fn named_artists(artists: Seq<Seq<char>>, count: int) -> Seq<Seq<char>>
    decreases count,
{
    if count <= 0 {
        Seq::empty()
    } else {
        let before = named_artists(artists, count - 1);
        if trimmed(artists[count - 1]).len() > 0 {
            before.push(artists[count - 1])
        } else {
            before
        }
    }
}

/// Texts with a comma between each two.
pub open spec fn joined(texts: Seq<Seq<char>>) -> Seq<char>
    decreases texts.len(),
{
    if texts.len() == 0 {
        Seq::empty()
    } else if texts.len() == 1 {
        texts[0]
    } else {
        joined(texts.drop_last()) + ", "@ + texts.last()
    }
}

/// The artists of a piece.
pub open spec fn artist_of(artists: Option<Vec<String>>) -> Seq<char> {
    match artists {
        Some(artists) => joined(
            named_artists(string_views(artists@), artists@.len() as int),
        ),
        None => Seq::empty(),
    }
}

/// The length of a piece, if it has one.
pub open spec fn length_of(signed: Option<i64>, unsigned: Option<u64>) -> Option<i64> {
    let length: Option<i64> = match signed {
        Some(length) => Some(length),
        None => match unsigned {
            Some(length) => if length <= i64::MAX {
                Some(length as i64)
            } else {
                None
            },
            None => None,
        },
    };
    match length {
        Some(length) => if length > 0 {
            Some(length)
        } else {
            None
        },
        None => None,
    }
}

/// A text, or an empty one.
pub open spec fn text_or_empty(text: Option<Seq<char>>) -> Seq<char> {
    match text {
        Some(text) => text,
        None => Seq::empty(),
    }
}

/// The piece that a player tells of, if it has a title or an artist.
pub open spec fn track_of(metadata: Metadata) -> Option<TrackView> {
    let title = text_or_empty(option_view(metadata.title));
    let artist = artist_of(metadata.artists);
    if trimmed(title).len() == 0 && artist.len() == 0 {
        None
    } else {
        Some(
            TrackView {
                title,
                artist,
                length: length_of(metadata.signed_length, metadata.unsigned_length),
                id: option_view(metadata.id),
            },
        )
    }
}

fn join_artists(artists: &Vec<String>) -> (result: String)
    ensures
        result@ == joined(named_artists(string_views(artists@), artists@.len() as int)),
{
    let ghost all = string_views(artists@);
    let mut text = String::new();
    let mut any = false;
    let mut i: usize = 0;
    assert(text@ =~= Seq::<char>::empty());
    while i < artists.len()
        invariant
            i <= artists@.len(),
            all == string_views(artists@),
            text@ == joined(named_artists(all, i as int)),
            any == (named_artists(all, i as int).len() > 0),
        decreases artists@.len() - i,
    {
        let ghost before = named_artists(all, i as int);
        let artist = &artists[i];
        let characters = chars_of(artist.as_str());
        if trim(characters.as_slice()).len() > 0 {
            let ghost after = before.push(artist@);
            assert(named_artists(all, i + 1) == after);
            assert(after.drop_last() =~= before);
            if any {
                text.append(", ");
            } else {
                assert(before.len() == 0);
                assert(text@ =~= Seq::<char>::empty());
            }
            let ghost start = text@;
            text.append(artist.as_str());
            assert(!any ==> start + artist@ =~= artist@);
            any = true;
        }
        i += 1;
    }
    text
}

fn length_from(signed: Option<i64>, unsigned: Option<u64>) -> (result: Option<i64>)
    ensures
        result == length_of(signed, unsigned),
{
    let length = match signed {
        Some(length) => length,
        None => match unsigned {
            Some(length) => if length <= i64::MAX as u64 {
                length as i64
            } else {
                0
            },
            None => 0,
        },
    };
    if length > 0 {
        Some(length)
    } else {
        None
    }
}

pub fn parse_track(metadata: &Metadata) -> (result: Option<Track>)
    ensures
        track_view(result) == track_of(*metadata),
{
    let title = match &metadata.title {
        Some(title) => title.clone(),
        None => String::new(),
    };
    assert(metadata.title is None ==> title@ =~= Seq::<char>::empty());
    let artist = match &metadata.artists {
        Some(artists) => join_artists(artists),
        None => String::new(),
    };
    assert(metadata.artists is None ==> artist@ =~= Seq::<char>::empty());
    let characters = chars_of(title.as_str());
    if trim(characters.as_slice()).len() == 0 && chars_of(artist.as_str()).len() == 0 {
        return None;
    }
    Some(
        Track {
            title,
            artist,
            length: length_from(metadata.signed_length, metadata.unsigned_length),
            id: copy_option(&metadata.id),
        },
    )
}

/// The properties that a player tells of. A property that is given need not
/// have the right type.
#[derive(Debug)]
pub struct PlayerProperties {
    pub metadata: Option<Option<Metadata>>,
    pub rate: Option<Option<u64>>,
    pub status: Option<Option<String>>,
    pub position: Option<Option<i64>>,
}

impl PlayerProperties {
    /// Whether any property is given.
    pub open spec fn any(&self) -> bool {
        self.metadata is Some || self.rate is Some || self.status is Some || self.position is Some
    }

    pub fn relevant(&self) -> (result: bool)
        ensures
            result == self.any(),
    {
        self.metadata.is_some() || self.rate.is_some() || self.status.is_some()
            || self.position.is_some()
    }
}

/// A media player.
#[derive(Debug)]
pub struct Player {
    /// The connection that the player speaks from.
    pub owner: String,
    /// How often the player's name had changed hands.
    pub generation: u64,
    /// How often the player has told of a change.
    pub revision: u64,
    /// When the player last told of a change, in the order of all changes.
    pub activity: u64,
    pub status: Status,
    pub track: Option<Track>,
    /// The position at the moment of the anchor.
    pub position: i64,
    pub anchor: u64,
    pub rate: u64,
    /// Whether the player has been asked for its properties.
    pub loading: bool,
}

/// The view of a player.
pub ghost struct PlayerView {
    pub owner: Seq<char>,
    pub generation: u64,
    pub revision: u64,
    pub activity: u64,
    pub status: Status,
    pub track: Option<TrackView>,
    pub position: i64,
    pub anchor: u64,
    pub rate: u64,
    pub loading: bool,
}

impl View for Player {
    type V = PlayerView;

    open spec fn view(&self) -> PlayerView {
        PlayerView {
            owner: self.owner@,
            generation: self.generation,
            revision: self.revision,
            activity: self.activity,
            status: self.status,
            track: track_view(self.track),
            position: self.position,
            anchor: self.anchor,
            rate: self.rate,
            loading: self.loading,
        }
    }
}

/// A player of which nothing is known yet.
pub open spec fn new_player(owner: Seq<char>, now: u64) -> PlayerView {
    PlayerView {
        owner,
        generation: 0,
        revision: 0,
        activity: 0,
        status: Status::Stopped,
        track: None,
        position: 0,
        anchor: now,
        rate: NORMAL_RATE,
        loading: false,
    }
}

pub open spec fn at_least_zero(value: int) -> int {
    if value < 0 {
        0
    } else {
        value
    }
}

/// The length of the piece that a player is at.
pub open spec fn track_length(player: PlayerView) -> Option<i64> {
    match player.track {
        Some(track) => track.length,
        None => None,
    }
}

/// The position of a player, if `progress` is how far playing on has led since
/// the anchor.
pub open spec fn position_of(player: PlayerView, progress: i64) -> i64 {
    let moved: int = if player.status == Status::Playing {
        player.position + progress
    } else {
        player.position as int
    };
    let bounded: int = if moved > i64::MAX {
        i64::MAX as int
    } else {
        at_least_zero(moved)
    };
    match track_length(player) {
        Some(length) => if bounded > length {
            length
        } else {
            bounded as i64
        },
        None => bounded as i64,
    }
}

/// Whether two pieces differ: by their identities if both have one, else by
/// title and artist.
pub open spec fn another_track(old: Option<TrackView>, new: Option<TrackView>) -> bool {
    match (old, new) {
        (Some(old), Some(new)) => if old.id is Some && new.id is Some {
            old.id != new.id
        } else {
            old.title != new.title || old.artist != new.artist
        },
        (None, None) => false,
        _ => true,
    }
}

/// A player once it has told of its piece.
pub open spec fn at_track(player: PlayerView, next: Option<TrackView>) -> PlayerView {
    PlayerView {
        track: next,
        position: if another_track(player.track, next) {
            0
        } else {
            player.position
        },
        ..player
    }
}

/// Whether a rate can be used.
pub open spec fn usable_rate(bits: u64) -> bool {
    within(bits, (DOUBLE_INFINITY - 1) as u64) && bits as int % (DOUBLE_SIGN as int) != 0
}

/// A player once it has told of its rate.
pub open spec fn at_rate(player: PlayerView, rate: Option<Option<u64>>) -> PlayerView {
    match rate {
        Some(Some(bits)) => if usable_rate(bits) {
            PlayerView { rate: bits, ..player }
        } else {
            player
        },
        _ => player,
    }
}

/// A player once it has told of its status.
pub open spec fn at_status(player: PlayerView, status: Option<Option<String>>) -> PlayerView {
    match status {
        Some(Some(word)) => PlayerView {
            status: status_of(word@),
            position: if status_of(word@) == Status::Stopped {
                0
            } else {
                player.position
            },
            ..player
        },
        _ => player,
    }
}

/// A player at a position.
pub open spec fn at_position(player: PlayerView, position: i64) -> PlayerView {
    PlayerView { position: at_least_zero(position as int) as i64, ..player }
}

/// A player once it has told of properties. What it tells later in this order
/// wins: the piece, the rate, the status, the position.
pub open spec fn applied(
    player: PlayerView,
    properties: PlayerProperties,
    now: u64,
    progress: i64,
) -> PlayerView {
    let anchored = PlayerView {
        position: position_of(player, progress),
        anchor: now,
        ..player
    };
    let told = match properties.metadata {
        Some(metadata) => at_track(
            anchored,
            match metadata {
                Some(metadata) => track_of(metadata),
                None => None,
            },
        ),
        None => anchored,
    };
    let paced = at_status(at_rate(told, properties.rate), properties.status);
    match properties.position {
        Some(Some(position)) => at_position(paced, position),
        _ => paced,
    }
}

fn differs(old: &Option<Track>, new: &Option<Track>) -> (result: bool)
    ensures
        result == another_track(track_view(*old), track_view(*new)),
{
    match (old, new) {
        (Some(old), Some(new)) => if old.id.is_some() && new.id.is_some() {
            !same_option(&old.id, &new.id)
        } else {
            !same_text(old.title.as_str(), new.title.as_str()) || !same_text(
                old.artist.as_str(),
                new.artist.as_str(),
            )
        },
        (None, None) => false,
        _ => true,
    }
}

/// A number with at least two digits.
pub open spec fn two_digits(value: nat) -> Seq<char> {
    if value < 10 {
        "0"@ + decimal(value)
    } else {
        decimal(value)
    }
}

/// A duration as hours, minutes and seconds, or as minutes and seconds.
pub open spec fn clock_text(micros: i64) -> Seq<char> {
    let seconds = at_least_zero(micros as int) / 1_000_000;
    if seconds >= 3600 {
        two_digits((seconds / 3600) as nat) + ":"@ + two_digits((seconds / 60 % 60) as nat) + ":"@
            + two_digits((seconds % 60) as nat)
    } else {
        two_digits((seconds / 60) as nat) + ":"@ + two_digits((seconds % 60) as nat)
    }
}

fn push_two_digits(text: &mut String, value: u64)
    ensures
        final(text)@ == old(text)@ + two_digits(value as nat),
{
    if value < 10 {
        text.append("0");
    }
    push_decimal(text, value);
    assert(text@ =~= old(text)@ + two_digits(value as nat));
}

pub fn clock(micros: i64) -> (result: String)
    ensures
        result@ == clock_text(micros),
{
    let seconds: u64 = if micros > 0 {
        micros as u64 / 1_000_000
    } else {
        0
    };
    let mut text = String::new();
    assert(text@ =~= Seq::<char>::empty());
    if seconds >= 3600 {
        push_two_digits(&mut text, seconds / 3600);
        text.append(":");
        push_two_digits(&mut text, seconds / 60 % 60);
        text.append(":");
        push_two_digits(&mut text, seconds % 60);
    } else {
        push_two_digits(&mut text, seconds / 60);
        text.append(":");
        push_two_digits(&mut text, seconds % 60);
    }
    assert(text@ =~= clock_text(micros));
    text
}

/// The share of a length that has elapsed, in percent, rounded.
pub open spec fn percent_of(elapsed: int, length: int) -> int {
    (elapsed * 100 + length / 2) / length
}

/// The line under the title.
pub open spec fn detail_text(player: PlayerView, progress: i64) -> Seq<char> {
    let elapsed = position_of(player, progress);
    match track_length(player) {
        Some(length) => clock_text(elapsed) + " / "@ + clock_text(length) + " ("@ + decimal(
            percent_of(elapsed as int, length as int) as nat,
        ) + "%) ["@ + player.status.text() + "]"@,
        None => clock_text(elapsed) + " / --:-- ["@ + player.status.text() + "]"@,
    }
}

impl Player {
    /// A piece that is known to have a length has a positive one.
    pub open spec fn wf(&self) -> bool {
        track_length(self@) matches Some(length) ==> length > 0
    }

    pub fn new(owner: String, now: u64) -> (result: Self)
        ensures
            result.wf(),
            result@ == new_player(owner@, now),
    {
        Player {
            owner,
            generation: 0,
            revision: 0,
            activity: 0,
            status: Status::Stopped,
            track: None,
            position: 0,
            anchor: now,
            rate: NORMAL_RATE,
            loading: false,
        }
    }

    fn length(&self) -> (result: Option<i64>)
        ensures
            result == track_length(self@),
    {
        match &self.track {
            Some(track) => track.length,
            None => None,
        }
    }

    pub fn position_at(&self, progress: i64) -> (result: i64)
        ensures
            result == position_of(self@, progress),
    {
        let moved: i128 = if self.status == Status::Playing {
            self.position as i128 + progress as i128
        } else {
            self.position as i128
        };
        let bounded: i64 = if moved > i64::MAX as i128 {
            i64::MAX
        } else if moved < 0 {
            0
        } else {
            moved as i64
        };
        match self.length() {
            Some(length) => if bounded > length {
                length
            } else {
                bounded
            },
            None => bounded,
        }
    }

    pub fn seek(&mut self, position: i64, now: u64)
        requires
            old(self).wf(),
        ensures
            final(self).wf(),
            final(self)@ == (PlayerView {
                anchor: now,
                ..at_position(old(self)@, position)
            }),
    {
        self.position = if position < 0 {
            0
        } else {
            position
        };
        self.anchor = now;
    }

    /// Takes over what the player told of, and tells whether it was anything.
    pub fn apply(&mut self, properties: &PlayerProperties, now: u64, progress: i64) -> (result:
        bool)
        requires
            old(self).wf(),
        ensures
            final(self).wf(),
            result == properties.any(),
            final(self)@ == (if result {
                applied(old(self)@, *properties, now, progress)
            } else {
                old(self)@
            }),
    {
        if !properties.relevant() {
            return false;
        }
        self.position = self.position_at(progress);
        self.anchor = now;
        if let Some(metadata) = &properties.metadata {
            let next = match metadata {
                Some(metadata) => parse_track(metadata),
                None => None,
            };
            if differs(&self.track, &next) {
                self.position = 0;
            }
            self.track = next;
        }
        if let Some(Some(bits)) = properties.rate {
            if is_within(bits, DOUBLE_INFINITY - 1) && bits % DOUBLE_SIGN != 0 {
                self.rate = bits;
            }
        }
        if let Some(Some(word)) = &properties.status {
            self.status = parse_status(word.as_str());
            if self.status == Status::Stopped {
                self.position = 0;
            }
        }
        if let Some(Some(position)) = properties.position {
            self.position = if position < 0 {
                0
            } else {
                position
            };
        }
        true
    }

    pub fn detail(&self, progress: i64) -> (result: String)
        requires
            self.wf(),
        ensures
            result@ == detail_text(self@, progress),
    {
        let elapsed: i64 = self.position_at(progress);
        let mut text = clock(elapsed);
        match self.length() {
            Some(length) => {
                let percent: i128 = (elapsed as i128 * 100 + length as i128 / 2) / length as i128;
                assert(0 <= percent <= 100) by (nonlinear_arith)
                    requires
                        0 <= elapsed <= length,
                        length > 0,
                        percent == (elapsed * 100 + length as i128 / 2) / (length as int),
                ;
                let total = clock(length);
                text.append(" / ");
                text.append(total.as_str());
                text.append(" (");
                push_decimal(&mut text, percent as u64);
                text.append("%) [");
            },
            None => {
                text.append(" / --:-- [");
            },
        }
        text.append(self.status.label());
        text.append("]");
        assert(text@ =~= detail_text(self@, progress));
        text
    }
}

/// A player stays within its piece.
pub proof fn law_positions_stay_within_the_piece(player: PlayerView, progress: i64)
    requires
        track_length(player) matches Some(length) ==> length > 0,
    ensures
        position_of(player, progress) >= 0,
        track_length(player) matches Some(length) ==> position_of(player, progress) <= length,
{
}

/// A player that does not play stands still, however much time passes.
pub proof fn law_paused_players_stand_still(player: PlayerView, first: i64, second: i64)
    requires
        player.status != Status::Playing,
    ensures
        position_of(player, first) == position_of(player, second),
{
}

/// A player that plays does not go back: the further it has come since it was last
/// heard of, the later its position.
pub proof fn law_playing_players_go_forward(player: PlayerView, first: i64, second: i64)
    requires
        player.status == Status::Playing,
        first <= second,
    ensures
        position_of(player, first) <= position_of(player, second),
{
}

/// Taking over properties that leave the piece, the rate, the status and the
/// position alone does not move the player.
pub proof fn law_anchoring_keeps_the_position(
    player: PlayerView,
    properties: PlayerProperties,
    now: u64,
    progress: i64,
)
    requires
        properties.metadata is None,
        properties.status is None,
        properties.position is None,
        track_length(player) matches Some(length) ==> length > 0,
    ensures
        position_of(applied(player, properties, now, progress), 0) == position_of(
            player,
            progress,
        ),
{
}

/// A stopped player is at the beginning, unless it tells of a position.
pub proof fn law_stopped_players_start_over(
    player: PlayerView,
    properties: PlayerProperties,
    now: u64,
    progress: i64,
)
    requires
        properties.status matches Some(Some(word)) && status_of(word@) == Status::Stopped,
        properties.position is None,
    ensures
        applied(player, properties, now, progress).status == Status::Stopped,
        applied(player, properties, now, progress).position == 0,
{
}

} // verus!
