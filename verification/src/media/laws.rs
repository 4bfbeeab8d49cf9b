//! What holds of every media player: how it takes over what it is told, and what is
//! shown of it.

use vstd::prelude::*;

use super::players::{
    answered, followed_names, heard, invalidates, is_selected, lemma_heard_rest, lemma_sought_rest,
    owned, player_in, player_names, short_title, snapshot_of, sought, told, without_player,
    NamedView, PREFIX,
};
use super::{
    applied, clock_text, detail_text, joined, named_artists, position_of, status_of, track_length,
    track_of, two_digits, usable_rate, Metadata, PlayerProperties, PlayerView, Status, TITLE_LIMIT,
};
use crate::text::{decimal, option_view, starts, trimmed};

verus! {

/// A player that tells of another piece than the one it was at, and of no position, is
/// at the beginning; one that tells of the same piece again is where it had come to.
/// Pieces are told apart by their identities.
pub proof fn law_new_pieces_start_at_the_beginning(
    player: PlayerView,
    properties: PlayerProperties,
    metadata: Metadata,
    now: u64,
    progress: i64,
)
    requires
        properties.metadata == Some(Some(metadata)),
        properties.status is None,
        properties.position is None,
        player.track is Some,
        player.track->0.id is Some,
        metadata.id is Some,
        track_of(metadata) is Some,
    ensures
        metadata.id->0@ != player.track->0.id->0 ==> applied(
            player,
            properties,
            now,
            progress,
        ).position == 0,
        metadata.id->0@ == player.track->0.id->0 ==> applied(
            player,
            properties,
            now,
            progress,
        ).position == position_of(player, progress),
{
}

/// Pieces without identities are told apart by title and artist, and a piece where
/// there was none is a new one.
pub proof fn law_pieces_without_identity(
    player: PlayerView,
    properties: PlayerProperties,
    metadata: Metadata,
    now: u64,
    progress: i64,
)
    requires
        properties.metadata == Some(Some(metadata)),
        properties.status is None,
        properties.position is None,
        metadata.id is None,
    ensures
        ({
            let after = applied(player, properties, now, progress);
            match (player.track, after.track) {
                (Some(old), Some(new)) => if old.title == new.title && old.artist == new.artist {
                    after.position == position_of(player, progress)
                } else {
                    after.position == 0
                },
                (None, None) => after.position == position_of(player, progress),
                _ => after.position == 0,
            }
        }),
{
}

/// What a player tells of its piece is what it is at afterwards: the title, the artists,
/// the identity, and a length that is one. A piece without title and artist is none.
pub proof fn law_pieces_are_taken_over(
    player: PlayerView,
    properties: PlayerProperties,
    metadata: Metadata,
    now: u64,
    progress: i64,
)
    requires
        properties.metadata == Some(Some(metadata)),
    ensures
        ({
            let track = applied(player, properties, now, progress).track;
            let named = metadata.title is Some && trimmed(metadata.title->0@).len() > 0;
            &&& named ==> track is Some && track->0.title == metadata.title->0@
            &&& !named && metadata.artists is None ==> track is None
            &&& track matches Some(piece) ==> {
                &&& piece.id == option_view(metadata.id)
                &&& piece.length matches Some(length) ==> length > 0 && (metadata.signed_length
                    == Some(length) || (metadata.signed_length is None && metadata.unsigned_length
                    == Some(length as u64)))
                &&& metadata.signed_length matches Some(length) ==> length > 0 ==> piece.length
                    == Some(length)
                &&& metadata.unsigned_length matches Some(length) ==> metadata.signed_length is None
                    ==> 0 < length <= i64::MAX ==> piece.length == Some(length as i64)
            }
        }),
{
}

/// Status, rate and position are taken over as they are told; a player that is told to
/// have stopped is at the beginning; and nothing else changes with them.
pub proof fn law_told_properties_are_taken_over(
    player: PlayerView,
    properties: PlayerProperties,
    now: u64,
    progress: i64,
)
    ensures
        ({
            let after = applied(player, properties, now, progress);
            &&& after.anchor == now
            &&& after.owner == player.owner
            &&& after.generation == player.generation
            &&& after.revision == player.revision
            &&& after.activity == player.activity
            &&& after.loading == player.loading
            &&& properties.metadata is None ==> after.track == player.track
            &&& properties.metadata matches Some(metadata) ==> metadata is None ==> after.track is None
            &&& properties.status matches Some(Some(word)) ==> after.status == status_of(word@)
            &&& !(properties.status matches Some(Some(_))) ==> after.status == player.status
            &&& properties.rate matches Some(Some(rate)) ==> usable_rate(rate) ==> after.rate == rate
            &&& !(properties.rate matches Some(Some(rate)) && usable_rate(rate)) ==> after.rate
                == player.rate
            &&& properties.position matches Some(Some(position)) ==> position >= 0 ==> after.position
                == position
            &&& properties.position matches Some(Some(position)) ==> position < 0 ==> after.position
                == 0
            &&& properties.status matches Some(Some(_)) ==> properties.position is None && after.status
                == Status::Stopped ==> after.position == 0
        }),
{
}

/// A player reads the word that is shown for a status as that status, and words that
/// are none as stopped.
pub proof fn law_status_words_are_read_back(status: Status, word: Seq<char>)
    ensures
        status_of(status.text()) == status,
        status_of(word) != Status::Stopped ==> status_of(word).text() == word,
        Status::Playing.text() == "Playing"@,
        Status::Paused.text() == "Paused"@,
        Status::Stopped.text() == "Stopped"@,
{
    reveal_strlit("Playing");
    reveal_strlit("Paused");
    reveal_strlit("Stopped");
    assert("Playing"@.len() == 7 && "Paused"@.len() == 6 && "Stopped"@.len() == 7);
    assert("Playing"@[0] != "Stopped"@[0]);
}

/// A player is where it started plus how far it has come since, as long as that is
/// within its piece; before the beginning it is at the beginning, and beyond the end at
/// the end.
pub proof fn law_positions_add_up(player: PlayerView, progress: i64)
    requires
        player.status == Status::Playing,
    ensures
        ({
            let sum = player.position + progress;
            let end: int = match track_length(player) {
                Some(length) => length as int,
                None => i64::MAX as int,
            };
            &&& 0 <= sum <= end ==> position_of(player, progress) == sum
            &&& sum < 0 && end >= 0 ==> position_of(player, progress) == 0
            &&& sum > end && end >= 0 ==> position_of(player, progress) == end
        }),
{
}

/// The time of a duration adds up: hours, minutes and seconds, each below sixty but the
/// hours, make the whole seconds of the duration. Hours are shown only where there are
/// some.
pub proof fn law_clock_times_add_up(micros: i64)
    requires
        micros >= 0,
    ensures
        exists|hours: int, minutes: int, seconds: int|
            {
                &&& 0 <= hours
                &&& 0 <= minutes < 60
                &&& 0 <= seconds < 60
                &&& (hours * 3600 + minutes * 60 + seconds) * 1_000_000 <= micros
                &&& micros < (hours * 3600 + minutes * 60 + seconds + 1) * 1_000_000
                &&& clock_text(micros) == #[trigger] time_text(hours, minutes, seconds)
            },
{
    let total = micros as int / 1_000_000;
    let hours = total / 3600;
    let minutes = total / 60 % 60;
    let seconds = total % 60;
    assert(hours * 3600 + minutes * 60 + seconds == total);
    if total < 3600 {
        assert(total / 60 == minutes);
    }
    assert(clock_text(micros) == time_text(hours, minutes, seconds));
}

/// A time of day or a duration, in two digits each.
pub open spec fn time_text(hours: int, minutes: int, seconds: int) -> Seq<char> {
    if hours == 0 {
        two_digits(minutes as nat) + ":"@ + two_digits(seconds as nat)
    } else {
        two_digits(hours as nat) + ":"@ + two_digits(minutes as nat) + ":"@ + two_digits(
            seconds as nat,
        )
    }
}

/// Two digits stand for their number.
pub proof fn law_two_digits_have_a_zero(value: nat)
    ensures
        value < 10 ==> two_digits(value).len() == 2 && two_digits(value)[0] == '0',
        10 <= value < 100 ==> two_digits(value).len() == 2,
        10 <= value ==> two_digits(value) == decimal(value),
{
    reveal_strlit("0");
    reveal_with_fuel(decimal, 3);
}

/// The line about a piece of known length has the elapsed time, the length, the share
/// of it in whole percent, to the nearest one, and the status.
pub proof fn law_details_of_pieces_with_a_length(player: PlayerView, progress: i64, length: i64)
    requires
        track_length(player) == Some(length),
        length > 0,
    ensures
        exists|percent: int|
            {
                &&& 0 <= percent <= 100
                &&& -length <= 2 * (100 * position_of(player, progress) - percent * length) <= length
                &&& detail_text(player, progress) == clock_text(position_of(player, progress))
                    + " / "@ + clock_text(length) + " ("@ + #[trigger] decimal(percent as nat)
                    + "%) ["@ + player.status.text() + "]"@
            },
{
    let elapsed = position_of(player, progress) as int;
    let percent = (elapsed * 100 + length as int / 2) / (length as int);
    assert(0 <= elapsed <= length);
    assert(0 <= percent <= 100 && -length <= 2 * (100 * elapsed - percent * length) <= length)
        by (nonlinear_arith)
        requires
            0 <= elapsed <= length,
            length > 0,
            percent == (elapsed * 100 + length as int / 2) / (length as int),
    ;
    assert(detail_text(player, progress) =~= clock_text(position_of(player, progress)) + " / "@
        + clock_text(length) + " ("@ + decimal(percent as nat) + "%) ["@ + player.status.text()
        + "]"@);
}

/// The line about a piece of unknown length has no share.
pub proof fn law_details_of_streams(player: PlayerView, progress: i64)
    requires
        track_length(player) is None,
    ensures
        detail_text(player, progress) == clock_text(position_of(player, progress)) + " / --:-- ["@
            + player.status.text() + "]"@,
{
    reveal_strlit(" / --:-- [");
    assert(detail_text(player, progress) =~= clock_text(position_of(player, progress))
        + " / --:-- ["@ + player.status.text() + "]"@);
}

/// The artist comes before the title. A title that fits is shown whole, and of one that
/// does not its beginning.
pub proof fn law_titles_name_artist_and_title(player: PlayerView, progress: i64)
    requires
        player.track is Some,
    ensures
        snapshot_of(player, progress) is Some,
        ({
            let line = snapshot_of(player, progress)->0.title;
            let track = player.track->0;
            &&& track.artist.is_prefix_of(line)
            &&& track.title.len() == 0 ==> line == track.artist
            &&& 0 < track.title.len() <= TITLE_LIMIT && track.artist.len() > 0 ==> line
                == track.artist + " - "@ + track.title
            &&& 0 < track.title.len() <= TITLE_LIMIT && track.artist.len() == 0 ==> line == track.title
            &&& track.title.len() > TITLE_LIMIT ==> line.len() == TITLE_LIMIT + track.artist.len() + (
            if track.artist.len() > 0 {
                3int
            } else {
                0
            }) && line.last() == '…'
        }),
        snapshot_of(player, progress)->0.detail == detail_text(player, progress),
{
    reveal_strlit(" - ");
    let track = player.track->0;
    let line = snapshot_of(player, progress)->0.title;
    if track.artist.len() > 0 {
        if track.title.len() > 0 {
            assert(line =~= track.artist + (" - "@ + short_title(track.title)));
        }
        assert(line.take(track.artist.len() as int) =~= track.artist);
    } else {
        assert(track.artist =~= line.take(0));
    }
}

/// A short title begins as the whole one.
pub proof fn law_short_titles_begin_alike(title: Seq<char>, place: int)
    requires
        0 <= place < TITLE_LIMIT - 1,
        place < title.len(),
    ensures
        short_title(title)[place] == title[place],
{
}

/// Artists are those with a name, in their order, with commas between them.
pub proof fn law_artists_are_joined(artists: Seq<Seq<char>>, count: int)
    requires
        0 < count <= artists.len(),
    ensures
        ({
            let before = named_artists(artists, count - 1);
            let next = artists[count - 1];
            if trimmed(next).len() == 0 {
                joined(named_artists(artists, count)) == joined(before)
            } else if before.len() == 0 {
                joined(named_artists(artists, count)) == next
            } else {
                joined(named_artists(artists, count)) == joined(before) + ", "@ + next
            }
        }),
{
    let before = named_artists(artists, count - 1);
    let next = artists[count - 1];
    assert(before.push(next).drop_last() =~= before);
}

/// Among players of one status the one that last told of a change is shown; a paused
/// one is shown rather than a stopped one.
pub proof fn law_latest_players_come_first(players: Seq<NamedView>, index: int, other: int)
    requires
        is_selected(players, index),
        0 <= other < players.len(),
        players[other].player.track is Some,
    ensures
        players[other].player.status == players[index].player.status
            ==> players[index].player.activity >= players[other].player.activity,
        players[other].player.status == Status::Paused ==> players[index].player.status
            != Status::Stopped,
        players[index].player.track is Some,
{
    if index != other {
        assert(crate::media::players::shown_before(players[index], players[other]));
    }
}

/// What a sender tells of its properties concerns the players that speak from it, and
/// leaves all others as they were; each keeps its name.
pub proof fn law_messages_concern_their_sender(
    players: Seq<NamedView>,
    activity: u64,
    sender: Seq<char>,
    properties: PlayerProperties,
    invalid: bool,
    now: u64,
    progress: Seq<i64>,
    count: int,
    place: int,
)
    requires
        0 <= place < count <= players.len(),
    ensures
        ({
            let after = heard(
                players,
                activity,
                sender,
                properties,
                invalid,
                now,
                progress,
                count,
            ).players;
            &&& after.len() == players.len()
            &&& after[place].name == players[place].name
            &&& after[place].player.owner == players[place].player.owner
            &&& players[place].player.owner != sender ==> after[place] == players[place]
            &&& players[place].player.owner == sender && properties.any() && !invalid
                ==> after[place].player.status == applied(
                players[place].player,
                properties,
                now,
                progress[place],
            ).status && after[place].player.position == applied(
                players[place].player,
                properties,
                now,
                progress[place],
            ).position && after[place].player.track == applied(
                players[place].player,
                properties,
                now,
                progress[place],
            ).track
            &&& players[place].player.owner == sender && !properties.any() && !invalid
                ==> after[place] == players[place]
            &&& players[place].player.owner == sender && invalid ==> after[place].player.track is None
        }),
    decreases count,
{
    lemma_heard_rest(players, activity, sender, properties, invalid, now, progress, count - 1);
    if place < count - 1 {
        law_messages_concern_their_sender(
            players,
            activity,
            sender,
            properties,
            invalid,
            now,
            progress,
            count - 1,
            place,
        );
    }
}

/// A player that tells of a new position is there, at the moment of the message, and
/// counts as the latest; all others stay as they were.
pub proof fn law_seeking_moves_the_sender(
    players: Seq<NamedView>,
    activity: u64,
    sender: Seq<char>,
    position: i64,
    now: u64,
    count: int,
    place: int,
)
    requires
        0 <= place < count <= players.len(),
    ensures
        ({
            let after = sought(players, activity, sender, position, now, count).0;
            &&& after.len() == players.len()
            &&& players[place].player.owner != sender ==> after[place] == players[place]
            &&& players[place].player.owner == sender ==> {
                &&& after[place].name == players[place].name
                &&& position >= 0 ==> after[place].player.position == position
                &&& position < 0 ==> after[place].player.position == 0
                &&& after[place].player.anchor == now
                &&& after[place].player.status == players[place].player.status
                &&& after[place].player.track == players[place].player.track
                &&& after[place].player.rate == players[place].player.rate
            }
        }),
    decreases count,
{
    lemma_sought_rest(players, activity, sender, position, now, count - 1);
    if place < count - 1 {
        law_seeking_moves_the_sender(
            players,
            activity,
            sender,
            position,
            now,
            count - 1,
            place,
        );
    }
}

/// A player whose piece is not known once it has told of a change is asked for it, under
/// its name and at its connection, unless it has been asked already. One whose piece is
/// known is not asked.
pub proof fn law_unknown_pieces_are_asked_for(
    named: NamedView,
    properties: PlayerProperties,
    invalid: bool,
    now: u64,
    progress: i64,
    activity: u64,
)
    requires
        properties.any() || invalid,
    ensures
        ({
            let (player, count, request) = told(named, properties, invalid, now, progress, activity);
            &&& request is Some <==> player.track is None && !named.player.loading
            &&& request matches Some(request) ==> request.name == named.name && request.owner
                == named.player.owner && request.revision == player.revision && request.generation
                == named.player.generation
            &&& player.activity == count
            &&& player.revision == crate::counter::following(named.player.revision)
            &&& count == crate::counter::following(activity)
        }),
{
}

proof fn lemma_player_in(players: Seq<NamedView>, name: Seq<char>, start: int)
    requires
        0 <= start,
    ensures
        match player_in(players, name, start) {
            Some(place) => start <= place < players.len() && players[place].name == name,
            None => forall|i: int| start <= i < players.len() ==> (#[trigger] players[i]).name != name,
        },
    decreases players.len() - start,
{
    if start < players.len() && players[start].name != name {
        lemma_player_in(players, name, start + 1);
    }
}

/// A player that appears is followed from the beginning: stopped, without a piece, and asked
/// for what it is at under its name and at its connection. The player that had its name is
/// gone, and so is one that only disappears.
pub proof fn law_new_players_are_asked(
    players: Seq<NamedView>,
    activity: u64,
    epoch: u64,
    name: Seq<char>,
    owner: Seq<char>,
    now: u64,
)
    ensures
        ({
            let rest = without_player(players, name);
            let (after, count, request) = owned(players, activity, epoch, name, owner, now);
            &&& owner.len() == 0 ==> after == rest && count == activity && request is None
            &&& owner.len() > 0 && rest.len() < 64 ==> {
                &&& after.len() == rest.len() + 1
                &&& after.last().name == name
                &&& after.last().player.owner == owner
                &&& after.last().player.status == Status::Stopped
                &&& after.last().player.track is None
                &&& after.last().player.position == 0
                &&& after.last().player.generation == epoch
                &&& after.last().player.activity == count
                &&& after.last().player.loading
                &&& request is Some
                &&& request->0.name == name
                &&& request->0.owner == owner
                &&& request->0.generation == epoch
            }
            &&& rest.len() >= 64 ==> after == rest && request is None
        }),
        player_in(players, name, 0) is Some ==> without_player(players, name).len()
            == players.len() - 1,
        player_in(players, name, 0) is None ==> without_player(players, name) == players,
        player_in(players, name, 0) matches Some(place) ==> 0 <= place < players.len()
            && players[place].name == name,
{
    lemma_player_in(players, name, 0);
}

/// An answer that is current is taken over and the player is no longer waited for; one that
/// has been overtaken is dropped, and the player is asked again.
pub proof fn law_current_answers_are_taken_over(
    named: NamedView,
    revision: u64,
    properties: PlayerProperties,
    now: u64,
    progress: i64,
)
    ensures
        ({
            let (player, request) = answered(named, revision, Some(properties), now, progress);
            &&& revision == named.player.revision ==> !player.loading && request is None
            &&& revision == named.player.revision && properties.any() ==> player == applied(
                (PlayerView { loading: false, ..named.player }),
                properties,
                now,
                progress,
            )
            &&& revision != named.player.revision ==> player == (PlayerView {
                loading: true,
                ..named.player
            }) && request is Some && request->0.name == named.name && request->0.revision
                == named.player.revision && request->0.owner == named.player.owner
        }),
        revision == named.player.revision ==> answered(named, revision, None, now, progress).0 == (
        PlayerView { loading: false, ..named.player }),
{
}

/// The players among the names on the bus are those with the prefix of media players, in
/// their order, and at most 64 are followed.
pub proof fn law_players_have_the_prefix(names: Seq<Seq<char>>, place: int)
    ensures
        followed_names(names).len() <= 64,
        0 <= place < followed_names(names).len() ==> starts(followed_names(names)[place], PREFIX@)
            && names.contains(followed_names(names)[place]),
        0 <= place < names.len() && starts(names[place], PREFIX@) && player_names(
            names,
            names.len() as int,
        ).len() <= 64 ==> followed_names(names).contains(names[place]),
{
    lemma_player_names(names, names.len() as int);
    let all = player_names(names, names.len() as int);
    if 0 <= place < followed_names(names).len() {
        assert(followed_names(names)[place] == all[place]);
    }
}

proof fn lemma_player_names(names: Seq<Seq<char>>, count: int)
    requires
        0 <= count <= names.len(),
    ensures
        forall|k: int|
            0 <= k < player_names(names, count).len() ==> starts(
                #[trigger] player_names(names, count)[k],
                PREFIX@,
            ) && names.contains(player_names(names, count)[k]),
        forall|i: int|
            0 <= i < count && starts(#[trigger] names[i], PREFIX@) ==> player_names(
                names,
                count,
            ).contains(names[i]),
    decreases count,
{
    if count > 0 {
        lemma_player_names(names, count - 1);
        let before = player_names(names, count - 1);
        let all = player_names(names, count);
        assert forall|k: int| 0 <= k < all.len() implies starts(#[trigger] all[k], PREFIX@)
            && names.contains(all[k]) by {
            if k < before.len() {
                assert(all[k] == before[k]);
            } else {
                assert(all[k] == names[count - 1]);
            }
        }
        assert forall|i: int|
            0 <= i < count && starts(#[trigger] names[i], PREFIX@) implies all.contains(
            names[i],
        ) by {
            if i < count - 1 {
                let k = choose|k: int| 0 <= k < before.len() && before[k] == names[i];
                assert(all[k] == names[i]);
            } else {
                assert(all[all.len() - 1] == names[i]);
            }
        }
    }
}

/// A player is asked anew once what is shown of it is said to be no longer valid: its piece,
/// status, rate or position, and nothing else.
pub proof fn law_shown_properties_matter(keys: Seq<Seq<char>>, key: Seq<char>)
    ensures
        invalidates(Seq::empty()) == false,
        key == "Metadata"@ || key == "PlaybackStatus"@ || key == "Rate"@ || key == "Position"@
            ==> invalidates(keys.push(key)),
        key != "Metadata"@ && key != "PlaybackStatus"@ && key != "Rate"@ && key != "Position"@
            ==> invalidates(keys.push(key)) == invalidates(keys),
{
    let more = keys.push(key);
    assert(more[keys.len() as int] == key);
    if invalidates(keys) {
        let i = choose|i: int| 0 <= i < keys.len() && super::players::matters(#[trigger] keys[i]);
        assert(more[i] == keys[i]);
    }
    if invalidates(more) {
        let i = choose|i: int| 0 <= i < more.len() && super::players::matters(#[trigger] more[i]);
        assert(i < keys.len() ==> more[i] == keys[i]);
    }
}

} // verus!
