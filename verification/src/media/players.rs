//! The media players on the session bus: all of them, and the one that is shown.

use vstd::prelude::*;

use super::{
    applied, at_position, detail_text, new_player, MediaSnapshot, MediaView, Player, PlayerProperties,
    PlayerView, Status, TITLE_LIMIT,
};
use crate::counter::{following, next_count};
use crate::niri::shorten;
use crate::order::{comes_before, lemma_text_order, lemma_text_transitive, text_before};
use crate::text::{chars_of, lemma_string_views_push, same_text, starts, string_views, strip_prefix};

verus! {

/// What the names of players start with.
pub const PREFIX: &'static str = "org.mpris.MediaPlayer2.";

/// The interface that players tell of their playing on.
pub const PLAYER: &'static str = "org.mpris.MediaPlayer2.Player";

/// The most players that are followed.
pub const MAX_PLAYERS: usize = 64;

/// A player under its name.
#[derive(Debug)]
pub struct NamedPlayer {
    pub name: String,
    pub player: Player,
}

/// The view of a player under its name.
pub ghost struct NamedView {
    pub name: Seq<char>,
    pub player: PlayerView,
}

impl View for NamedPlayer {
    type V = NamedView;

    open spec fn view(&self) -> NamedView {
        NamedView { name: self.name@, player: self.player@ }
    }
}

/// The views of some players.
pub open spec fn named_views(players: Seq<NamedPlayer>) -> Seq<NamedView> {
    Seq::new(players.len(), |i: int| players[i]@)
}

/// Whether a player is shown rather than another one: one with a higher
/// status, a later change, or an earlier name.
pub open spec fn shown_before(left: NamedView, right: NamedView) -> bool {
    let a = left.player;
    let b = right.player;
    a.status.rank() > b.status.rank() || (a.status == b.status && (a.activity > b.activity || (
    a.activity == b.activity && text_before(left.name, right.name))))
}

/// Whether a player is the one that is shown.
pub open spec fn is_selected(players: Seq<NamedView>, index: int) -> bool {
    &&& 0 <= index < players.len()
    &&& players[index].player.track is Some
    &&& forall|i: int|
        0 <= i < players.len() && i != index && (#[trigger] players[i]).player.track is Some
            ==> shown_before(players[index], players[i])
}

/// Whether no two players have the same name.
pub open spec fn distinct_names(players: Seq<NamedView>) -> bool {
    forall|i: int, j: int|
        0 <= i < j < players.len() ==> (#[trigger] players[i]).name != (
        #[trigger] players[j]).name
}

fn goes_before(left: &NamedPlayer, right: &NamedPlayer) -> (result: bool)
    ensures
        result == shown_before(left@, right@),
{
    let a: u8 = left.player.status.order();
    let b: u8 = right.player.status.order();
    if a != b {
        return a > b;
    }
    if left.player.activity != right.player.activity {
        return left.player.activity > right.player.activity;
    }
    comes_before(left.name.as_str(), right.name.as_str())
}

proof fn lemma_shown_transitive(a: NamedView, b: NamedView, c: NamedView)
    requires
        shown_before(a, b),
        shown_before(b, c),
    ensures
        shown_before(a, c),
{
    if a.player.status == b.player.status && b.player.status == c.player.status
        && a.player.activity == b.player.activity && b.player.activity == c.player.activity {
        lemma_text_transitive(a.name, b.name, c.name);
    }
}

proof fn lemma_shown_total(a: NamedView, b: NamedView)
    requires
        a.name != b.name,
    ensures
        shown_before(a, b) || shown_before(b, a),
{
    lemma_text_order(a.name, b.name);
}

/// The player that is shown, if any has a piece.
pub fn selected(players: &Vec<NamedPlayer>) -> (result: Option<usize>)
    requires
        distinct_names(named_views(players@)),
    ensures
        match result {
            Some(index) => is_selected(named_views(players@), index as int),
            None => forall|i: int|
                0 <= i < players@.len() ==> (#[trigger] named_views(
                    players@,
                )[i]).player.track is None,
        },
{
    let ghost views = named_views(players@);
    let mut best: Option<usize> = None;
    let mut i: usize = 0;
    while i < players.len()
        invariant
            i <= players@.len(),
            views == named_views(players@),
            distinct_names(views),
            match best {
                Some(index) => {
                    &&& index < i
                    &&& views[index as int].player.track is Some
                    &&& forall|k: int|
                        0 <= k < i && k != index && (#[trigger] views[k]).player.track is Some
                            ==> shown_before(views[index as int], views[k])
                },
                None => forall|k: int|
                    0 <= k < i ==> (#[trigger] views[k]).player.track is None,
            },
        decreases players@.len() - i,
    {
        if players[i].player.track.is_some() {
            let better = match best {
                Some(index) => goes_before(&players[i], &players[index]),
                None => true,
            };
            proof {
                if let Some(index) = best {
                    assert(views[index as int].name != views[i as int].name);
                    lemma_shown_total(views[index as int], views[i as int]);
                    if better {
                        assert forall|k: int|
                            0 <= k < i + 1 && k != i && (
                            #[trigger] views[k]).player.track is Some implies shown_before(
                            views[i as int],
                            views[k],
                        ) by {
                            if k != index {
                                lemma_shown_transitive(
                                    views[i as int],
                                    views[index as int],
                                    views[k],
                                );
                            }
                        }
                    }
                }
            }
            if better {
                best = Some(i);
            }
        }
        i += 1;
    }
    best
}

/// There is at most one player that is shown.
pub proof fn law_one_player_is_shown(players: Seq<NamedView>, first: int, second: int)
    requires
        is_selected(players, first),
        is_selected(players, second),
    ensures
        first == second,
{
    if first != second {
        let a = players[first];
        let b = players[second];
        assert(shown_before(a, b));
        assert(shown_before(b, a));
        lemma_text_order(a.name, b.name);
    }
}

/// A playing player is shown rather than any that does not play.
pub proof fn law_playing_players_come_first(players: Seq<NamedView>, index: int, other: int)
    requires
        is_selected(players, index),
        0 <= other < players.len(),
        players[other].player.track is Some,
        players[other].player.status == Status::Playing,
    ensures
        players[index].player.status == Status::Playing,
{
    if index != other {
        assert(shown_before(players[index], players[other]));
    }
}

/// A title as it is shown.
pub open spec fn short_title(title: Seq<char>) -> Seq<char> {
    if title.len() > TITLE_LIMIT {
        title.take(TITLE_LIMIT - 1).push('…')
    } else {
        title
    }
}

pub fn truncated_title(title: &str) -> (result: String)
    ensures
        result@ == short_title(title@),
{
    let characters = chars_of(title);
    if characters.len() > TITLE_LIMIT {
        shorten(characters.as_slice(), TITLE_LIMIT - 1)
    } else {
        shorten(characters.as_slice(), TITLE_LIMIT)
    }
}

/// A title fits, whatever its length.
pub proof fn law_titles_are_short(title: Seq<char>)
    ensures
        short_title(title).len() <= TITLE_LIMIT,
        title.len() <= TITLE_LIMIT ==> short_title(title) == title,
{
}

/// The line of artist and title.
pub open spec fn title_line(artist: Seq<char>, title: Seq<char>) -> Seq<char> {
    if artist.len() > 0 && title.len() > 0 {
        artist + " - "@ + short_title(title)
    } else if artist.len() > 0 {
        artist
    } else {
        short_title(title)
    }
}

/// What is shown of a player.
pub open spec fn snapshot_of(player: PlayerView, progress: i64) -> Option<MediaView> {
    match player.track {
        Some(track) => Some(
            MediaView {
                title: title_line(track.artist, track.title),
                detail: detail_text(player, progress),
            },
        ),
        None => None,
    }
}

/// The view of what is shown, if anything is.
pub open spec fn media_view(snapshot: Option<MediaSnapshot>) -> Option<MediaView> {
    match snapshot {
        Some(snapshot) => Some(snapshot@),
        None => None,
    }
}

fn line_of(artist: &String, title: &String) -> (result: String)
    ensures
        result@ == title_line(artist@, title@),
{
    let unnamed = chars_of(artist.as_str()).len() == 0;
    let untitled = chars_of(title.as_str()).len() == 0;
    if unnamed {
        return truncated_title(title.as_str());
    }
    let mut line = artist.clone();
    if !untitled {
        line.append(" - ");
        let short = truncated_title(title.as_str());
        line.append(short.as_str());
    }
    line
}

fn show(player: &Player, progress: i64) -> (result: Option<MediaSnapshot>)
    requires
        player.wf(),
    ensures
        media_view(result) == snapshot_of(player@, progress),
{
    match &player.track {
        Some(track) => Some(
            MediaSnapshot {
                title: line_of(&track.artist, &track.title),
                detail: player.detail(progress),
            },
        ),
        None => None,
    }
}

/// A player that is to be asked for its properties.
#[derive(Debug)]
pub struct FetchRequest {
    pub name: String,
    pub owner: String,
    pub generation: u64,
    pub revision: u64,
}

/// The view of a request.
pub ghost struct RequestView {
    pub name: Seq<char>,
    pub owner: Seq<char>,
    pub generation: u64,
    pub revision: u64,
}

impl View for FetchRequest {
    type V = RequestView;

    open spec fn view(&self) -> RequestView {
        RequestView {
            name: self.name@,
            owner: self.owner@,
            generation: self.generation,
            revision: self.revision,
        }
    }
}

/// The view of a request that may be missing.
pub open spec fn request_view(request: Option<FetchRequest>) -> Option<RequestView> {
    match request {
        Some(request) => Some(request@),
        None => None,
    }
}

/// The views of some requests.
pub open spec fn request_views(requests: Seq<FetchRequest>) -> Seq<RequestView> {
    Seq::new(requests.len(), |i: int| requests[i]@)
}

/// A player, and the request for its properties, unless there already is one.
pub open spec fn fetched(name: Seq<char>, player: PlayerView) -> (PlayerView, Option<RequestView>) {
    if player.loading {
        (player, None)
    } else {
        (
            PlayerView { loading: true, ..player },
            Some(
                RequestView {
                    name,
                    owner: player.owner,
                    generation: player.generation,
                    revision: player.revision,
                },
            ),
        )
    }
}

/// Asks a player for its properties, unless it has been asked.
pub fn fetch(name: &String, player: &mut Player) -> (result: Option<FetchRequest>)
    requires
        old(player).wf(),
    ensures
        final(player).wf(),
        (final(player)@, request_view(result)) == fetched(name@, old(player)@),
{
    if player.loading {
        return None;
    }
    player.loading = true;
    Some(
        FetchRequest {
            name: name.clone(),
            owner: player.owner.clone(),
            generation: player.generation,
            revision: player.revision,
        },
    )
}

/// The names of players among the first `count` names.
pub open spec fn player_names(names: Seq<Seq<char>>, count: int) -> Seq<Seq<char>>
    decreases count,
{
    if count <= 0 {
        Seq::empty()
    } else {
        let before = player_names(names, count - 1);
        if starts(names[count - 1], PREFIX@) {
            before.push(names[count - 1])
        } else {
            before
        }
    }
}

/// The names of the players that are followed.
pub open spec fn followed_names(names: Seq<Seq<char>>) -> Seq<Seq<char>> {
    let all = player_names(names, names.len() as int);
    if all.len() > MAX_PLAYERS {
        all.take(MAX_PLAYERS as int)
    } else {
        all
    }
}

proof fn lemma_player_names_grow(names: Seq<Seq<char>>, early: int, late: int)
    requires
        0 <= early <= late,
    ensures
        player_names(names, early).len() <= player_names(names, late).len(),
        player_names(names, late).take(player_names(names, early).len() as int) == player_names(
            names,
            early,
        ),
    decreases late,
{
    let head = player_names(names, early);
    if early < late {
        lemma_player_names_grow(names, early, late - 1);
        let before = player_names(names, late - 1);
        let after = player_names(names, late);
        assert(after.take(head.len() as int) =~= before.take(head.len() as int));
    } else {
        assert(head.take(head.len() as int) =~= head);
    }
}

fn is_player_name(name: &str) -> (result: bool)
    ensures
        result == starts(name@, PREFIX@),
{
    let characters = chars_of(name);
    strip_prefix(characters.as_slice(), PREFIX).is_some()
}

/// The players to look up at the start.
pub fn discoverable(names: &Vec<String>) -> (result: Vec<String>)
    ensures
        string_views(result@) == followed_names(string_views(names@)),
{
    let ghost all = string_views(names@);
    let mut kept: Vec<String> = Vec::new();
    let mut i: usize = 0;
    assert(string_views(kept@) =~= Seq::<Seq<char>>::empty());
    while i < names.len() && kept.len() < MAX_PLAYERS
        invariant
            i <= names@.len(),
            all == string_views(names@),
            kept@.len() <= MAX_PLAYERS,
            string_views(kept@) == player_names(all, i as int),
        decreases names@.len() - i,
    {
        if is_player_name(names[i].as_str()) {
            let name = names[i].clone();
            proof {
                lemma_string_views_push(kept@, name);
            }
            kept.push(name);
        }
        i += 1;
    }
    proof {
        lemma_player_names_grow(all, i as int, all.len() as int);
        let every = player_names(all, all.len() as int);
        assert(every.take(every.len() as int) =~= every);
        assert(string_views(kept@).len() == kept@.len());
    }
    kept
}

/// How often a name has changed hands.
#[derive(Debug)]
pub struct NamedEpoch {
    pub name: String,
    pub epoch: u64,
}

/// How often a name has changed hands, from a place of the list on.
pub open spec fn epoch_in(epochs: Seq<NamedEpoch>, name: Seq<char>, start: int) -> u64
    decreases epochs.len() - start,
{
    if start < 0 || start >= epochs.len() {
        0
    } else if epochs[start].name@ == name {
        epochs[start].epoch
    } else {
        epoch_in(epochs, name, start + 1)
    }
}

/// Where the player of a name is, from a place of the list on.
pub open spec fn player_in(players: Seq<NamedView>, name: Seq<char>, start: int) -> Option<int>
    decreases players.len() - start,
{
    if start < 0 || start >= players.len() {
        None
    } else if players[start].name == name {
        Some(start)
    } else {
        player_in(players, name, start + 1)
    }
}

/// The players without the one of a name.
pub open spec fn without_player(players: Seq<NamedView>, name: Seq<char>) -> Seq<NamedView> {
    match player_in(players, name, 0) {
        Some(index) => players.remove(index),
        None => players,
    }
}

proof fn lemma_player_in(players: Seq<NamedView>, name: Seq<char>, start: int)
    requires
        0 <= start,
    ensures
        match player_in(players, name, start) {
            Some(index) => start <= index < players.len() && players[index].name == name,
            None => forall|i: int|
                start <= i < players.len() ==> (#[trigger] players[i]).name != name,
        },
    decreases players.len() - start,
{
    if start < players.len() && players[start].name != name {
        lemma_player_in(players, name, start + 1);
    }
}

proof fn lemma_without_player(players: Seq<NamedView>, name: Seq<char>)
    requires
        distinct_names(players),
    ensures
        distinct_names(without_player(players, name)),
        forall|i: int|
            0 <= i < without_player(players, name).len() ==> (#[trigger] without_player(
                players,
                name,
            )[i]).name != name,
{
    lemma_player_in(players, name, 0);
    if let Some(index) = player_in(players, name, 0) {
        let rest = players.remove(index);
        assert forall|i: int| 0 <= i < rest.len() implies (#[trigger] rest[i]).name != name by {
            if i < index {
                assert(rest[i] == players[i]);
            } else {
                assert(rest[i] == players[i + 1]);
            }
        }
        assert forall|i: int, j: int| 0 <= i < j < rest.len() implies (#[trigger] rest[i]).name
            != (#[trigger] rest[j]).name by {
            let a: int = if i < index {
                i
            } else {
                i + 1
            };
            let b: int = if j < index {
                j
            } else {
                j + 1
            };
            assert(rest[i] == players[a] && rest[j] == players[b]);
        }
    }
}

/// A player once it has told of changes, the number of changes so far, and the
/// request that follows. Properties that are no longer valid hide the piece.
pub open spec fn told(
    named: NamedView,
    properties: PlayerProperties,
    invalid: bool,
    now: u64,
    progress: i64,
    activity: u64,
) -> (PlayerView, u64, Option<RequestView>) {
    let relevant = properties.any();
    let heard = if relevant {
        applied(named.player, properties, now, progress)
    } else {
        named.player
    };
    let shown = if invalid {
        PlayerView { track: None, ..heard }
    } else {
        heard
    };
    if relevant || invalid {
        let count = following(activity);
        let marked = PlayerView {
            revision: following(shown.revision),
            activity: count,
            ..shown
        };
        if invalid || marked.track is None {
            let (asked, request) = fetched(named.name, marked);
            (asked, count, request)
        } else {
            (marked, count, None)
        }
    } else {
        (shown, activity, None)
    }
}

/// What a message of a sender has led to, for the first `count` players.
pub ghost struct Heard {
    pub players: Seq<NamedView>,
    pub activity: u64,
    pub requests: Seq<RequestView>,
}

/// The players once the first `count` of them have heard of a message.
pub open spec fn heard(
    players: Seq<NamedView>,
    activity: u64,
    sender: Seq<char>,
    properties: PlayerProperties,
    invalid: bool,
    now: u64,
    progress: Seq<i64>,
    count: int,
) -> Heard
    decreases count,
{
    if count <= 0 {
        Heard { players, activity, requests: Seq::empty() }
    } else {
        let before = heard(
            players,
            activity,
            sender,
            properties,
            invalid,
            now,
            progress,
            count - 1,
        );
        let named = players[count - 1];
        if named.player.owner == sender {
            let (player, counted, request) = told(
                named,
                properties,
                invalid,
                now,
                progress[count - 1],
                before.activity,
            );
            Heard {
                players: before.players.update(
                    count - 1,
                    NamedView { name: named.name, player },
                ),
                activity: counted,
                requests: match request {
                    Some(request) => before.requests.push(request),
                    None => before.requests,
                },
            }
        } else {
            before
        }
    }
}

/// The players once the first `count` of them have heard of a new position.
pub open spec fn sought(
    players: Seq<NamedView>,
    activity: u64,
    sender: Seq<char>,
    position: i64,
    now: u64,
    count: int,
) -> (Seq<NamedView>, u64)
    decreases count,
{
    if count <= 0 {
        (players, activity)
    } else {
        let before = sought(players, activity, sender, position, now, count - 1);
        let named = players[count - 1];
        if named.player.owner == sender {
            let counted = following(before.1);
            (
                before.0.update(
                    count - 1,
                    NamedView {
                        name: named.name,
                        player: PlayerView {
                            anchor: now,
                            revision: following(named.player.revision),
                            activity: counted,
                            ..at_position(named.player, position)
                        },
                    },
                ),
                counted,
            )
        } else {
            before
        }
    }
}

pub proof fn lemma_heard_rest(
    players: Seq<NamedView>,
    activity: u64,
    sender: Seq<char>,
    properties: PlayerProperties,
    invalid: bool,
    now: u64,
    progress: Seq<i64>,
    count: int,
)
    requires
        0 <= count <= players.len(),
    ensures
        ({
            let after = heard(
                players,
                activity,
                sender,
                properties,
                invalid,
                now,
                progress,
                count,
            ).players;
            &&& after.len() == players.len()
            &&& forall|i: int| count <= i < players.len() ==> after[i] == players[i]
            &&& forall|i: int|
                0 <= i < players.len() ==> (#[trigger] after[i]).name == players[i].name
        }),
    decreases count,
{
    if count > 0 {
        lemma_heard_rest(
            players,
            activity,
            sender,
            properties,
            invalid,
            now,
            progress,
            count - 1,
        );
    }
}

pub proof fn lemma_sought_rest(
    players: Seq<NamedView>,
    activity: u64,
    sender: Seq<char>,
    position: i64,
    now: u64,
    count: int,
)
    requires
        0 <= count <= players.len(),
    ensures
        ({
            let after = sought(players, activity, sender, position, now, count).0;
            &&& after.len() == players.len()
            &&& forall|i: int| count <= i < players.len() ==> after[i] == players[i]
            &&& forall|i: int|
                0 <= i < players.len() ==> (#[trigger] after[i]).name == players[i].name
        }),
    decreases count,
{
    if count > 0 {
        lemma_sought_rest(players, activity, sender, position, now, count - 1);
    }
}

/// Whether any of the properties that matter is among those that are no longer valid.
pub open spec fn invalidates(keys: Seq<Seq<char>>) -> bool {
    exists|i: int|
        0 <= i < keys.len() && matters(#[trigger] keys[i])
}

/// Whether a property matters.
pub open spec fn matters(key: Seq<char>) -> bool {
    key == "Metadata"@ || key == "PlaybackStatus"@ || key == "Rate"@ || key == "Position"@
}

fn any_invalid(keys: &Vec<String>) -> (result: bool)
    ensures
        result == invalidates(string_views(keys@)),
{
    let mut i: usize = 0;
    while i < keys.len()
        invariant
            i <= keys@.len(),
            forall|k: int| 0 <= k < i ==> !matters(#[trigger] string_views(keys@)[k]),
        decreases keys@.len() - i,
    {
        let key = keys[i].as_str();
        if same_text(key, "Metadata") || same_text(key, "PlaybackStatus") || same_text(key, "Rate")
            || same_text(key, "Position") {
            assert(matters(string_views(keys@)[i as int]));
            return true;
        }
        i += 1;
    }
    false
}

proof fn lemma_epoch_update(
    epochs: Seq<NamedEpoch>,
    place: int,
    entry: NamedEpoch,
    name: Seq<char>,
    start: int,
)
    requires
        0 <= start <= epochs.len(),
        0 <= place < epochs.len(),
        epochs[place].name@ == entry.name@,
        forall|i: int| 0 <= i < place ==> (#[trigger] epochs[i]).name@ != entry.name@,
    ensures
        epoch_in(epochs.update(place, entry), name, start) == (if name == entry.name@ && start
            <= place {
            entry.epoch
        } else {
            epoch_in(epochs, name, start)
        }),
    decreases epochs.len() - start,
{
    if start < epochs.len() {
        lemma_epoch_update(epochs, place, entry, name, start + 1);
    }
}

proof fn lemma_epoch_push(
    epochs: Seq<NamedEpoch>,
    entry: NamedEpoch,
    name: Seq<char>,
    start: int,
)
    requires
        0 <= start <= epochs.len(),
        forall|i: int| 0 <= i < epochs.len() ==> (#[trigger] epochs[i]).name@ != entry.name@,
    ensures
        epoch_in(epochs.push(entry), name, start) == (if name == entry.name@ {
            entry.epoch
        } else {
            epoch_in(epochs, name, start)
        }),
    decreases epochs.len() - start,
{
    if start < epochs.len() {
        lemma_epoch_push(epochs, entry, name, start + 1);
    } else {
        assert(epoch_in(epochs.push(entry), name, start + 1) == 0);
    }
}

/// Counts that a name has changed hands.
fn count_owner(epochs: &mut Vec<NamedEpoch>, name: &str) -> (result: u64)
    ensures
        result == following(epoch_in(old(epochs)@, name@, 0)),
        forall|other: Seq<char>|
            epoch_in(final(epochs)@, other, 0) == (if other == name@ {
                result
            } else {
                epoch_in(old(epochs)@, other, 0)
            }),
{
    let mut i: usize = 0;
    while i < epochs.len()
        invariant
            i <= epochs@.len(),
            epochs@ == old(epochs)@,
            forall|k: int| 0 <= k < i ==> (#[trigger] epochs@[k]).name@ != name@,
            epoch_in(epochs@, name@, 0) == epoch_in(epochs@, name@, i as int),
        decreases epochs@.len() - i,
    {
        if same_text(epochs[i].name.as_str(), name) {
            let epoch: u64 = next_count(epochs[i].epoch);
            let entry = NamedEpoch { name: name.to_owned(), epoch };
            proof {
                assert forall|other: Seq<char>|
                    epoch_in(epochs@.update(i as int, entry), other, 0) == (if other == name@ {
                        epoch
                    } else {
                        epoch_in(old(epochs)@, other, 0)
                    }) by {
                    lemma_epoch_update(epochs@, i as int, entry, other, 0);
                }
            }
            epochs.set(i, entry);
            return epoch;
        }
        i += 1;
    }
    let epoch: u64 = next_count(0);
    let entry = NamedEpoch { name: name.to_owned(), epoch };
    proof {
        assert forall|other: Seq<char>|
            epoch_in(epochs@.push(entry), other, 0) == (if other == name@ {
                epoch
            } else {
                epoch_in(old(epochs)@, other, 0)
            }) by {
            lemma_epoch_push(epochs@, entry, other, 0);
        }
    }
    epochs.push(entry);
    epoch
}

/// The players that are followed.
#[derive(Debug)]
pub struct MediaPlayers {
    pub players: Vec<NamedPlayer>,
    pub epochs: Vec<NamedEpoch>,
    /// The number of changes that players have told of.
    pub activity: u64,
    /// What was last shown.
    pub shown: Option<MediaSnapshot>,
}

impl MediaPlayers {
    pub open spec fn wf(&self) -> bool {
        &&& distinct_names(self.player_views())
        &&& self.players@.len() <= MAX_PLAYERS
        &&& forall|i: int| 0 <= i < self.players@.len() ==> (#[trigger] self.players@[i]).player.wf()
    }

    /// The players that are followed, in the order in which they came.
    pub open spec fn player_views(&self) -> Seq<NamedView> {
        named_views(self.players@)
    }

    /// How often a name has changed hands.
    pub open spec fn epoch(&self, name: Seq<char>) -> u64 {
        epoch_in(self.epochs@, name, 0)
    }

    pub fn new() -> (result: Self)
        ensures
            result.wf(),
            result.player_views() == Seq::<NamedView>::empty(),
            forall|name: Seq<char>| result.epoch(name) == 0,
            result.activity == 0,
            result.shown is None,
    {
        MediaPlayers { players: Vec::new(), epochs: Vec::new(), activity: 0, shown: None }
    }

    pub fn find(&self, name: &str) -> (result: Option<usize>)
        ensures
            match result {
                Some(index) => player_in(self.player_views(), name@, 0) == Some(index as int) && index
                    < self.players@.len(),
                None => player_in(self.player_views(), name@, 0) is None,
            },
    {
        let mut i: usize = 0;
        while i < self.players.len()
            invariant
                i <= self.players@.len(),
                player_in(self.player_views(), name@, 0) == player_in(self.player_views(), name@, i as int),
            decreases self.players@.len() - i,
        {
            if same_text(self.players[i].name.as_str(), name) {
                return Some(i);
            }
            i += 1;
        }
        None
    }

    fn epoch_of(&self, name: &str) -> (result: u64)
        ensures
            result == self.epoch(name@),
    {
        let mut i: usize = 0;
        while i < self.epochs.len()
            invariant
                i <= self.epochs@.len(),
                self.epoch(name@) == epoch_in(self.epochs@, name@, i as int),
            decreases self.epochs@.len() - i,
        {
            if same_text(self.epochs[i].name.as_str(), name) {
                return self.epochs[i].epoch;
            }
            i += 1;
        }
        0
    }
}

/// The players and the request once a name has a new owner, or none.
pub open spec fn owned(
    players: Seq<NamedView>,
    activity: u64,
    epoch: u64,
    name: Seq<char>,
    owner: Seq<char>,
    now: u64,
) -> (Seq<NamedView>, u64, Option<RequestView>) {
    let rest = without_player(players, name);
    if owner.len() > 0 && rest.len() < MAX_PLAYERS {
        let counted = following(activity);
        let (player, request) = fetched(
            name,
            PlayerView { generation: epoch, activity: counted, ..new_player(owner, now) },
        );
        (rest.push(NamedView { name, player }), counted, request)
    } else {
        (rest, activity, None)
    }
}

/// The player once its properties have come, and the request that follows if
/// it has told of a change meanwhile.
pub open spec fn answered(
    named: NamedView,
    revision: u64,
    properties: Option<PlayerProperties>,
    now: u64,
    progress: i64,
) -> (PlayerView, Option<RequestView>) {
    let idle = PlayerView { loading: false, ..named.player };
    if idle.revision != revision {
        fetched(named.name, idle)
    } else {
        match properties {
            Some(properties) => if properties.any() {
                (applied(idle, properties, now, progress), None)
            } else {
                (idle, None)
            },
            None => (idle, None),
        }
    }
}

fn same_media(left: &Option<MediaSnapshot>, right: &Option<MediaSnapshot>) -> (result: bool)
    ensures
        result == (media_view(*left) == media_view(*right)),
{
    match (left, right) {
        (Some(left), Some(right)) => same_text(left.title.as_str(), right.title.as_str())
            && same_text(left.detail.as_str(), right.detail.as_str()),
        (None, None) => true,
        _ => false,
    }
}

impl MediaPlayers {
    /// Whether everything but the players and the count of changes is as it was.
    pub open spec fn keeps_rest(&self, other: &MediaPlayers) -> bool {
        self.epochs@ == other.epochs@ && self.shown == other.shown
    }

    fn insert(&mut self, name: String, player: Player)
        requires
            old(self).wf(),
            player.wf(),
            old(self).players@.len() < MAX_PLAYERS,
            player_in(old(self).player_views(), name@, 0) is None,
        ensures
            final(self).wf(),
            final(self).player_views() == old(self).player_views().push(
                (NamedView { name: name@, player: player@ }),
            ),
            final(self).keeps_rest(old(self)),
            final(self).activity == old(self).activity,
    {
        proof {
            lemma_player_in(self.player_views(), name@, 0);
        }
        self.players.push(NamedPlayer { name, player });
        assert(self.player_views() =~= old(self).player_views().push(
            (NamedView { name: name@, player: player@ }),
        ));
    }

    /// A name on the bus has a new owner; an empty one means that it has none.
    pub fn owner_changed(&mut self, name: &str, owner: String, now: u64) -> (result: Option<
        FetchRequest,
    >)
        requires
            old(self).wf(),
        ensures
            final(self).wf(),
            !starts(name@, PREFIX@) ==> *final(self) == *old(self) && result is None,
            starts(name@, PREFIX@) ==> {
                let epoch = following(old(self).epoch(name@));
                &&& (final(self).player_views(), final(self).activity, request_view(result)) == owned(
                    old(self).player_views(),
                    old(self).activity,
                    epoch,
                    name@,
                    owner@,
                    now,
                )
                &&& forall|other: Seq<char>|
                    final(self).epoch(other) == (if other == name@ {
                        epoch
                    } else {
                        old(self).epoch(other)
                    })
                &&& final(self).shown == old(self).shown
            },
    {
        if !is_player_name(name) {
            return None;
        }
        let epoch: u64 = count_owner(&mut self.epochs, name);
        proof {
            lemma_without_player(self.player_views(), name@);
            lemma_player_in(self.player_views(), name@, 0);
        }
        if let Some(index) = self.find(name) {
            self.players.remove(index);
            assert(self.player_views() =~= old(self).player_views().remove(index as int));
        }
        assert(self.player_views() == without_player(old(self).player_views(), name@));
        proof {
            lemma_player_in(self.player_views(), name@, 0);
        }
        if chars_of(owner.as_str()).len() == 0 || self.players.len() >= MAX_PLAYERS {
            return None;
        }
        self.activity = next_count(self.activity);
        let mut player = Player::new(owner, now);
        player.generation = epoch;
        player.activity = self.activity;
        let name = name.to_owned();
        let request = fetch(&name, &mut player);
        self.insert(name, player);
        request
    }

    /// A name that was there at the start has an owner. It counts unless the
    /// name has changed hands since.
    pub fn discovered(&mut self, name: String, epoch: u64, owner: Option<String>, now: u64) -> (result:
        Option<FetchRequest>)
        requires
            old(self).wf(),
        ensures
            final(self).wf(),
            final(self).keeps_rest(old(self)),
            final(self).activity == old(self).activity,
            match owner {
                Some(owner) => if old(self).epoch(name@) == epoch && player_in(
                    old(self).player_views(),
                    name@,
                    0,
                ) is None && old(self).players@.len() < MAX_PLAYERS {
                    let (player, request) = fetched(name@, new_player(owner@, now));
                    &&& final(self).player_views() == old(self).player_views().push(
                        (NamedView { name: name@, player }),
                    )
                    &&& request_view(result) == request
                } else {
                    final(self).player_views() == old(self).player_views() && result is None
                },
                None => final(self).player_views() == old(self).player_views() && result is None,
            },
    {
        match owner {
            Some(owner) => {
                if self.epoch_of(name.as_str()) != epoch || self.find(name.as_str()).is_some()
                    || self.players.len() >= MAX_PLAYERS {
                    return None;
                }
                let mut player = Player::new(owner, now);
                let request = fetch(&name, &mut player);
                self.insert(name, player);
                request
            },
            None => None,
        }
    }
}

/// Takes over what a player told of, and what follows.
fn tell(
    name: &String,
    player: &mut Player,
    properties: &PlayerProperties,
    invalid: bool,
    now: u64,
    progress: i64,
    activity: u64,
) -> (result: (u64, Option<FetchRequest>))
    requires
        old(player).wf(),
    ensures
        final(player).wf(),
        (final(player)@, result.0, request_view(result.1)) == told(
            (NamedView { name: name@, player: old(player)@ }),
            *properties,
            invalid,
            now,
            progress,
            activity,
        ),
{
    let relevant = player.apply(properties, now, progress);
    if invalid {
        player.track = None;
    }
    if !relevant && !invalid {
        return (activity, None);
    }
    let count: u64 = next_count(activity);
    player.revision = next_count(player.revision);
    player.activity = count;
    if invalid || player.track.is_none() {
        (count, fetch(name, player))
    } else {
        (count, None)
    }
}

impl MediaPlayers {
    /// A player has told of changed properties, and of some that are no longer
    /// valid. `progress` is how far playing on has led each of the players.
    pub fn properties_changed(
        &mut self,
        interface: &str,
        sender: &str,
        properties: &PlayerProperties,
        invalidated: &Vec<String>,
        now: u64,
        progress: &Vec<i64>,
    ) -> (result: Vec<FetchRequest>)
        requires
            old(self).wf(),
            progress@.len() == old(self).players@.len(),
        ensures
            final(self).wf(),
            final(self).keeps_rest(old(self)),
            interface@ != PLAYER@ ==> *final(self) == *old(self) && result@.len() == 0,
            interface@ == PLAYER@ ==> (Heard {
                players: final(self).player_views(),
                activity: final(self).activity,
                requests: request_views(result@),
            }) == heard(
                old(self).player_views(),
                old(self).activity,
                sender@,
                *properties,
                invalidates(string_views(invalidated@)),
                now,
                progress@,
                old(self).players@.len() as int,
            ),
    {
        let mut requests: Vec<FetchRequest> = Vec::new();
        if !same_text(interface, PLAYER) {
            return requests;
        }
        let invalid = any_invalid(invalidated);
        let ghost before = self.player_views();
        let ghost start = self.activity;
        let mut i: usize = 0;
        assert(request_views(requests@) =~= Seq::<RequestView>::empty());
        while i < self.players.len()
            invariant
                i <= self.players@.len(),
                self.wf(),
                self.keeps_rest(old(self)),
                before.len() == self.players@.len(),
                progress@.len() == before.len(),
                (Heard {
                    players: self.player_views(),
                    activity: self.activity,
                    requests: request_views(requests@),
                }) == heard(
                    before,
                    start,
                    sender@,
                    *properties,
                    invalid,
                    now,
                    progress@,
                    i as int,
                ),
            decreases self.players@.len() - i,
        {
            proof {
                lemma_heard_rest(
                    before,
                    start,
                    sender@,
                    *properties,
                    invalid,
                    now,
                    progress@,
                    i as int,
                );
                lemma_heard_rest(
                    before,
                    start,
                    sender@,
                    *properties,
                    invalid,
                    now,
                    progress@,
                    i + 1,
                );
                assert(self.player_views()[i as int] == before[i as int]);
            }
            if same_text(self.players[i].player.owner.as_str(), sender) {
                let ghost current = self.player_views();
                let mut named = self.players.remove(i);
                let (activity, request) = tell(
                    &named.name,
                    &mut named.player,
                    properties,
                    invalid,
                    now,
                    progress[i],
                    self.activity,
                );
                self.activity = activity;
                let ghost after = named@;
                self.players.insert(i, named);
                assert(self.player_views() =~= current.update(i as int, after));
                if let Some(request) = request {
                    let ghost earlier = request_views(requests@);
                    requests.push(request);
                    assert(request_views(requests@) =~= earlier.push(request@));
                }
            }
            i += 1;
        }
        requests
    }

    /// A player has moved to another position.
    pub fn seeked(&mut self, sender: &str, position: i64, now: u64)
        requires
            old(self).wf(),
        ensures
            final(self).wf(),
            final(self).keeps_rest(old(self)),
            (final(self).player_views(), final(self).activity) == sought(
                old(self).player_views(),
                old(self).activity,
                sender@,
                position,
                now,
                old(self).players@.len() as int,
            ),
    {
        let ghost before = self.player_views();
        let ghost start = self.activity;
        let mut i: usize = 0;
        while i < self.players.len()
            invariant
                i <= self.players@.len(),
                self.wf(),
                self.keeps_rest(old(self)),
                before.len() == self.players@.len(),
                (self.player_views(), self.activity) == sought(
                    before,
                    start,
                    sender@,
                    position,
                    now,
                    i as int,
                ),
            decreases self.players@.len() - i,
        {
            proof {
                lemma_sought_rest(before, start, sender@, position, now, i as int);
                lemma_sought_rest(before, start, sender@, position, now, i + 1);
                assert(self.player_views()[i as int] == before[i as int]);
            }
            if same_text(self.players[i].player.owner.as_str(), sender) {
                let ghost current = self.player_views();
                let mut named = self.players.remove(i);
                named.player.seek(position, now);
                named.player.revision = next_count(named.player.revision);
                self.activity = next_count(self.activity);
                named.player.activity = self.activity;
                let ghost after = named@;
                self.players.insert(i, named);
                assert(self.player_views() =~= current.update(i as int, after));
            }
            i += 1;
        }
    }

    /// The properties of a player have come, or could not be had. They count if
    /// the name has not changed hands since they were asked for.
    pub fn loaded(
        &mut self,
        request: &FetchRequest,
        properties: &Option<PlayerProperties>,
        now: u64,
        progress: i64,
    ) -> (result: Option<FetchRequest>)
        requires
            old(self).wf(),
        ensures
            final(self).wf(),
            final(self).keeps_rest(old(self)),
            final(self).activity == old(self).activity,
            match player_in(old(self).player_views(), request.name@, 0) {
                Some(index) => {
                    let named = old(self).player_views()[index];
                    if named.player.owner == request.owner@ && named.player.generation
                        == request.generation {
                        let (player, again) = answered(
                            named,
                            request.revision,
                            *properties,
                            now,
                            progress,
                        );
                        &&& final(self).player_views() == old(self).player_views().update(
                            index,
                            (NamedView { name: named.name, player }),
                        )
                        &&& request_view(result) == again
                    } else {
                        final(self).player_views() == old(self).player_views() && result is None
                    }
                },
                None => final(self).player_views() == old(self).player_views() && result is None,
            },
    {
        let index = match self.find(request.name.as_str()) {
            Some(index) => index,
            None => return None,
        };
        assert(self.player_views()[index as int] == self.players@[index as int]@);
        if !same_text(self.players[index].player.owner.as_str(), request.owner.as_str())
            || self.players[index].player.generation != request.generation {
            return None;
        }
        let ghost current = self.player_views();
        let mut named = self.players.remove(index);
        named.player.loading = false;
        let again = if named.player.revision != request.revision {
            fetch(&named.name, &mut named.player)
        } else {
            if let Some(properties) = properties {
                named.player.apply(properties, now, progress);
            }
            None
        };
        let ghost after = named@;
        self.players.insert(index, named);
        assert(self.player_views() =~= current.update(index as int, after));
        again
    }

    /// Whether what is shown changes with time.
    pub fn ticking(&self) -> (result: bool)
        requires
            self.wf(),
        ensures
            result == exists|i: int|
                is_selected(self.player_views(), i) && self.player_views()[i].player.status == Status::Playing,
    {
        match selected(&self.players) {
            Some(index) => {
                let playing = self.players[index].player.status == Status::Playing;
                proof {
                    assert(self.player_views()[index as int] == self.players@[index as int]@);
                    assert forall|i: int| is_selected(self.player_views(), i) implies i == index by {
                        law_one_player_is_shown(self.player_views(), i, index as int);
                    }
                }
                playing
            },
            None => false,
        }
    }

    /// Shows the selected player, which playing on has led by `progress`, and
    /// tells whether that is anything new.
    pub fn publish(&mut self, progress: i64) -> (result: bool)
        requires
            old(self).wf(),
        ensures
            final(self).wf(),
            final(self).player_views() == old(self).player_views(),
            final(self).epochs@ == old(self).epochs@,
            final(self).activity == old(self).activity,
            result == (media_view(final(self).shown) != media_view(old(self).shown)),
            forall|i: int|
                is_selected(old(self).player_views(), i) ==> media_view(final(self).shown) == snapshot_of(
                    old(self).player_views()[i].player,
                    progress,
                ),
            (forall|i: int| !is_selected(old(self).player_views(), i)) ==> final(self).shown is None,
    {
        let current = match selected(&self.players) {
            Some(index) => {
                proof {
                    assert(self.player_views()[index as int] == self.players@[index as int]@);
                    assert forall|i: int| is_selected(self.player_views(), i) implies i == index by {
                        law_one_player_is_shown(self.player_views(), i, index as int);
                    }
                }
                show(&self.players[index].player, progress)
            },
            None => None,
        };
        if same_media(&current, &self.shown) {
            return false;
        }
        self.shown = current;
        true
    }
}

/// A player that changed hands never takes over an answer to its former owner.
pub proof fn law_stale_answers_are_dropped(
    players: Seq<NamedView>,
    activity: u64,
    epoch: u64,
    name: Seq<char>,
    owner: Seq<char>,
    now: u64,
    request: RequestView,
)
    requires
        request.name == name,
        request.generation != epoch,
        distinct_names(players),
    ensures
        ({
            let after = owned(players, activity, epoch, name, owner, now).0;
            player_in(after, name, 0) matches Some(index) ==> after[index].player.generation
                != request.generation
        }),
{
    lemma_without_player(players, name);
    let after = owned(players, activity, epoch, name, owner, now).0;
    lemma_player_in(after, name, 0);
}

/// Players that are no longer valid are not shown until they have told of
/// their piece again.
pub proof fn law_invalid_players_are_hidden(
    named: NamedView,
    properties: PlayerProperties,
    now: u64,
    progress: i64,
    activity: u64,
)
    ensures
        told(named, properties, true, now, progress, activity).0.track is None,
        told(named, properties, true, now, progress, activity).0.loading,
{
}

} // verus!
