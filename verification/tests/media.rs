use nibari::media::players::{
    discoverable, fetch, selected, truncated_title, MediaPlayers, NamedPlayer, PLAYER,
};
use nibari::media::{
    clock, parse_track, Metadata, Player, PlayerProperties, Status, Track, NORMAL_RATE,
};

const SECOND: u64 = 1_000_000_000;

fn player(status: Status, position: i64, length: Option<i64>, now: u64) -> Player {
    let mut player = Player::new(":1.1".into(), now);
    player.status = status;
    player.position = position;
    player.track = Some(Track {
        title: "Song".into(),
        artist: "Artist".into(),
        length,
        id: None,
    });
    player
}

/// How far a player has come since its anchor, in microseconds.
fn progress(player: &Player, now: u64) -> i64 {
    let elapsed = (now - player.anchor) as f64 / 1e9;
    (elapsed * f64::from_bits(player.rate) * 1e6) as i64
}

fn position(player: &Player, now: u64) -> i64 {
    player.position_at(progress(player, now))
}

fn detail(player: &Player, now: u64) -> String {
    player.detail(progress(player, now))
}

fn properties() -> PlayerProperties {
    PlayerProperties {
        metadata: None,
        rate: None,
        status: None,
        position: None,
    }
}

fn with_status(status: &str) -> PlayerProperties {
    PlayerProperties {
        status: Some(Some(status.into())),
        ..properties()
    }
}

fn apply(player: &mut Player, properties: &PlayerProperties, now: u64) -> bool {
    let moved = progress(player, now);
    player.apply(properties, now, moved)
}

#[test]
fn elapsed_uses_monotonic_rate_then_freezes_on_pause() {
    let now = 100 * SECOND;
    let mut p = player(Status::Playing, 45_000_000, Some(160_000_000), now);
    p.rate = 2.0_f64.to_bits();
    let later = now + 2 * SECOND;
    assert_eq!(position(&p, later), 49_000_000);
    apply(&mut p, &with_status("Paused"), later);
    assert_eq!(position(&p, later + 90 * SECOND), 49_000_000);
    assert_eq!(detail(&p, later), "00:49 / 02:40 (31%) [Paused]");
}

#[test]
fn unknown_duration_and_clamped_positions_are_explicit() {
    let now = 100 * SECOND;
    let mut p = player(Status::Paused, 49_000_000, None, now);
    assert_eq!(detail(&p, now), "00:49 / --:-- [Paused]");
    p.track.as_mut().unwrap().length = Some(40_000_000);
    assert_eq!(detail(&p, now), "00:40 / 00:40 (100%) [Paused]");
    p.position = -100;
    assert_eq!(position(&p, now), 0);
}

fn named(name: &str, player: Player) -> NamedPlayer {
    NamedPlayer {
        name: name.into(),
        player,
    }
}

#[test]
fn title_is_limited_to_32_characters_without_limiting_artist() {
    let now = 100 * SECOND;
    let mut p = player(Status::Paused, 0, None, now);
    let track = p.track.as_mut().unwrap();
    track.artist = "A channel nickname that stays whole".into();
    track.title = "123456789012345678901234567890123".into();
    let mut players = MediaPlayers::new();
    players.players.push(named("spotify", p));
    assert!(players.publish(0));
    assert_eq!(
        players.shown.as_ref().unwrap().title,
        "A channel nickname that stays whole - 1234567890123456789012345678901…"
    );
    assert!(!players.publish(0));
}

#[test]
fn selection_prefers_status_then_activity_with_stable_name_tie() {
    let now = 100 * SECOND;
    let mut paused = player(Status::Paused, 0, None, now);
    paused.activity = 99;
    let mut players = vec![
        named("paused", paused),
        named("z-player", player(Status::Playing, 0, None, now)),
        named("a-player", player(Status::Playing, 0, None, now)),
    ];
    let shown = |players: &Vec<NamedPlayer>| players[selected(players).unwrap()].name.clone();
    assert_eq!(shown(&players), "a-player");
    players[1].player.activity = 1;
    assert_eq!(shown(&players), "z-player");
    players[1].player.track = None;
    assert_eq!(shown(&players), "a-player");
    assert_eq!(selected(&vec![]), None);
}

#[test]
fn seek_rate_change_and_stop_preserve_correct_anchor() {
    let now = 100 * SECOND;
    let mut p = player(Status::Playing, 10_000_000, None, now);
    let slower = PlayerProperties {
        rate: Some(Some(0.5_f64.to_bits())),
        ..properties()
    };
    apply(&mut p, &slower, now + 2 * SECOND);
    assert_eq!(position(&p, now + 4 * SECOND), 13_000_000);
    p.seek(70_000_000, now + 4 * SECOND);
    assert_eq!(position(&p, now + 6 * SECOND), 71_000_000);
    apply(&mut p, &with_status("Stopped"), now + 6 * SECOND);
    assert_eq!(position(&p, now + 20 * SECOND), 0);
}

#[test]
fn rates_that_are_no_numbers_are_ignored() {
    let mut p = player(Status::Playing, 0, None, 0);
    assert_eq!(f64::from_bits(NORMAL_RATE), 1.0);
    for rate in [f64::NAN, f64::INFINITY, 0.0, -0.0] {
        let odd = PlayerProperties {
            rate: Some(Some(rate.to_bits())),
            ..properties()
        };
        assert!(p.apply(&odd, 0, 0));
        assert_eq!(p.rate, NORMAL_RATE);
    }
    assert!(!p.apply(&properties(), 5, 0));
    assert_eq!(p.anchor, 0);
}

#[test]
fn tracks_need_a_title_or_an_artist() {
    let metadata = |title: Option<&str>, artists: &[&str]| Metadata {
        title: title.map(str::to_owned),
        artists: Some(artists.iter().map(|artist| (*artist).to_owned()).collect()),
        signed_length: Some(160_000_000),
        unsigned_length: None,
        id: Some("/track/1".into()),
    };
    let track = parse_track(&metadata(Some("Song"), &["One", " ", "Two"])).unwrap();
    assert_eq!(track.title, "Song");
    assert_eq!(track.artist, "One, Two");
    assert_eq!(track.length, Some(160_000_000));
    assert_eq!(parse_track(&metadata(None, &["One"])).unwrap().title, "");
    assert!(parse_track(&metadata(None, &[])).is_none());
    assert!(parse_track(&metadata(Some("  "), &[" "])).is_none());
}

#[test]
fn clocks_grow_to_hours() {
    assert_eq!(clock(0), "00:00");
    assert_eq!(clock(59_999_999), "00:59");
    assert_eq!(clock(160_000_000), "02:40");
    assert_eq!(clock(3_661_000_000), "01:01:01");
    assert_eq!(truncated_title("short"), "short");
}

fn playing() -> PlayerProperties {
    PlayerProperties {
        metadata: Some(Some(Metadata {
            title: Some("Song".into()),
            artists: Some(vec!["Artist".into()]),
            signed_length: None,
            unsigned_length: Some(160_000_000),
            id: None,
        })),
        rate: None,
        status: Some(Some("Playing".into())),
        position: Some(Some(45_000_000)),
    }
}

const NAME: &str = "org.mpris.MediaPlayer2.spotify";

#[test]
fn players_come_change_and_go() {
    let mut players = MediaPlayers::new();
    assert!(players
        .owner_changed("org.example.Other", ":1.2".into(), 0)
        .is_none());
    let request = players.owner_changed(NAME, ":1.7".into(), 0).unwrap();
    assert_eq!(request.owner, ":1.7");
    assert!(!players.publish(0));
    assert!(players
        .loaded(&request, &Some(playing()), SECOND, 0)
        .is_none());
    assert!(players.publish(0));
    assert_eq!(players.shown.as_ref().unwrap().title, "Artist - Song");
    assert_eq!(
        players.shown.as_ref().unwrap().detail,
        "00:45 / 02:40 (28%) [Playing]"
    );
    assert!(players.ticking());
    players.seeked(":1.7", 60_000_000, 2 * SECOND);
    assert!(players.publish(0));
    players.properties_changed(
        PLAYER,
        ":1.7",
        &with_status("Paused"),
        &vec![],
        3 * SECOND,
        &vec![0],
    );
    assert!(!players.ticking());
    assert!(players.owner_changed(NAME, String::new(), 4 * SECOND).is_none());
    assert_eq!(players.find(NAME), None);
    assert!(players.publish(0));
    assert!(players.shown.is_none());
}

#[test]
fn answers_for_an_earlier_owner_are_dropped() {
    let mut players = MediaPlayers::new();
    let stale = players.owner_changed(NAME, ":1.7".into(), 0).unwrap();
    players.owner_changed(NAME, ":1.8".into(), 0).unwrap();
    assert!(players
        .loaded(&stale, &Some(playing()), SECOND, 0)
        .is_none());
    assert!(!players.publish(0));
}

#[test]
fn discovered_names_are_those_of_players() {
    let names = vec!["org.example.Other".to_owned(), NAME.to_owned()];
    assert_eq!(discoverable(&names), [NAME]);
    let mut players = MediaPlayers::new();
    let request = players
        .discovered(NAME.into(), 0, Some(":1.7".into()), 0)
        .unwrap();
    assert_eq!(request.name, NAME);
    let again = players.find(NAME).unwrap();
    assert!(players.players[again].player.loading);
    let player = &mut players.players[again].player;
    assert!(fetch(&NAME.to_owned(), player).is_none());
    assert!(players.discovered(NAME.into(), 9, Some(":1.9".into()), 0).is_none());
}

#[test]
fn playing_players_go_forward() {
    let playing = player(Status::Playing, 5_000_000, Some(9_000_000), 0);
    let mut last = 0;
    for progress in [i64::MIN, -6_000_000, 0, 1, 3_999_999, 4_000_001, i64::MAX] {
        let position = playing.position_at(progress);
        assert!(position >= last, "{position} after {last}");
        last = position;
    }
    assert_eq!(last, 9_000_000);
    assert_eq!(playing.position_at(1), 5_000_001);
}
