use navipod::config::ServerConfig;
use navipod::player::{
    PlaybackState, Player, PlayerAction, PlayerCommand, RepeatMode, SinkReport,
};
use navipod::single::Single;
use navipod::subsonic::{Client, Track};

fn single(x: f32) -> Single {
    Single { bits: x.to_bits() }
}

fn track(id: &str) -> Track {
    Track {
        id: id.to_string(),
        title: format!("Track {id}"),
        artist: None,
        album: None,
        duration: Some(100),
        cover_art: None,
        track_number: None,
    }
}

fn tracks(n: usize) -> Vec<Track> {
    (0..n).map(|i| track(&i.to_string())).collect()
}

fn player() -> Player {
    Player::new(Client::new(ServerConfig {
        url: "http://h".to_string(),
        username: "joe".to_string(),
        password: "pw".to_string(),
        api_version: "1.16.1".to_string(),
    }))
}

fn playing(n: usize, start: usize) -> Player {
    let mut p = player();
    p.handle_command(PlayerCommand::PlayQueue { tracks: tracks(n), start_index: start });
    p.stream_loaded(true);
    p
}

fn current(p: &Player) -> &str {
    match &p.state().track {
        Some(t) => &t.id,
        None => "-",
    }
}

fn fetched(actions: &[PlayerAction]) -> Option<&str> {
    match actions {
        [PlayerAction::Publish, PlayerAction::DropSink, PlayerAction::Fetch { track, .. }] => {
            Some(&track.id)
        }
        [] => None,
        other => panic!("{other:?}"),
    }
}

#[test]
fn nothing_plays_at_first() {
    let p = player();
    let s: &PlaybackState = p.state();
    assert!(s.track.is_none());
    assert!(!s.is_playing);
    assert_eq!(s.progress, single(0.0));
    assert_eq!(s.volume, single(0.7));
    assert!(!s.shuffle);
    assert_eq!(s.repeat, RepeatMode::Off);
    assert_eq!(RepeatMode::default(), RepeatMode::Off);
    assert!(s.queue.is_empty());
    assert_eq!(p.client().cfg.username, "joe");
}

#[test]
fn a_track_is_shown_at_once_and_plays_when_its_stream_is_there() {
    let mut p = player();
    let actions = p.handle_command(PlayerCommand::Play(track("a")));
    assert_eq!(fetched(&actions), Some("a"));
    match &actions[2] {
        PlayerAction::Fetch { volume, .. } => assert_eq!(*volume, single(0.7)),
        other => panic!("{other:?}"),
    }
    assert_eq!(current(&p), "a");
    assert!(!p.state().is_playing);
    assert!(p.tick_progress(SinkReport::Finished).is_empty());
    assert_eq!(current(&p), "a");
    assert!(matches!(p.stream_loaded(true)[..], [PlayerAction::Publish]));
    assert!(p.state().is_playing);
}

#[test]
fn a_stream_that_failed_leaves_the_track_silent() {
    let mut p = player();
    p.handle_command(PlayerCommand::Play(track("a")));
    assert!(p.stream_loaded(false).is_empty());
    assert!(!p.state().is_playing);
    assert_eq!(current(&p), "a");
}

#[test]
fn next_and_previous_move_through_the_queue() {
    let mut p = playing(3, 1);
    assert_eq!(current(&p), "1");
    assert_eq!(fetched(&p.handle_command(PlayerCommand::Next)), Some("2"));
    assert_eq!(p.state().queue_index, 2);
    assert_eq!(fetched(&p.handle_command(PlayerCommand::Next)), None);
    assert_eq!(current(&p), "2");
    assert_eq!(fetched(&p.handle_command(PlayerCommand::Previous)), Some("1"));
    assert_eq!(fetched(&p.handle_command(PlayerCommand::Previous)), Some("0"));
    assert_eq!(fetched(&p.handle_command(PlayerCommand::Previous)), None);
    assert_eq!(p.state().queue.len(), 3);
}

#[test]
fn repeating_all_goes_round_both_ways() {
    let mut p = playing(3, 2);
    p.handle_command(PlayerCommand::CycleRepeat);
    assert_eq!(p.state().repeat, RepeatMode::All);
    assert_eq!(fetched(&p.handle_command(PlayerCommand::Next)), Some("0"));
    assert_eq!(fetched(&p.handle_command(PlayerCommand::Previous)), Some("2"));
    p.stream_loaded(true);
    assert_eq!(fetched(&p.tick_progress(SinkReport::Finished)), Some("0"));
}

#[test]
fn repeating_one_plays_the_track_again() {
    let mut p = playing(3, 1);
    p.handle_command(PlayerCommand::CycleRepeat);
    p.handle_command(PlayerCommand::CycleRepeat);
    assert_eq!(p.state().repeat, RepeatMode::One);
    assert_eq!(fetched(&p.tick_progress(SinkReport::Finished)), Some("1"));
    assert_eq!(fetched(&p.handle_command(PlayerCommand::Next)), Some("2"));
    assert_eq!(fetched(&p.handle_command(PlayerCommand::Next)), None);
    p.handle_command(PlayerCommand::CycleRepeat);
    assert_eq!(p.state().repeat, RepeatMode::Off);
}

#[test]
fn repeating_one_needs_a_queue() {
    let mut p = player();
    p.handle_command(PlayerCommand::Play(track("a")));
    p.stream_loaded(true);
    p.handle_command(PlayerCommand::CycleRepeat);
    assert!(p.can_tick(SinkReport::Finished));
    assert!(p.tick_progress(SinkReport::Finished).is_empty());
    p.handle_command(PlayerCommand::CycleRepeat);
    assert!(!p.can_tick(SinkReport::Finished));
    assert!(p.can_tick(SinkReport::Playing { ratio: single(0.5) }));
}

#[test]
fn a_queue_plays_in_order_and_ends() {
    let mut p = playing(2, 0);
    assert_eq!(fetched(&p.tick_progress(SinkReport::Finished)), Some("1"));
    p.stream_loaded(true);
    let actions = p.tick_progress(SinkReport::Finished);
    assert!(matches!(actions[..], [PlayerAction::Publish]));
    assert!(!p.state().is_playing);
    assert_eq!(p.state().progress, single(1.0));
    assert_eq!(current(&p), "1");
    assert!(p.tick_progress(SinkReport::Finished).is_empty());
}

#[test]
fn progress_follows_the_sound() {
    let mut p = playing(1, 0);
    let actions = p.tick_progress(SinkReport::Playing { ratio: single(0.25) });
    assert!(matches!(actions[..], [PlayerAction::Publish]));
    assert_eq!(p.state().progress, single(0.25));
    p.tick_progress(SinkReport::Playing { ratio: single(1.5) });
    assert_eq!(p.state().progress, single(1.0));
    let mut untimed = player();
    let mut t = track("a");
    t.duration = None;
    untimed.handle_command(PlayerCommand::Play(t));
    untimed.stream_loaded(true);
    assert!(untimed.tick_progress(SinkReport::Playing { ratio: single(0.5) }).is_empty());
    assert_eq!(untimed.state().progress, single(0.0));
}

#[test]
fn pause_resume_and_stop() {
    let mut p = playing(2, 0);
    let actions = p.handle_command(PlayerCommand::Pause);
    assert!(matches!(actions[..], [PlayerAction::PauseSink, PlayerAction::Publish]));
    assert!(!p.state().is_playing);
    assert!(p.tick_progress(SinkReport::Finished).is_empty());
    let actions = p.handle_command(PlayerCommand::Resume);
    assert!(matches!(actions[..], [PlayerAction::PlaySink, PlayerAction::Publish]));
    assert!(p.state().is_playing);
    let actions = p.handle_command(PlayerCommand::Stop);
    assert!(matches!(actions[..], [PlayerAction::DropSink, PlayerAction::Publish]));
    assert_eq!(current(&p), "-");
    assert_eq!(p.state().queue.len(), 2);
}

#[test]
fn volume_is_kept_within_its_range() {
    let mut p = player();
    for (wanted, kept) in [(0.3f32, 0.3f32), (1.3, 1.0), (-0.2, 0.0)] {
        let actions = p.handle_command(PlayerCommand::SetVolume(single(wanted)));
        match actions[..] {
            [PlayerAction::SetSinkVolume(v), PlayerAction::Publish] => assert_eq!(v, single(kept)),
            ref other => panic!("{other:?}"),
        }
        assert_eq!(p.state().volume, single(kept));
    }
}

#[test]
fn seeking_does_nothing() {
    let mut p = playing(2, 0);
    assert!(p.handle_command(PlayerCommand::SeekPercent(single(0.5))).is_empty());
    assert!(p.state().is_playing);
}

#[test]
fn shuffling_keeps_the_chosen_track_first_and_loses_none() {
    let mut p = player();
    p.handle_command(PlayerCommand::ToggleShuffle);
    assert!(p.state().shuffle);
    let mut moved = false;
    for _ in 0..20 {
        let actions =
            p.handle_command(PlayerCommand::PlayQueue { tracks: tracks(50), start_index: 17 });
        assert_eq!(fetched(&actions), Some("17"));
        assert_eq!(p.state().queue_index, 0);
        assert_eq!(p.state().queue[0].id, "17");
        let ids: Vec<&str> = p.state().queue.iter().map(|t| t.id.as_str()).collect();
        let mut plain: Vec<usize> = ids.iter().map(|id| id.parse().unwrap()).collect();
        let swapped: Vec<usize> = {
            let mut v: Vec<usize> = (0..50).collect();
            v.swap(0, 17);
            v
        };
        moved = moved || plain != swapped;
        plain.sort();
        assert_eq!(plain, (0..50).collect::<Vec<usize>>());
    }
    assert!(moved);
    p.handle_command(PlayerCommand::ToggleShuffle);
    p.handle_command(PlayerCommand::PlayQueue { tracks: tracks(50), start_index: 17 });
    assert_eq!(p.state().queue_index, 17);
    assert_eq!(p.state().queue[3].id, "3");
}

#[test]
fn copies_of_the_state_are_alike() {
    let p = playing(3, 1);
    let copy = p.state().clone();
    assert_eq!(copy.queue.len(), 3);
    assert_eq!(copy.queue_index, 1);
    assert!(copy.is_playing);
    assert_eq!(copy.track.unwrap().id, "1");
}

#[test]
fn levels_are_numbers_within_their_range() {
    let mut p = playing(1, 0);
    p.tick_progress(SinkReport::Playing { ratio: single(0.0f32 / 0.0) });
    assert_eq!(p.state().progress, single(0.0));
    p.tick_progress(SinkReport::Playing { ratio: single(f32::INFINITY) });
    assert_eq!(p.state().progress, single(1.0));
    p.handle_command(PlayerCommand::SetVolume(single(f32::NAN)));
    assert_eq!(p.state().volume, single(0.0));
}

#[test]
fn the_default_state_is_silent() {
    let s = PlaybackState::default();
    assert!(s.track.is_none() && !s.is_playing && s.queue.is_empty());
    assert_eq!(s.volume, single(0.0));
    assert_eq!(s.repeat, RepeatMode::Off);
}
