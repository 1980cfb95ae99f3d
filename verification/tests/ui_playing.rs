use navipod::player::{PlaybackState, RepeatMode};
use navipod::single::Single;
use navipod::subsonic::Track;
use navipod::ui::playing::{
    duration_secs, now_playing, queue_position, repeat_name, starred_after, CoverChange, Shown,
    StarChange, ALBUM_ART_SIZE,
};

fn single(x: f32) -> Single {
    Single { bits: x.to_bits() }
}

fn track(id: &str, cover: Option<&str>) -> Track {
    Track {
        id: id.to_string(),
        title: format!("Track {id}"),
        artist: Some("Artist".to_string()),
        album: None,
        duration: Some(245),
        cover_art: cover.map(|c| c.to_string()),
        track_number: None,
    }
}

fn state(t: Option<Track>) -> PlaybackState {
    let mut s = PlaybackState::initial();
    s.track = t;
    s
}

#[test]
fn nothing_playing_in_words() {
    let shown = now_playing(&state(None), single(0.0));
    assert_eq!(shown.title, "Not playing");
    assert_eq!((shown.artist.as_str(), shown.album.as_str()), ("", ""));
    assert_eq!((shown.elapsed_time.as_str(), shown.total_time.as_str()), ("0:00", "0:00"));
    assert_eq!(shown.repeat_mode, "off");
    assert_eq!(shown.queue_position, "");
    assert_eq!(shown.volume, single(0.7));
    assert!(!shown.is_playing && !shown.shuffle);
}

#[test]
fn a_track_in_words() {
    let mut s = state(Some(track("a", None)));
    s.is_playing = true;
    s.progress = single(0.5);
    s.queue = vec![track("a", None), track("b", None), track("c", None)];
    s.queue_index = 1;
    s.repeat = RepeatMode::All;
    s.shuffle = true;
    assert_eq!(duration_secs(&s), 245);
    let shown = now_playing(&s, single(0.5 * 245.0));
    assert_eq!(shown.title, "Track a");
    assert_eq!(shown.artist, "Artist");
    assert_eq!(shown.album, "");
    assert_eq!((shown.elapsed_time.as_str(), shown.total_time.as_str()), ("2:02", "4:05"));
    assert_eq!(shown.queue_position, "2 / 3");
    assert_eq!(shown.repeat_mode, "all");
    assert_eq!(shown.progress, single(0.5));
    assert!(shown.is_playing && shown.shuffle);
    assert_eq!(queue_position(&s), "2 / 3");
    assert_eq!(repeat_name(RepeatMode::One), "one");
    assert_eq!(ALBUM_ART_SIZE, 200);
}

#[test]
fn star_and_cover_change_with_the_track() {
    let mut shown = Shown::default();
    let (star, cover) = shown.observe(&state(None));
    assert!(matches!((star, cover), (StarChange::Keep, CoverChange::Keep)));
    match shown.observe(&state(Some(track("a", Some("co"))))) {
        (StarChange::LookUp(id), CoverChange::Fetch(cover)) => {
            assert_eq!((id.as_str(), cover.as_str()), ("a", "co"));
        }
        other => panic!("{other:?}"),
    }
    let (star, cover) = shown.observe(&state(Some(track("a", Some("co")))));
    assert!(matches!((star, cover), (StarChange::Keep, CoverChange::Keep)));
    match shown.observe(&state(Some(track("b", Some("co"))))) {
        (StarChange::LookUp(id), CoverChange::Keep) => assert_eq!(id, "b"),
        other => panic!("{other:?}"),
    }
    let (star, cover) = shown.observe(&state(Some(track("b", None))));
    assert!(matches!((star, cover), (StarChange::Keep, CoverChange::Clear)));
    let (star, cover) = shown.observe(&state(None));
    assert!(matches!((star, cover), (StarChange::Clear, CoverChange::Keep)));
    assert_eq!(shown.last_track_id, None);
}

#[test]
fn the_star_after_a_change() {
    assert!(starred_after(true, &StarChange::Keep, None));
    assert!(!starred_after(false, &StarChange::Keep, Some(true)));
    assert!(!starred_after(true, &StarChange::Clear, Some(true)));
    let other = StarChange::LookUp("a".to_string());
    assert!(starred_after(false, &other, Some(true)));
    assert!(!starred_after(true, &other, Some(false)));
    assert!(!starred_after(true, &other, None));
}
