use navipod::db::{
    favourite_row, resume_from_row, resume_from_table, resume_row, save_queue_statements,
    star_statement, starred_from_count, track_from_row, track_row, tracks_from_rows,
    unstar_statement, FavouriteRow, FavouriteStatement, QueueStatement, ResumeState, TrackRow,
};
use navipod::single::Single;
use navipod::subsonic::Track;
use std::collections::BTreeMap;

fn track(id: &str) -> Track {
    Track {
        id: id.to_string(),
        title: format!("Title {id}"),
        artist: Some("Artist".to_string()),
        album: None,
        duration: Some(61),
        cover_art: Some("co".to_string()),
        track_number: Some(7),
    }
}

fn assert_same(a: &Track, b: &Track) {
    assert_eq!(a.id, b.id);
    assert_eq!(a.title, b.title);
    assert_eq!(a.artist, b.artist);
    assert_eq!(a.album, b.album);
    assert_eq!(a.duration, b.duration);
    assert_eq!(a.cover_art, b.cover_art);
    assert_eq!(a.track_number, b.track_number);
}

#[test]
fn tracks_survive_their_rows() {
    let t = track("a");
    let row = track_row(&t);
    assert_eq!(row.track_id, "a");
    assert_same(&track_from_row(&row), &t);
}

/// The rows of a table, by position, after statements.
fn run(table: &mut BTreeMap<i64, TrackRow>, statements: Vec<QueueStatement>) {
    for statement in statements {
        match statement {
            QueueStatement::Clear => table.clear(),
            QueueStatement::Insert(row) => assert!(table.insert(row.position, row.track).is_none()),
        }
    }
}

#[test]
fn the_queue_saved_last_is_loaded() {
    let mut table = BTreeMap::new();
    run(&mut table, save_queue_statements(&vec![track("x"), track("y"), track("z"), track("w")]));
    let queue = vec![track("a"), track("b"), track("a")];
    let statements = save_queue_statements(&queue);
    assert!(matches!(statements[0], QueueStatement::Clear));
    assert_eq!(statements.len(), 4);
    run(&mut table, statements);
    assert_eq!(table.keys().copied().collect::<Vec<i64>>(), [0, 1, 2]);
    let back = tracks_from_rows(&table.values().map(|r| track_row(&track_from_row(r))).collect());
    assert_eq!(back.len(), 3);
    for (a, b) in back.iter().zip(queue.iter()) {
        assert_same(a, b);
    }
    run(&mut table, save_queue_statements(&vec![]));
    assert!(table.is_empty());
}

#[test]
fn preferences_that_were_never_saved() {
    assert!(resume_from_table(None).is_none());
}

#[test]
fn preferences_survive_their_row() {
    let state = ResumeState {
        queue_index: 5,
        progress: Single { bits: 0.25f32.to_bits() },
        volume: Single { bits: 0.7f32.to_bits() },
        shuffle: true,
        repeat_mode: "All".to_string(),
    };
    let row = resume_row(&state);
    assert_eq!(row.queue_index, 5);
    assert_eq!(row.shuffle, 1);
    assert_eq!(resume_from_row(&row).queue_index, 5);
    let back = resume_from_table(Some(row)).unwrap();
    assert_eq!(back.queue_index, 5);
    assert_eq!(back.progress, state.progress);
    assert_eq!(back.volume, state.volume);
    assert!(back.shuffle);
    assert_eq!(back.repeat_mode, "All");
}

#[test]
fn favourites_are_dated_and_counted() {
    let row = favourite_row(&track("a"), 1_700_000_000);
    assert_eq!(row.starred_at, 1_700_000_000);
    assert_eq!(row.track.title, "Title a");
    assert!(starred_from_count(1));
    assert!(!starred_from_count(0));
}

/// The favourites, by track id, after one statement more.
fn run_favourite(table: &mut BTreeMap<String, FavouriteRow>, statement: FavouriteStatement) {
    match statement {
        FavouriteStatement::Replace(row) => {
            table.insert(row.track.track_id.clone(), row);
        }
        FavouriteStatement::Delete(id) => {
            table.remove(&id);
        }
    }
}

/// The ids of the starred tracks, from the latest to the earliest.
fn starred(table: &BTreeMap<String, FavouriteRow>) -> Vec<String> {
    let mut rows: Vec<&FavouriteRow> = table.values().collect();
    rows.sort_by_key(|row| std::cmp::Reverse(row.starred_at));
    let rows = rows.iter().map(|row| track_row(&track_from_row(&row.track))).collect();
    tracks_from_rows(&rows).into_iter().map(|t| t.id).collect()
}

#[test]
fn the_last_call_about_a_track_decides() {
    let mut table = BTreeMap::new();
    run_favourite(&mut table, star_statement(&track("a"), 1));
    run_favourite(&mut table, star_statement(&track("b"), 2));
    run_favourite(&mut table, unstar_statement("a"));
    run_favourite(&mut table, unstar_statement("c"));
    assert_eq!(table.keys().cloned().collect::<Vec<String>>(), ["b"]);
    run_favourite(&mut table, star_statement(&track("a"), 3));
    assert!(starred_from_count(table.contains_key("a") as i64));
    assert!(!starred_from_count(table.contains_key("c") as i64));
}

#[test]
fn starred_tracks_are_listed_from_the_latest() {
    let mut table = BTreeMap::new();
    run_favourite(&mut table, star_statement(&track("a"), 1));
    run_favourite(&mut table, star_statement(&track("b"), 2));
    run_favourite(&mut table, star_statement(&track("c"), 3));
    assert_eq!(starred(&table), ["c", "b", "a"]);
    let renamed = Track { title: "New".to_string(), ..track("a") };
    run_favourite(&mut table, star_statement(&renamed, 4));
    assert_eq!(starred(&table), ["a", "c", "b"]);
    assert_eq!(table["a"].track.title, "New");
    assert_eq!(table["a"].starred_at, 4);
}
