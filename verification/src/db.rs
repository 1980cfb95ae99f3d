//! The rows in which the queue, the playback preferences and the favourites are
//! kept.

use vstd::prelude::*;

use crate::single::Single;
use crate::subsonic::{Track, TrackView};

verus! {

/// Persisted playback preferences, kept beside the queue.
#[derive(Debug)]
pub struct ResumeState {
    pub queue_index: usize,
    /// 0.0 – 1.0 (informational; seek not yet supported)
    pub progress: Single,
    pub volume: Single,
    pub shuffle: bool,
    /// "None" | "One" | "All"
    pub repeat_mode: String,
}

/// A row of `resume_state`. There is only one, with the id 1.
#[derive(Debug)]
pub struct ResumeRow {
    pub queue_index: i64,
    pub progress: Single,
    pub volume: Single,
    pub shuffle: i64,
    pub repeat_mode: String,
}

/// The columns of a track, in `queue_tracks` and in `favourites`.
#[derive(Debug)]
pub struct TrackRow {
    pub track_id: String,
    pub title: String,
    pub artist: Option<String>,
    pub album: Option<String>,
    pub duration: Option<u32>,
    pub cover_art: Option<String>,
    pub track_number: Option<u32>,
}

/// A row of `queue_tracks`, which is read in the order of the positions.
#[derive(Debug)]
pub struct QueueRow {
    pub position: i64,
    pub track: TrackRow,
}

/// A row of `favourites`, which is keyed by the track's id and read from the
/// latest to the earliest.
#[derive(Debug)]
pub struct FavouriteRow {
    pub track: TrackRow,
    pub starred_at: i64,
}

pub struct FavouriteView {
    pub track: TrackView,
    pub starred_at: i64,
}

pub struct QueueRowView {
    pub position: i64,
    pub track: TrackView,
}

pub struct ResumeView {
    pub queue_index: usize,
    pub progress: Single,
    pub volume: Single,
    pub shuffle: bool,
    pub repeat_mode: Seq<char>,
}

pub struct ResumeRowView {
    pub queue_index: i64,
    pub progress: Single,
    pub volume: Single,
    pub shuffle: i64,
    pub repeat_mode: Seq<char>,
}

impl DeepView for ResumeState {
    type V = ResumeView;

    open spec fn deep_view(&self) -> ResumeView {
        ResumeView {
            queue_index: self.queue_index,
            progress: self.progress,
            volume: self.volume,
            shuffle: self.shuffle,
            repeat_mode: self.repeat_mode@,
        }
    }
}

impl DeepView for ResumeRow {
    type V = ResumeRowView;

    open spec fn deep_view(&self) -> ResumeRowView {
        ResumeRowView {
            queue_index: self.queue_index,
            progress: self.progress,
            volume: self.volume,
            shuffle: self.shuffle,
            repeat_mode: self.repeat_mode@,
        }
    }
}

/// The row of some preferences: integers of the database's width, one and zero
/// for true and false.
pub open spec fn resume_row_of(state: ResumeView) -> ResumeRowView {
    ResumeRowView {
        queue_index: state.queue_index as i64,
        progress: state.progress,
        volume: state.volume,
        shuffle: if state.shuffle {
            1
        } else {
            0
        },
        repeat_mode: state.repeat_mode,
    }
}

/// The preferences that a row stands for.
pub open spec fn resume_of(row: ResumeRowView) -> ResumeView {
    ResumeView {
        queue_index: row.queue_index as usize,
        progress: row.progress,
        volume: row.volume,
        shuffle: row.shuffle != 0,
        repeat_mode: row.repeat_mode,
    }
}

/// A row stands for the track with the same fields.
impl DeepView for TrackRow {
    type V = TrackView;

    open spec fn deep_view(&self) -> TrackView {
        TrackView {
            id: self.track_id@,
            title: self.title@,
            artist: self.artist.deep_view(),
            album: self.album.deep_view(),
            duration: self.duration,
            cover_art: self.cover_art.deep_view(),
            track_number: self.track_number,
        }
    }
}

impl DeepView for FavouriteRow {
    type V = FavouriteView;

    open spec fn deep_view(&self) -> FavouriteView {
        FavouriteView { track: self.track.deep_view(), starred_at: self.starred_at }
    }
}

impl DeepView for QueueRow {
    type V = QueueRowView;

    open spec fn deep_view(&self) -> QueueRowView {
        QueueRowView { position: self.position, track: self.track.deep_view() }
    }
}

/// The rows of a queue: its tracks, numbered from zero.
pub open spec fn queue_rows_of(tracks: Seq<TrackView>) -> Seq<QueueRowView> {
    Seq::new(tracks.len(), |i: int| QueueRowView { position: i as i64, track: tracks[i] })
}

/// The row of a track.
pub fn track_row(track: &Track) -> (r: TrackRow)
    ensures
        r.deep_view() == track.deep_view(),
{
    TrackRow {
        track_id: track.id.clone(),
        title: track.title.clone(),
        artist: track.artist.clone(),
        album: track.album.clone(),
        duration: track.duration,
        cover_art: track.cover_art.clone(),
        track_number: track.track_number,
    }
}

/// The track in a row.
pub fn track_from_row(row: &TrackRow) -> (r: Track)
    ensures
        r.deep_view() == row.deep_view(),
{
    Track {
        id: row.track_id.clone(),
        title: row.title.clone(),
        artist: row.artist.clone(),
        album: row.album.clone(),
        duration: row.duration,
        cover_art: row.cover_art.clone(),
        track_number: row.track_number,
    }
}

/// A statement on `queue_tracks`.
#[derive(Debug)]
pub enum QueueStatement {
    /// Delete every row.
    Clear,
    /// Insert a row at a position that is free.
    Insert(QueueRow),
}

pub enum QueueStatementView {
    Clear,
    Insert(QueueRowView),
}

impl DeepView for QueueStatement {
    type V = QueueStatementView;

    open spec fn deep_view(&self) -> QueueStatementView {
        match self {
            QueueStatement::Clear => QueueStatementView::Clear,
            QueueStatement::Insert(row) => QueueStatementView::Insert(row.deep_view()),
        }
    }
}

/// The statements that put a queue in the place of whatever was kept before.
pub open spec fn save_queue_of(tracks: Seq<TrackView>) -> Seq<QueueStatementView> {
    seq![QueueStatementView::Clear] + Seq::new(
        tracks.len(),
        |i: int| QueueStatementView::Insert(queue_rows_of(tracks)[i]),
    )
}

/// `queue_tracks`, by its primary key, after statements that all succeeded.
pub open spec fn queue_table_after(
    table: Map<i64, TrackView>,
    statements: Seq<QueueStatementView>,
) -> Map<i64, TrackView>
    decreases statements.len(),
{
    if statements.len() == 0 {
        table
    } else {
        let before = queue_table_after(table, statements.drop_last());
        match statements.last() {
            QueueStatementView::Clear => Map::empty(),
            QueueStatementView::Insert(row) => before.insert(row.position, row.track),
        }
    }
}

/// The rows are those of the table, each once, in the order of their positions.
pub open spec fn rows_in_order(table: Map<i64, TrackView>, read: Seq<QueueRowView>) -> bool {
    &&& forall|i: int, j: int|
        0 <= i < j < read.len() ==> #[trigger] read[i].position < #[trigger] read[j].position
    &&& forall|i: int|
        0 <= i < read.len() ==> table.dom().contains((#[trigger] read[i]).position)
            && table[read[i].position] == read[i].track
    &&& forall|p: int|
        i64::MIN <= p <= i64::MAX && #[trigger] table.dom().contains(p as i64)
            ==> has_position(read, p)
}

/// A row with this position is among those that were read.
pub open spec fn has_position(read: Seq<QueueRowView>, p: int) -> bool {
    exists|j: int| 0 <= j < read.len() && (#[trigger] read[j]).position == p
}

/// The statements that put a queue in the place of whatever was kept before.
pub fn save_queue_statements(tracks: &Vec<Track>) -> (r: Vec<QueueStatement>)
    ensures
        r.deep_view() == save_queue_of(tracks.deep_view()),
{
    let ghost want = save_queue_of(tracks.deep_view());
    let mut statements: Vec<QueueStatement> = Vec::new();
    statements.push(QueueStatement::Clear);
    let n: usize = tracks.len();
    let mut i: usize = 0;
    while i < n
        invariant
            i <= n == tracks@.len(),
            want == save_queue_of(tracks.deep_view()),
            statements@.len() == i + 1,
            forall|j: int| 0 <= j <= i ==> (#[trigger] statements@[j]).deep_view() == want[j],
        decreases n - i,
    {
        let row: QueueRow = QueueRow { position: i as i64, track: track_row(&tracks[i]) };
        assert(row.deep_view() == queue_rows_of(tracks.deep_view())[i as int]);
        statements.push(QueueStatement::Insert(row));
        assert(want[i + 1] == QueueStatementView::Insert(row.deep_view()));
        i = i + 1;
    }
    assert(want.len() == n + 1);
    assert(statements.deep_view() =~= want);
    statements
}

/// The tracks in rows that were read in order.
pub fn tracks_from_rows(rows: &Vec<TrackRow>) -> (r: Vec<Track>)
    ensures
        r.deep_view() == rows.deep_view(),
{
    let mut tracks: Vec<Track> = Vec::new();
    let n: usize = rows.len();
    let mut i: usize = 0;
    while i < n
        invariant
            i <= n == rows@.len(),
            tracks@.len() == i,
            forall|j: int|
                0 <= j < i ==> (#[trigger] tracks@[j]).deep_view() == rows.deep_view()[j],
        decreases n - i,
    {
        tracks.push(track_from_row(&rows[i]));
        i = i + 1;
    }
    assert(tracks.deep_view() =~= rows.deep_view());
    tracks
}

/// The row that keeps a favourite, starred so many seconds after the epoch.
pub open spec fn favourite_of(track: TrackView, epoch_seconds: u64) -> FavouriteView {
    FavouriteView { track, starred_at: epoch_seconds as i64 }
}

/// The row that keeps a favourite, starred so many seconds after the epoch.
pub fn favourite_row(track: &Track, epoch_seconds: u64) -> (r: FavouriteRow)
    ensures
        r.deep_view() == favourite_of(track.deep_view(), epoch_seconds),
{
    FavouriteRow { track: track_row(track), starred_at: epoch_seconds as i64 }
}

/// A statement on `favourites`.
#[derive(Debug)]
pub enum FavouriteStatement {
    /// Insert a row, in the place of the one with its track's id.
    Replace(FavouriteRow),
    /// Delete the row with this track's id, if there is one.
    Delete(String),
}

pub enum FavouriteStatementView {
    Replace(FavouriteView),
    Delete(Seq<char>),
}

impl DeepView for FavouriteStatement {
    type V = FavouriteStatementView;

    open spec fn deep_view(&self) -> FavouriteStatementView {
        match self {
            FavouriteStatement::Replace(row) => FavouriteStatementView::Replace(row.deep_view()),
            FavouriteStatement::Delete(id) => FavouriteStatementView::Delete(id@),
        }
    }
}

/// The statement that stars a track, so many seconds after the epoch.
pub fn star_statement(track: &Track, epoch_seconds: u64) -> (r: FavouriteStatement)
    ensures
        r.deep_view() == FavouriteStatementView::Replace(
            favourite_of(track.deep_view(), epoch_seconds),
        ),
{
    FavouriteStatement::Replace(favourite_row(track, epoch_seconds))
}

/// The statement that takes the star from a track.
pub fn unstar_statement(track_id: &str) -> (r: FavouriteStatement)
    ensures
        r.deep_view() == FavouriteStatementView::Delete(track_id@),
{
    FavouriteStatement::Delete(track_id.to_string())
}

/// The id of the track that a statement is about.
pub open spec fn named_by(statement: FavouriteStatementView) -> Seq<char> {
    match statement {
        FavouriteStatementView::Replace(row) => row.track.id,
        FavouriteStatementView::Delete(id) => id,
    }
}

/// `favourites`, by its primary key, after statements that all succeeded.
pub open spec fn favourites_after(
    table: Map<Seq<char>, FavouriteView>,
    statements: Seq<FavouriteStatementView>,
) -> Map<Seq<char>, FavouriteView>
    decreases statements.len(),
{
    if statements.len() == 0 {
        table
    } else {
        let before = favourites_after(table, statements.drop_last());
        match statements.last() {
            FavouriteStatementView::Replace(row) => before.insert(row.track.id, row),
            FavouriteStatementView::Delete(id) => before.remove(id),
        }
    }
}

/// How many rows of the table have an id, of which its primary key allows one.
pub open spec fn count_of(table: Map<Seq<char>, FavouriteView>, id: Seq<char>) -> i64 {
    if table.dom().contains(id) {
        1
    } else {
        0
    }
}

/// The statement at a place is the last one about a track.
pub open spec fn is_last_about(
    statements: Seq<FavouriteStatementView>,
    id: Seq<char>,
    k: int,
) -> bool {
    &&& 0 <= k < statements.len()
    &&& named_by(statements[k]) == id
    &&& forall|j: int| k < j < statements.len() ==> named_by(#[trigger] statements[j]) != id
}

/// Some statement is the last one about a track.
pub open spec fn was_named(statements: Seq<FavouriteStatementView>, id: Seq<char>) -> bool {
    exists|k: int| is_last_about(statements, id, k)
}

/// The rows are those of the table, each once, from the latest to the earliest.
pub open spec fn favourites_in_order(
    table: Map<Seq<char>, FavouriteView>,
    read: Seq<FavouriteView>,
) -> bool {
    &&& forall|i: int, j: int|
        0 <= i < j < read.len() ==> (#[trigger] read[i]).starred_at >= (
        #[trigger] read[j]).starred_at && read[i].track.id != read[j].track.id
    &&& forall|i: int|
        0 <= i < read.len() ==> table.dom().contains((#[trigger] read[i]).track.id)
            && table[read[i].track.id] == read[i]
    &&& forall|id: Seq<char>| #[trigger] table.dom().contains(id) ==> has_favourite(read, id)
}

/// A row with this track's id is among those that were read.
pub open spec fn has_favourite(read: Seq<FavouriteView>, id: Seq<char>) -> bool {
    exists|j: int| 0 <= j < read.len() && (#[trigger] read[j]).track.id == id
}

/// Each starring is dated later than those before it.
pub open spec fn dated_in_turn(statements: Seq<FavouriteStatementView>) -> bool {
    forall|j: int, k: int|
        0 <= j < k < statements.len() ==> (match (#[trigger] statements[j], #[trigger] statements[k]) {
            (
                FavouriteStatementView::Replace(earlier),
                FavouriteStatementView::Replace(later),
            ) => earlier.starred_at < later.starred_at,
            _ => true,
        })
}

/// Whether a track with so many rows among the favourites is one.
pub fn starred_from_count(count: i64) -> (r: bool)
    ensures
        r == (count > 0),
{
    count > 0
}

/// The row that keeps the preferences.
pub fn resume_row(state: &ResumeState) -> (r: ResumeRow)
    ensures
        r.deep_view() == resume_row_of(state.deep_view()),
{
    ResumeRow {
        queue_index: state.queue_index as i64,
        progress: state.progress,
        volume: state.volume,
        shuffle: if state.shuffle {
            1
        } else {
            0
        },
        repeat_mode: state.repeat_mode.clone(),
    }
}

/// `resume_state` after the preferences were saved so many times, from an empty
/// table on: each row replaces the one with its id, and all have the same.
pub open spec fn resume_table_after(saved: Seq<ResumeView>) -> Option<ResumeRowView> {
    if saved.len() == 0 {
        None
    } else {
        Some(resume_row_of(saved.last()))
    }
}

/// What is read from `resume_state`.
pub open spec fn loaded_resume(table: Option<ResumeRowView>) -> Option<ResumeView> {
    match table {
        Some(row) => Some(resume_of(row)),
        None => None,
    }
}

/// The preferences in the row that was read, where there was one.
pub fn resume_from_table(row: Option<ResumeRow>) -> (r: Option<ResumeState>)
    ensures
        r.deep_view() == loaded_resume(row.deep_view()),
{
    match row {
        Some(row) => Some(resume_from_row(&row)),
        None => None,
    }
}

/// The preferences in a row.
pub fn resume_from_row(row: &ResumeRow) -> (r: ResumeState)
    ensures
        r.deep_view() == resume_of(row.deep_view()),
{
    ResumeState {
        queue_index: row.queue_index as usize,
        progress: row.progress,
        volume: row.volume,
        shuffle: row.shuffle != 0,
        repeat_mode: row.repeat_mode.clone(),
    }
}

// ── Laws ─────────────────────────────────────────────────────────────────────

/// The preferences are read as they were written.
pub proof fn law_resume_survives(state: ResumeView)
    ensures
        resume_of(resume_row_of(state)) == state,
{
    let i = state.queue_index;
    assert((i as i64) as usize == i) by (bit_vector);
}

/// The queue that was saved last is the one that is read, track by track and in its
/// order, whatever was kept before: the rows that the saving leaves, in the order
/// of their positions, hold its tracks and no others.
pub proof fn law_saved_queue_is_loaded(
    table: Map<i64, TrackView>,
    tracks: Seq<TrackView>,
    read: Seq<QueueRowView>,
)
    requires
        tracks.len() <= i64::MAX,
        rows_in_order(queue_table_after(table, save_queue_of(tracks)), read),
    ensures
        read.map_values(|r: QueueRowView| r.track) == tracks,
{
    let n = tracks.len();
    let saved = queue_table_after(table, save_queue_of(tracks));
    lemma_table_of_queue(table, tracks, n as int);
    assert(save_queue_of(tracks).take(n as int + 1) =~= save_queue_of(tracks));
    if read.len() > 0 {
        lemma_positions(saved, read, n as int, read.len() - 1);
    }
    if read.len() < n {
        let p = read.len() as int;
        assert(saved.dom().contains(p as i64));
        assert(has_position(read, p));
    }
    if read.len() > n {
        assert(saved.dom().contains(read[n as int].position));
    }
    assert(read.map_values(|r: QueueRowView| r.track) =~= tracks) by {
        assert forall|i: int| 0 <= i < n implies read[i].track == tracks[i] by {
            assert(saved.dom().contains(read[i].position));
            assert(saved[i as i64] == tracks[i]);
        }
    }
}

/// After the first `k` rows of a queue were inserted, the table holds these alone.
proof fn lemma_table_of_queue(table: Map<i64, TrackView>, tracks: Seq<TrackView>, k: int)
    requires
        0 <= k <= tracks.len() <= i64::MAX,
    ensures
        ({
            let t = queue_table_after(table, save_queue_of(tracks).take(k + 1));
            &&& forall|p: i64| #[trigger] t.dom().contains(p) <==> 0 <= p < k
            &&& forall|p: i64| 0 <= p < k ==> #[trigger] t[p] == tracks[p as int]
        }),
    decreases k,
{
    let statements = save_queue_of(tracks).take(k + 1);
    assert(statements.drop_last() =~= save_queue_of(tracks).take(k));
    if k > 0 {
        lemma_table_of_queue(table, tracks, k - 1);
        let row = queue_rows_of(tracks)[k - 1];
        assert(row.position == k - 1 && row.track == tracks[k - 1]);
        assert(statements.last() == save_queue_of(tracks)[k]);
        assert(statements.last() == QueueStatementView::Insert(row));
        let before = queue_table_after(table, save_queue_of(tracks).take((k - 1) + 1));
        let t = queue_table_after(table, statements);
        assert(t == before.insert(row.position, row.track));
        assert forall|p: i64| #[trigger] t.dom().contains(p) <==> 0 <= p < k by {
            assert(before.dom().contains(p) <==> 0 <= p < k - 1);
        }
        assert forall|p: i64| 0 <= p < k implies #[trigger] t[p] == tracks[p as int] by {
            if p < k - 1 {
                assert(before[p] == tracks[p as int]);
            }
        }
    } else {
        assert(statements.last() == QueueStatementView::Clear);
        assert(queue_table_after(table, statements) == Map::<i64, TrackView>::empty());
    }
}

/// Where the table holds the positions below `n`, the rows have theirs in turn.
proof fn lemma_positions(table: Map<i64, TrackView>, read: Seq<QueueRowView>, n: int, i: int)
    requires
        0 <= n <= i64::MAX,
        forall|p: i64| #[trigger] table.dom().contains(p) <==> 0 <= p < n,
        rows_in_order(table, read),
        0 <= i < read.len(),
    ensures
        forall|j: int| 0 <= j <= i ==> (#[trigger] read[j]).position == j,
    decreases i,
{
    if i > 0 {
        lemma_positions(table, read, n, i - 1);
        assert(read[i - 1].position < read[i].position);
    }
    assert(table.dom().contains(read[i].position));
    if read[i].position > i {
        assert(table.dom().contains(i as i64));
        assert(has_position(read, i));
        let j = choose|j: int| 0 <= j < read.len() && (#[trigger] read[j]).position == i;
        if j > i {
            assert(read[i].position < read[j].position);
        }
    }
}

/// The preferences that were saved last are the ones that are read, and where none
/// were ever saved there are none.
pub proof fn law_saved_resume_is_loaded(saved: Seq<ResumeView>)
    ensures
        loaded_resume(resume_table_after(saved)) == (if saved.len() == 0 {
            None
        } else {
            Some(saved.last())
        }),
{
    if saved.len() > 0 {
        law_resume_survives(saved.last());
    }
}

/// The last call about a track decides, whatever came before and whatever the other
/// calls were about: starred, it is a favourite, with the fields and the date of that
/// call, and unstarred it is none. The count of its rows tells which.
pub proof fn law_last_call_decides(
    table: Map<Seq<char>, FavouriteView>,
    statements: Seq<FavouriteStatementView>,
    id: Seq<char>,
    k: int,
)
    requires
        is_last_about(statements, id, k),
    ensures
        match statements[k] {
            FavouriteStatementView::Replace(row) => {
                &&& favourites_after(table, statements).dom().contains(id)
                &&& favourites_after(table, statements)[id] == row
                &&& count_of(favourites_after(table, statements), id) > 0
            },
            FavouriteStatementView::Delete(_) => {
                &&& !favourites_after(table, statements).dom().contains(id)
                &&& count_of(favourites_after(table, statements), id) == 0
            },
        },
    decreases statements.len(),
{
    let rest = statements.drop_last();
    if k < statements.len() - 1 {
        assert(rest[k] == statements[k]);
        assert forall|j: int| k < j < rest.len() implies named_by(#[trigger] rest[j]) != id by {
            assert(rest[j] == statements[j]);
        }
        law_last_call_decides(table, rest, id, k);
        assert(named_by(statements[statements.len() - 1]) != id);
    }
}

/// Calls about other tracks leave a track as it was.
pub proof fn law_other_calls_leave_a_track(
    table: Map<Seq<char>, FavouriteView>,
    statements: Seq<FavouriteStatementView>,
    id: Seq<char>,
)
    requires
        forall|j: int|
            0 <= j < statements.len() ==> named_by(#[trigger] statements[j]) != id,
    ensures
        favourites_after(table, statements).dom().contains(id) <==> table.dom().contains(id),
        table.dom().contains(id) ==> favourites_after(table, statements)[id] == table[id],
    decreases statements.len(),
{
    if statements.len() > 0 {
        let rest = statements.drop_last();
        assert forall|j: int| 0 <= j < rest.len() implies named_by(#[trigger] rest[j]) != id by {
            assert(rest[j] == statements[j]);
        }
        law_other_calls_leave_a_track(table, rest, id);
        assert(named_by(statements[statements.len() - 1]) != id);
    }
}

/// To take the star from a track that has none changes nothing.
pub proof fn law_unstarring_what_is_not_starred(
    table: Map<Seq<char>, FavouriteView>,
    id: Seq<char>,
)
    requires
        !table.dom().contains(id),
    ensures
        favourites_after(table, seq![FavouriteStatementView::Delete(id)]) == table,
{
    let one = seq![FavouriteStatementView::Delete(id)];
    assert(one.drop_last() =~= Seq::<FavouriteStatementView>::empty());
    assert(favourites_after(table, one.drop_last()) == table);
    assert(table.remove(id) =~= table);
}

/// The starred tracks, where each starring was later than those before it: every
/// track whose last call starred it is among them, once, as that call gave it, no
/// other track is, and of two the one that was starred last comes first.
pub proof fn law_starred_tracks_are_listed(
    statements: Seq<FavouriteStatementView>,
    read: Seq<FavouriteView>,
)
    requires
        dated_in_turn(statements),
        favourites_in_order(favourites_after(Map::empty(), statements), read),
    ensures
        forall|i: int, j: int|
            0 <= i < j < read.len() ==> (#[trigger] read[i]).track.id != (
            #[trigger] read[j]).track.id,
        forall|id: Seq<char>, k: int| #[trigger]
            is_last_about(statements, id, k) ==> (has_favourite(read, id) <==> statements[k]
                is Replace),
        forall|i: int, k: int|
            0 <= i < read.len() && #[trigger] is_last_about(
                statements,
                (#[trigger] read[i]).track.id,
                k,
            ) ==> statements[k] == FavouriteStatementView::Replace(read[i]),
        forall|i: int| 0 <= i < read.len() ==> was_named(statements, (#[trigger] read[i]).track.id),
        forall|i: int, j: int, k: int, l: int|
            0 <= i < j < read.len() && #[trigger] is_last_about(statements, read[i].track.id, k)
                && #[trigger] is_last_about(statements, read[j].track.id, l) ==> k > l,
{
    let table = favourites_after(Map::<Seq<char>, FavouriteView>::empty(), statements);
    assert forall|id: Seq<char>, k: int| #[trigger] is_last_about(statements, id, k) implies (
    has_favourite(read, id) <==> statements[k] is Replace) by {
        law_last_call_decides(Map::empty(), statements, id, k);
        if has_favourite(read, id) {
            let j = choose|j: int| 0 <= j < read.len() && (#[trigger] read[j]).track.id == id;
            assert(table.dom().contains(read[j].track.id));
        }
        if statements[k] is Replace {
            assert(table.dom().contains(id));
        }
    }
    assert forall|i: int, k: int|
        0 <= i < read.len() && #[trigger] is_last_about(
            statements,
            (#[trigger] read[i]).track.id,
            k,
        ) implies statements[k] == FavouriteStatementView::Replace(read[i]) by {
        law_last_call_decides(Map::empty(), statements, read[i].track.id, k);
        assert(table.dom().contains(read[i].track.id));
    }
    assert forall|i: int| 0 <= i < read.len() implies was_named(
        statements,
        (#[trigger] read[i]).track.id,
    ) by {
        assert(table.dom().contains(read[i].track.id));
        lemma_favourite_was_named(statements, read[i].track.id);
    }
    assert forall|i: int, j: int, k: int, l: int|
        0 <= i < j < read.len() && #[trigger] is_last_about(statements, read[i].track.id, k)
            && #[trigger] is_last_about(statements, read[j].track.id, l) implies k > l by {
        assert(statements[k] == FavouriteStatementView::Replace(read[i]));
        assert(statements[l] == FavouriteStatementView::Replace(read[j]));
        assert(read[i].track.id != read[j].track.id);
        if k < l {
            assert(read[i].starred_at < read[j].starred_at);
        }
    }
}

proof fn lemma_favourite_was_named(statements: Seq<FavouriteStatementView>, id: Seq<char>)
    requires
        favourites_after(Map::empty(), statements).dom().contains(id),
    ensures
        was_named(statements, id),
    decreases statements.len(),
{
    if statements.len() > 0 {
        let last = statements.len() - 1;
        let rest = statements.drop_last();
        if named_by(statements[last]) == id {
            assert(is_last_about(statements, id, last));
        } else {
            lemma_favourite_was_named(rest, id);
            let k = choose|k: int| is_last_about(rest, id, k);
            assert(rest[k] == statements[k]);
            assert forall|j: int| k < j < statements.len() implies named_by(
                #[trigger] statements[j],
            ) != id by {
                if j < last {
                    assert(rest[j] == statements[j]);
                }
            }
            assert(is_last_about(statements, id, k));
        }
    }
}

/// A favourite is kept with its track as it is and the second in which it was starred.
pub proof fn law_favourites_are_dated(track: TrackView, epoch_seconds: u64)
    requires
        epoch_seconds <= i64::MAX,
    ensures
        favourite_of(track, epoch_seconds).track == track,
        favourite_of(track, epoch_seconds).starred_at == epoch_seconds,
{
}

/// The preferences' row holds them one by one.
pub proof fn law_preferences_one_by_one(state: ResumeView)
    ensures
        state.queue_index <= i64::MAX ==> resume_row_of(state).queue_index == state.queue_index,
        resume_row_of(state).progress == state.progress,
        resume_row_of(state).volume == state.volume,
        resume_row_of(state).shuffle == 1 <==> state.shuffle,
        resume_row_of(state).shuffle == 0 <==> !state.shuffle,
        resume_row_of(state).repeat_mode == state.repeat_mode,
{
}

/// Saving a queue first takes away what was kept, and then writes each track once, at
/// its own place.
pub proof fn law_queues_are_saved_in_order(tracks: Seq<TrackView>, i: int)
    requires
        tracks.len() <= i64::MAX,
    ensures
        save_queue_of(tracks).len() == tracks.len() + 1,
        save_queue_of(tracks)[0] == QueueStatementView::Clear,
        0 <= i < tracks.len() ==> (save_queue_of(tracks)[i + 1] matches QueueStatementView::Insert(
            row,
        ) && row.position == i && row.track == tracks[i]),
{
}

} // verus!
