//! What the window shows of the playback: the texts, the star and the cover.

use vstd::prelude::*;

use crate::player::{PlaybackState, PlaybackView, RepeatMode};
use crate::single::{self, Single};
use crate::text;
use crate::ui::items;

verus! {

/// The width and height in which covers are fetched.
pub const ALBUM_ART_SIZE: u32 = 200;

// ── Texts ────────────────────────────────────────────────────────────────────

/// The playback state in words.
#[derive(Debug)]
pub struct NowPlaying {
    pub title: String,
    pub artist: String,
    pub album: String,
    pub is_playing: bool,
    pub progress: Single,
    pub elapsed_time: String,
    pub total_time: String,
    pub volume: Single,
    pub shuffle: bool,
    pub repeat_mode: &'static str,
    pub queue_position: String,
}

pub struct NowPlayingView {
    pub title: Seq<char>,
    pub artist: Seq<char>,
    pub album: Seq<char>,
    pub is_playing: bool,
    pub progress: Single,
    pub elapsed_time: Seq<char>,
    pub total_time: Seq<char>,
    pub volume: Single,
    pub shuffle: bool,
    pub repeat_mode: Seq<char>,
    pub queue_position: Seq<char>,
}

impl DeepView for NowPlaying {
    type V = NowPlayingView;

    open spec fn deep_view(&self) -> NowPlayingView {
        NowPlayingView {
            title: self.title@,
            artist: self.artist@,
            album: self.album@,
            is_playing: self.is_playing,
            progress: self.progress,
            elapsed_time: self.elapsed_time@,
            total_time: self.total_time@,
            volume: self.volume,
            shuffle: self.shuffle,
            repeat_mode: self.repeat_mode@,
            queue_position: self.queue_position@,
        }
    }
}

/// How long the track plays, in seconds; zero where it is not known.
pub open spec fn duration_of(state: PlaybackView) -> u32 {
    match state.track {
        Some(track) => match track.duration {
            Some(secs) => secs,
            None => 0,
        },
        None => 0,
    }
}

pub open spec fn title_of(state: PlaybackView) -> Seq<char> {
    match state.track {
        Some(track) => track.title@,
        None => "Not playing"@,
    }
}

pub open spec fn artist_of(state: PlaybackView) -> Seq<char> {
    match state.track {
        Some(track) => match track.artist {
            Some(artist) => artist@,
            None => Seq::empty(),
        },
        None => Seq::empty(),
    }
}

pub open spec fn album_of(state: PlaybackView) -> Seq<char> {
    match state.track {
        Some(track) => match track.album {
            Some(album) => album@,
            None => Seq::empty(),
        },
        None => Seq::empty(),
    }
}

pub open spec fn repeat_text(repeat: RepeatMode) -> Seq<char> {
    match repeat {
        RepeatMode::Off => "off"@,
        RepeatMode::One => "one"@,
        RepeatMode::All => "all"@,
    }
}

/// The place in the queue, counted from one, and the queue's length.
pub open spec fn queue_position_of(state: PlaybackView) -> Seq<char> {
    if state.queue.len() > 0 {
        text::decimal((state.queue_index + 1) as nat) + " / "@ + text::decimal(state.queue.len())
    } else {
        Seq::empty()
    }
}

/// The playback state in words, with the time that has passed since the track
/// began.
pub open spec fn now_playing_of(state: PlaybackView, elapsed_secs: Single) -> NowPlayingView {
    NowPlayingView {
        title: title_of(state),
        artist: artist_of(state),
        album: album_of(state),
        is_playing: state.is_playing,
        progress: state.progress,
        elapsed_time: items::minutes_of(elapsed_secs.whole()),
        total_time: items::minutes_of(single::through_single(duration_of(state))),
        volume: state.volume,
        shuffle: state.shuffle,
        repeat_mode: repeat_text(state.repeat),
        queue_position: queue_position_of(state),
    }
}

/// How long the track plays, in seconds; zero where it is not known.
pub fn duration_secs(state: &PlaybackState) -> (r: u32)
    ensures
        r == duration_of(state@),
{
    match &state.track {
        Some(track) => match track.duration {
            Some(secs) => secs,
            None => 0,
        },
        None => 0,
    }
}

pub fn repeat_name(repeat: RepeatMode) -> (r: &'static str)
    ensures
        r@ == repeat_text(repeat),
{
    match repeat {
        RepeatMode::Off => "off",
        RepeatMode::One => "one",
        RepeatMode::All => "all",
    }
}

/// The text, or none.
fn text_or_empty(s: &Option<String>) -> (r: String)
    ensures
        r@ == (match *s {
            Some(t) => t@,
            None => Seq::empty(),
        }),
{
    match s {
        Some(t) => t.clone(),
        None => String::new(),
    }
}

/// The place in the queue, counted from one, and the queue's length.
pub fn queue_position(state: &PlaybackState) -> (r: String)
    requires
        state.queue@.len() > 0 ==> state.queue_index < usize::MAX,
    ensures
        r@ == queue_position_of(state@),
{
    let mut out: String = String::new();
    if state.queue.len() > 0 {
        text::push_decimal(&mut out, (state.queue_index + 1) as u64);
        out.append(" / ");
        text::push_decimal(&mut out, state.queue.len() as u64);
    }
    assert(out@ =~= queue_position_of(state@));
    out
}

/// The playback state in words. `elapsed_secs` is the progress as a part of the
/// track's length.
pub fn now_playing(state: &PlaybackState, elapsed_secs: Single) -> (r: NowPlaying)
    requires
        state.queue@.len() > 0 ==> state.queue_index < usize::MAX,
    ensures
        r.deep_view() == now_playing_of(state@, elapsed_secs),
{
    let total: u32 = single::round_to_single(duration_secs(state));
    let (title, artist, album): (String, String, String) = match &state.track {
        Some(track) => (
            track.title.clone(),
            text_or_empty(&track.artist),
            text_or_empty(&track.album),
        ),
        None => ("Not playing".to_string(), String::new(), String::new()),
    };
    NowPlaying {
        title,
        artist,
        album,
        is_playing: state.is_playing,
        progress: state.progress,
        elapsed_time: items::format_time(elapsed_secs),
        total_time: items::format_seconds(total),
        volume: state.volume,
        shuffle: state.shuffle,
        repeat_mode: repeat_name(state.repeat),
        queue_position: queue_position(state),
    }
}

// ── Star and cover ───────────────────────────────────────────────────────────

/// The track and the cover that the window shows.
#[derive(Debug)]
pub struct Shown {
    pub last_track_id: Option<String>,
    pub last_cover_id: Option<String>,
}

/// What becomes of the star.
#[derive(Debug)]
pub enum StarChange {
    /// The track is the same: it stays as it is.
    Keep,
    /// Nothing plays: there is none.
    Clear,
    /// Another track plays: the favourites know.
    LookUp(String),
}

/// What becomes of the cover.
#[derive(Debug)]
pub enum CoverChange {
    /// The cover is the same.
    Keep,
    /// There is none.
    Clear,
    /// Another cover is to be fetched.
    Fetch(String),
}

pub struct ShownView {
    pub last_track_id: Option<Seq<char>>,
    pub last_cover_id: Option<Seq<char>>,
}

pub enum StarChangeView {
    Keep,
    Clear,
    LookUp(Seq<char>),
}

pub enum CoverChangeView {
    Keep,
    Clear,
    Fetch(Seq<char>),
}

impl View for Shown {
    type V = ShownView;

    open spec fn view(&self) -> ShownView {
        ShownView {
            last_track_id: self.last_track_id.deep_view(),
            last_cover_id: self.last_cover_id.deep_view(),
        }
    }
}

impl DeepView for StarChange {
    type V = StarChangeView;

    open spec fn deep_view(&self) -> StarChangeView {
        match self {
            StarChange::Keep => StarChangeView::Keep,
            StarChange::Clear => StarChangeView::Clear,
            StarChange::LookUp(id) => StarChangeView::LookUp(id@),
        }
    }
}

impl DeepView for CoverChange {
    type V = CoverChangeView;

    open spec fn deep_view(&self) -> CoverChangeView {
        match self {
            CoverChange::Keep => CoverChangeView::Keep,
            CoverChange::Clear => CoverChangeView::Clear,
            CoverChange::Fetch(id) => CoverChangeView::Fetch(id@),
        }
    }
}

/// The id of the track that plays.
pub open spec fn track_id_of(state: PlaybackView) -> Option<Seq<char>> {
    match state.track {
        Some(track) => Some(track.id@),
        None => None,
    }
}

/// The id of its cover.
pub open spec fn cover_id_of(state: PlaybackView) -> Option<Seq<char>> {
    match state.track {
        Some(track) => track.cover_art.deep_view(),
        None => None,
    }
}

/// The star after a change, where the favourites were asked and may have failed
/// to answer.
pub open spec fn star_after(shown: bool, change: StarChangeView, found: Option<bool>) -> bool {
    match change {
        StarChangeView::Keep => shown,
        StarChangeView::Clear => false,
        StarChangeView::LookUp(_) => found == Some(true),
    }
}

impl ShownView {
    /// What the window shows of a state.
    pub open spec fn of(state: PlaybackView) -> ShownView {
        ShownView { last_track_id: track_id_of(state), last_cover_id: cover_id_of(state) }
    }

    pub open spec fn star_change(self, state: PlaybackView) -> StarChangeView {
        if track_id_of(state) == self.last_track_id {
            StarChangeView::Keep
        } else {
            match track_id_of(state) {
                Some(id) => StarChangeView::LookUp(id),
                None => StarChangeView::Clear,
            }
        }
    }

    pub open spec fn cover_change(self, state: PlaybackView) -> CoverChangeView {
        if cover_id_of(state) == self.last_cover_id {
            CoverChangeView::Keep
        } else {
            match cover_id_of(state) {
                Some(id) => CoverChangeView::Fetch(id),
                None => CoverChangeView::Clear,
            }
        }
    }
}

fn same_id(a: &Option<String>, b: &Option<String>) -> (r: bool)
    ensures
        r == (a.deep_view() == b.deep_view()),
{
    match (a, b) {
        (Some(x), Some(y)) => text::same(x.as_str(), y.as_str()),
        (None, None) => true,
        _ => false,
    }
}

impl Default for Shown {
    fn default() -> (r: Self)
        ensures
            r@ == (ShownView { last_track_id: None, last_cover_id: None }),
    {
        Shown { last_track_id: None, last_cover_id: None }
    }
}

impl Shown {
    /// The window shows another state.
    pub fn observe(&mut self, state: &PlaybackState) -> (r: (StarChange, CoverChange))
        ensures
            final(self)@ == ShownView::of(state@),
            r.0.deep_view() == old(self)@.star_change(state@),
            r.1.deep_view() == old(self)@.cover_change(state@),
    {
        let (new_track_id, new_cover): (Option<String>, Option<String>) = match &state.track {
            Some(track) => (Some(track.id.clone()), track.cover_art.clone()),
            None => (None, None),
        };
        let star: StarChange = if same_id(&new_track_id, &self.last_track_id) {
            StarChange::Keep
        } else {
            match &new_track_id {
                Some(id) => StarChange::LookUp(id.clone()),
                None => StarChange::Clear,
            }
        };
        let cover: CoverChange = if same_id(&new_cover, &self.last_cover_id) {
            CoverChange::Keep
        } else {
            match &new_cover {
                Some(id) => CoverChange::Fetch(id.clone()),
                None => CoverChange::Clear,
            }
        };
        self.last_track_id = new_track_id;
        self.last_cover_id = new_cover;
        (star, cover)
    }
}

/// The star after a change, where the favourites were asked and may have failed
/// to answer.
pub fn starred_after(shown: bool, change: &StarChange, found: Option<bool>) -> (r: bool)
    ensures
        r == star_after(shown, change.deep_view(), found),
{
    match change {
        StarChange::Keep => shown,
        StarChange::Clear => false,
        StarChange::LookUp(_) => match found {
            Some(starred) => starred,
            None => false,
        },
    }
}

// ── Laws ─────────────────────────────────────────────────────────────────────

/// A state that is shown a second time asks for nothing: covers are fetched, and
/// favourites looked up, once for each track in a row.
pub proof fn law_showing_twice_asks_once(state: PlaybackView)
    ensures
        ShownView::of(state).star_change(state) == StarChangeView::Keep,
        ShownView::of(state).cover_change(state) == CoverChangeView::Keep,
{
}

/// Tracks of one album with one cover share it: going from one to the other asks
/// for the star alone.
pub proof fn law_shared_covers_stay(before: PlaybackView, after: PlaybackView)
    requires
        cover_id_of(before) == cover_id_of(after),
        track_id_of(before) != track_id_of(after),
    ensures
        ShownView::of(before).cover_change(after) == CoverChangeView::Keep,
        ShownView::of(before).star_change(after) != StarChangeView::Keep,
{
}

/// The place that is shown lies within the queue.
pub proof fn law_queue_position_within(state: PlaybackView)
    requires
        state.well_formed(),
    ensures
        state.queue.len() > 0 ==> 1 <= state.queue_index + 1 <= state.queue.len(),
        state.queue.len() == 0 ==> queue_position_of(state).len() == 0,
{
}

/// The window names the track that plays, its artist and its album, and leaves empty
/// what the track does not give; without a track it says that nothing plays.
pub proof fn law_what_plays_is_named(state: PlaybackView, elapsed: Single)
    ensures
        ({
            let shown = now_playing_of(state, elapsed);
            &&& state.track matches Some(t) ==> {
                &&& shown.title == t.title@
                &&& t.artist is Some ==> shown.artist == t.artist->0@
                &&& t.artist is None ==> shown.artist.len() == 0
                &&& t.album is Some ==> shown.album == t.album->0@
                &&& t.album is None ==> shown.album.len() == 0
            }
            &&& state.track is None ==> {
                &&& shown.title == "Not playing"@
                &&& shown.artist.len() == 0
                &&& shown.album.len() == 0
            }
        }),
{
}

/// Whether it plays, how far it is, the volume and the modes are shown as they are.
pub proof fn law_state_is_shown(state: PlaybackView, elapsed: Single)
    ensures
        ({
            let shown = now_playing_of(state, elapsed);
            &&& shown.is_playing == state.is_playing
            &&& shown.progress == state.progress
            &&& shown.volume == state.volume
            &&& shown.shuffle == state.shuffle
            &&& state.repeat == RepeatMode::Off ==> shown.repeat_mode == "off"@
            &&& state.repeat == RepeatMode::One ==> shown.repeat_mode == "one"@
            &&& state.repeat == RepeatMode::All ==> shown.repeat_mode == "all"@
        }),
{
}

/// The times are those of the track: what has passed of it, to the second, and how long
/// it is, which is nothing where that is not known.
pub proof fn law_times_are_shown(
    state: PlaybackView,
    elapsed: Single,
    minutes: nat,
    seconds: nat,
)
    requires
        seconds < 60,
        60 * minutes + seconds <= 0x0100_0000,
    ensures
        ({
            let shown = now_playing_of(state, elapsed);
            let time = text::decimal(minutes) + seq![':'] + text::two_digits(seconds);
            &&& elapsed.whole() == 60 * minutes + seconds ==> shown.elapsed_time == time
            &&& state.track is Some && state.track->0.duration == Some(
                (60 * minutes + seconds) as u32,
            ) ==> shown.total_time == time
            &&& state.track is None || state.track->0.duration is None ==> shown.total_time
                == seq!['0', ':', '0', '0']
        }),
{
    let n = (60 * minutes + seconds) as u32;
    single::law_small_numbers_are_exact(n);
    single::law_small_numbers_are_exact(0);
    items::law_times(minutes, seconds);
    items::law_times(0, 0);
    text::law_decimal(0);
    text::law_digits(0);
    reveal_strlit("0123456789abcdef");
    assert(text::decimal(0) + seq![':'] + text::two_digits(0) =~= seq!['0', ':', '0', '0']);
}

/// The place in the queue is counted from one and shown before the queue's length;
/// without a queue there is none.
pub proof fn law_place_in_the_queue_is_shown(state: PlaybackView, elapsed: Single)
    requires
        state.queue_index >= 0,
    ensures
        ({
            let shown = now_playing_of(state, elapsed);
            &&& state.queue.len() == 0 ==> shown.queue_position.len() == 0
            &&& state.queue.len() > 0 ==> shown.queue_position == text::decimal(
                (1 + state.queue_index) as nat,
            ) + seq![' ', '/', ' '] + text::decimal(state.queue.len())
            &&& shown.queue_position == queue_position_of(state)
        }),
{
    reveal_strlit(" / ");
    assert(" / "@ =~= seq![' ', '/', ' ']);
}

/// The length of what plays is its track's, and nothing where there is no track or its
/// length is not known.
pub proof fn law_length_of_what_plays(state: PlaybackView)
    ensures
        state.track is Some && state.track->0.duration is Some ==> duration_of(state)
            == state.track->0.duration->0,
        state.track is None || state.track->0.duration is None ==> duration_of(state) == 0,
{
}

/// Whenever another track comes to be shown, its star is looked up, and whenever
/// another cover does, it is fetched; where there is none, the old one goes. What is
/// shown then is the track's own, whatever was shown before.
pub proof fn law_changes_of_what_is_shown(before: ShownView, state: PlaybackView)
    ensures
        state.track is None ==> ShownView::of(state).last_track_id is None && ShownView::of(
            state,
        ).last_cover_id is None,
        state.track matches Some(t) ==> {
            &&& ShownView::of(state).last_track_id == Some(t.id@)
            &&& ShownView::of(state).last_cover_id is Some <==> t.cover_art is Some
            &&& t.cover_art matches Some(c) ==> ShownView::of(state).last_cover_id == Some(c@)
            &&& before.star_change(state) == (if before.last_track_id == Some(t.id@) {
                StarChangeView::Keep
            } else {
                StarChangeView::LookUp(t.id@)
            })
            &&& t.cover_art matches Some(c) ==> before.cover_change(state) == (
            if before.last_cover_id == Some(c@) {
                CoverChangeView::Keep
            } else {
                CoverChangeView::Fetch(c@)
            })
        },
        state.track is None ==> before.star_change(state) == (if before.last_track_id is None {
            StarChangeView::Keep
        } else {
            StarChangeView::Clear
        }),
        state.track is None || state.track->0.cover_art is None ==> before.cover_change(state) == (
        if before.last_cover_id is None {
            CoverChangeView::Keep
        } else {
            CoverChangeView::Clear
        }),
{
}

/// The star stays while the track does, goes with it, and is what the favourites say of
/// another, which is none where they fail to answer.
pub proof fn law_star_follows_the_track(shown: bool, id: Seq<char>, found: Option<bool>)
    ensures
        star_after(shown, StarChangeView::Keep, found) == shown,
        !star_after(shown, StarChangeView::Clear, found),
        star_after(shown, StarChangeView::LookUp(id), Some(true)),
        !star_after(shown, StarChangeView::LookUp(id), Some(false)),
        !star_after(shown, StarChangeView::LookUp(id), None),
{
}

} // verus!
