//! The playback state machine: what each command and each passing moment does
//! to the queue and the track that plays, and what the audio device is asked
//! for in turn.

use rand::seq::SliceRandom;
use vstd::prelude::*;

use crate::single::{Single, ONE_BITS, SEVEN_TENTHS_BITS, ZERO_BITS};
use crate::subsonic::{Client, Track, TrackView};

verus! {

// ── Types ────────────────────────────────────────────────────────────────────

#[derive(Debug, Clone, Copy, PartialEq, Eq, Structural)]
pub enum RepeatMode {
    Off,
    One,
    All,
}

impl Default for RepeatMode {
    fn default() -> (r: Self)
        ensures
            r == RepeatMode::Off,
    {
        RepeatMode::Off
    }
}

/// Shared playback state, readable from the UI thread.
#[derive(Debug)]
pub struct PlaybackState {
    pub track: Option<Track>,
    pub is_playing: bool,
    /// 0.0 – 1.0
    pub progress: Single,
    pub queue: Vec<Track>,
    pub queue_index: usize,
    /// 0.0 – 1.0, default 0.7
    pub volume: Single,
    pub shuffle: bool,
    pub repeat: RepeatMode,
}

/// Controls sent from the UI / clickwheel to the player task.
#[derive(Debug)]
pub enum PlayerCommand {
    Play(Track),
    PlayQueue { tracks: Vec<Track>, start_index: usize },
    Pause,
    Resume,
    Next,
    Previous,
    SeekPercent(Single),
    Stop,
    SetVolume(Single),
    ToggleShuffle,
    CycleRepeat,
}

pub enum PlayerCommandView {
    Play(TrackView),
    PlayQueue { tracks: Seq<TrackView>, start_index: usize },
    Pause,
    Resume,
    Next,
    Previous,
    SeekPercent(Single),
    Stop,
    SetVolume(Single),
    ToggleShuffle,
    CycleRepeat,
}

impl DeepView for PlayerCommand {
    type V = PlayerCommandView;

    open spec fn deep_view(&self) -> PlayerCommandView {
        match self {
            PlayerCommand::Play(track) => PlayerCommandView::Play(track.deep_view()),
            PlayerCommand::PlayQueue { tracks, start_index } => PlayerCommandView::PlayQueue {
                tracks: tracks.deep_view(),
                start_index: *start_index,
            },
            PlayerCommand::Pause => PlayerCommandView::Pause,
            PlayerCommand::Resume => PlayerCommandView::Resume,
            PlayerCommand::Next => PlayerCommandView::Next,
            PlayerCommand::Previous => PlayerCommandView::Previous,
            PlayerCommand::SeekPercent(ratio) => PlayerCommandView::SeekPercent(*ratio),
            PlayerCommand::Stop => PlayerCommandView::Stop,
            PlayerCommand::SetVolume(volume) => PlayerCommandView::SetVolume(*volume),
            PlayerCommand::ToggleShuffle => PlayerCommandView::ToggleShuffle,
            PlayerCommand::CycleRepeat => PlayerCommandView::CycleRepeat,
        }
    }
}

/// What the player asks of the audio device, of the network, and of those who
/// watch the playback state.
#[derive(Debug)]
pub enum PlayerAction {
    /// Pause the sound, where there is any.
    PauseSink,
    /// Let the sound go on, where there is any.
    PlaySink,
    /// Set how loud the sound is, where there is any.
    SetSinkVolume(Single),
    /// End the sound.
    DropSink,
    /// Show the playback state to those who watch it.
    Publish,
    /// Fetch the track and start its sound at this volume, then report with
    /// [`Player::stream_loaded`].
    Fetch { track: Track, volume: Single },
}

/// What the audio device does.
#[derive(Debug, Clone, Copy)]
pub enum SinkReport {
    /// There is no sound, or it came to its end.
    Finished,
    /// The sound goes on. The ratio is the position over the track's length.
    Playing { ratio: Single },
}

/// How often the player ticks, in milliseconds.
pub const TICK_MILLIS: u64 = 500;

/// The playback state, as contracts speak of it.
pub struct PlaybackView {
    pub track: Option<Track>,
    pub is_playing: bool,
    pub progress: Single,
    pub queue: Seq<Track>,
    pub queue_index: int,
    pub volume: Single,
    pub shuffle: bool,
    pub repeat: RepeatMode,
}

impl View for PlaybackState {
    type V = PlaybackView;

    open spec fn view(&self) -> PlaybackView {
        PlaybackView {
            track: self.track,
            is_playing: self.is_playing,
            progress: self.progress,
            queue: self.queue@,
            queue_index: self.queue_index as int,
            volume: self.volume,
            shuffle: self.shuffle,
            repeat: self.repeat,
        }
    }
}

impl Clone for PlaybackState {
    fn clone(&self) -> (r: Self)
        ensures
            r@ == self@,
    {
        let queue: Vec<Track> = self.queue.clone();
        assert(queue@ =~= self.queue@);
        PlaybackState {
            track: self.track.clone(),
            is_playing: self.is_playing,
            progress: self.progress,
            queue,
            queue_index: self.queue_index,
            volume: self.volume,
            shuffle: self.shuffle,
            repeat: self.repeat,
        }
    }
}

// ── Transitions ──────────────────────────────────────────────────────────────

impl PlaybackView {
    /// The index points into the queue, or at its start where the queue is
    /// empty; progress and volume keep to their range.
    pub open spec fn well_formed(self) -> bool {
        &&& 0 <= self.queue_index
        &&& self.queue_index < self.queue.len() || (self.queue.len() == 0 && self.queue_index == 0)
        &&& self.progress.in_unit()
        &&& self.volume.in_unit()
    }

    /// Before anything was played.
    pub open spec fn initial() -> PlaybackView {
        PlaybackView {
            track: None,
            is_playing: false,
            progress: Single { bits: ZERO_BITS },
            queue: Seq::empty(),
            queue_index: 0,
            volume: Single { bits: SEVEN_TENTHS_BITS },
            shuffle: false,
            repeat: RepeatMode::Off,
        }
    }

    /// A track is about to be fetched: it is shown, and counts as not playing.
    pub open spec fn starting(self, track: Track) -> PlaybackView {
        PlaybackView {
            track: Some(track),
            is_playing: false,
            progress: Single { bits: ZERO_BITS },
            ..self
        }
    }

    /// The fetched track sounds.
    pub open spec fn sounding(self) -> PlaybackView {
        PlaybackView { is_playing: true, progress: Single { bits: ZERO_BITS }, ..self }
    }

    /// A new queue, with one of its tracks about to be fetched.
    pub open spec fn queued(self, tracks: Seq<Track>, index: int) -> PlaybackView {
        PlaybackView { queue: tracks, queue_index: index, ..self }.starting(tracks[index])
    }

    /// Another place in the queue, its track about to be fetched.
    pub open spec fn at(self, index: int) -> PlaybackView {
        self.queued(self.queue, index)
    }

    pub open spec fn paused(self) -> PlaybackView {
        PlaybackView { is_playing: false, ..self }
    }

    pub open spec fn resumed(self) -> PlaybackView {
        PlaybackView { is_playing: true, ..self }
    }

    pub open spec fn stopped(self) -> PlaybackView {
        PlaybackView {
            track: None,
            is_playing: false,
            progress: Single { bits: ZERO_BITS },
            ..self
        }
    }

    pub open spec fn with_volume(self, v: Single) -> PlaybackView {
        PlaybackView { volume: v.clamped(), ..self }
    }

    pub open spec fn shuffle_toggled(self) -> PlaybackView {
        PlaybackView { shuffle: !self.shuffle, ..self }
    }

    pub open spec fn repeat_cycled(self) -> PlaybackView {
        PlaybackView {
            repeat: match self.repeat {
                RepeatMode::Off => RepeatMode::All,
                RepeatMode::All => RepeatMode::One,
                RepeatMode::One => RepeatMode::Off,
            },
            ..self
        }
    }

    /// Where "next" leads: one further, or from the end to the start where the
    /// whole queue repeats.
    pub open spec fn next_index(self) -> Option<int> {
        if self.queue_index + 1 < self.queue.len() {
            Some(self.queue_index + 1)
        } else if self.repeat == RepeatMode::All && self.queue.len() > 0 {
            Some(0)
        } else {
            None
        }
    }

    /// Where "previous" leads: one back, or from the start to the end where the
    /// whole queue repeats.
    pub open spec fn previous_index(self) -> Option<int> {
        if self.queue_index > 0 {
            Some(self.queue_index - 1)
        } else if self.repeat == RepeatMode::All && self.queue.len() > 0 {
            Some(self.queue.len() - 1)
        } else {
            None
        }
    }

    /// Where the queue goes on by itself when a track ends.
    pub open spec fn index_after_end(self) -> Option<int> {
        if self.repeat == RepeatMode::One {
            Some(self.queue_index)
        } else {
            self.next_index()
        }
    }

    /// At a place in the queue, or as it was where there is none to go to.
    pub open spec fn moved(self, index: Option<int>) -> PlaybackView {
        match index {
            Some(i) => self.at(i),
            None => self,
        }
    }

    /// After a track ended: at the place where the queue goes on, or stopped
    /// with full progress at the end of a queue that does not repeat.
    pub open spec fn track_ended(self) -> PlaybackView {
        match self.index_after_end() {
            Some(i) => self.at(i),
            None => if self.repeat == RepeatMode::Off {
                PlaybackView { is_playing: false, progress: Single { bits: ONE_BITS }, ..self }
            } else {
                self
            },
        }
    }

    /// After a tick.
    pub open spec fn ticked(self, report: SinkReport) -> PlaybackView {
        if !self.is_playing {
            self
        } else {
            match report {
                SinkReport::Finished => self.track_ended(),
                SinkReport::Playing { ratio } => match self.track {
                    Some(Track { duration: Some(_), .. }) => PlaybackView {
                        progress: ratio.clamped(),
                        ..self
                    },
                    _ => self,
                },
            }
        }
    }

    /// A tick can be taken. Repeating one track needs a queue to take it from.
    pub open spec fn can_tick(self, report: SinkReport) -> bool {
        !(self.is_playing && report is Finished && self.repeat == RepeatMode::One
            && self.queue.len() == 0)
    }

    /// What fetching a track asks for.
    pub open spec fn fetch_actions(self, track: Track) -> Seq<PlayerAction> {
        seq![
            PlayerAction::Publish,
            PlayerAction::DropSink,
            PlayerAction::Fetch { track, volume: self.volume },
        ]
    }

    /// What going to a place in the queue asks for.
    pub open spec fn move_actions(self, index: Option<int>) -> Seq<PlayerAction> {
        match index {
            Some(i) => self.fetch_actions(self.queue[i]),
            None => Seq::empty(),
        }
    }

    /// What a tick asks for.
    pub open spec fn tick_actions(self, report: SinkReport) -> Seq<PlayerAction> {
        if !self.is_playing {
            Seq::empty()
        } else {
            match report {
                SinkReport::Finished => match self.index_after_end() {
                    Some(i) => self.fetch_actions(self.queue[i]),
                    None => if self.repeat == RepeatMode::Off {
                        seq![PlayerAction::Publish]
                    } else {
                        Seq::empty()
                    },
                },
                SinkReport::Playing { .. } => match self.track {
                    Some(Track { duration: Some(_), .. }) => seq![PlayerAction::Publish],
                    _ => Seq::empty(),
                },
            }
        }
    }

    /// After the stream that was asked for sounds, or could not be had.
    pub open spec fn loaded(self, loaded: bool) -> PlaybackView {
        if loaded {
            self.sounding()
        } else {
            self
        }
    }

    /// What the arrival of a stream asks for.
    pub open spec fn load_actions(self, loaded: bool) -> Seq<PlayerAction> {
        if loaded {
            seq![PlayerAction::Publish]
        } else {
            Seq::empty()
        }
    }

    /// After a command. The order of a queue that is shuffled is open: of it, this is
    /// the one in which it was given.
    pub open spec fn after_command(self, cmd: PlayerCommand) -> PlaybackView {
        match cmd {
            PlayerCommand::Play(track) => self.starting(track),
            PlayerCommand::PlayQueue { tracks, start_index } => self.queued(
                tracks@,
                start_index as int,
            ),
            PlayerCommand::Pause => self.paused(),
            PlayerCommand::Resume => self.resumed(),
            PlayerCommand::Next => self.moved(self.next_index()),
            PlayerCommand::Previous => self.moved(self.previous_index()),
            PlayerCommand::Stop => self.stopped(),
            PlayerCommand::SeekPercent(_) => self,
            PlayerCommand::SetVolume(v) => self.with_volume(v),
            PlayerCommand::ToggleShuffle => self.shuffle_toggled(),
            PlayerCommand::CycleRepeat => self.repeat_cycled(),
        }
    }

    /// What a command asks for.
    pub open spec fn command_actions(self, cmd: PlayerCommand) -> Seq<PlayerAction> {
        match cmd {
            PlayerCommand::Play(track) => self.fetch_actions(track),
            PlayerCommand::PlayQueue { tracks, start_index } => self.fetch_actions(
                tracks@[start_index as int],
            ),
            PlayerCommand::Pause => seq![PlayerAction::PauseSink, PlayerAction::Publish],
            PlayerCommand::Resume => seq![PlayerAction::PlaySink, PlayerAction::Publish],
            PlayerCommand::Next => self.move_actions(self.next_index()),
            PlayerCommand::Previous => self.move_actions(self.previous_index()),
            PlayerCommand::Stop => seq![PlayerAction::DropSink, PlayerAction::Publish],
            PlayerCommand::SeekPercent(_) => Seq::empty(),
            PlayerCommand::SetVolume(v) => seq![
                PlayerAction::SetSinkVolume(v.clamped()),
                PlayerAction::Publish,
            ],
            PlayerCommand::ToggleShuffle => seq![PlayerAction::Publish],
            PlayerCommand::CycleRepeat => seq![PlayerAction::Publish],
        }
    }

    /// After a queue was taken over in another order: the track that was chosen comes
    /// first and is about to be fetched, and the tracks are the same ones.
    pub open spec fn shuffled_in(
        self,
        tracks: Seq<Track>,
        start_index: int,
        after: PlaybackView,
    ) -> bool {
        &&& after == self.queued(after.queue, 0)
        &&& after.queue.len() == tracks.len()
        &&& after.queue[0] == tracks[start_index]
        &&& after.queue.to_multiset() == tracks.to_multiset()
    }
}

// ── Shuffling ────────────────────────────────────────────────────────────────

/// Calls `SliceRandom::shuffle` of the `rand` crate, with the thread's own
/// generator, on everything behind the first element. The claim: the first
/// element stays, and the elements are the same ones in some order. Nothing is
/// claimed of the order.
#[verifier::external_body]
fn shuffle_behind_first(tracks: &mut Vec<Track>)
    requires
        old(tracks)@.len() > 0,
    ensures
        final(tracks)@.len() == old(tracks)@.len(),
        final(tracks)@[0] == old(tracks)@[0],
        final(tracks)@.to_multiset() == old(tracks)@.to_multiset(),
{
    tracks[1..].shuffle(&mut rand::thread_rng());
}

/// `tracks` with the track at `index` and the first one changed over.
pub open spec fn brought_to_front(tracks: Seq<Track>, index: int) -> Seq<Track> {
    tracks.update(0, tracks[index]).update(index, tracks[0])
}

proof fn lemma_brought_to_front(tracks: Seq<Track>, index: int)
    requires
        0 <= index < tracks.len(),
    ensures
        brought_to_front(tracks, index).len() == tracks.len(),
        brought_to_front(tracks, index)[0] == tracks[index],
        brought_to_front(tracks, index).to_multiset() == tracks.to_multiset(),
{
    broadcast use vstd::seq_lib::to_multiset_update;

    let once = tracks.update(0, tracks[index]);
    let twice = once.update(index, tracks[0]);
    if index == 0 {
        assert(twice =~= tracks);
    } else {
        assert(once[index] == tracks[index]);
        assert(twice.to_multiset() =~= tracks.to_multiset()) by {
            vstd::seq_lib::to_multiset_update(tracks, 0, tracks[index]);
            vstd::seq_lib::to_multiset_update(once, index, tracks[0]);
            tracks.to_multiset_ensures();
            assert(tracks.to_multiset().count(tracks[0]) > 0);
            assert(tracks.to_multiset().count(tracks[index]) > 0);
        }
    }
}

fn bring_to_front(tracks: &mut Vec<Track>, index: usize)
    requires
        index < old(tracks)@.len(),
    ensures
        final(tracks)@ == brought_to_front(old(tracks)@, index as int),
{
    let first: Track = tracks[0].clone();
    let chosen: Track = tracks[index].clone();
    tracks.set(0, chosen);
    tracks.set(index, first);
}

// ── The player ───────────────────────────────────────────────────────────────

/// Nothing plays, and no sound would be heard.
impl Default for PlaybackState {
    fn default() -> (r: Self)
        ensures
            r@ == (PlaybackView {
                volume: Single { bits: ZERO_BITS },
                ..PlaybackView::initial()
            }),
    {
        PlaybackState { volume: Single::zero(), ..PlaybackState::initial() }
    }
}

impl PlaybackState {
    pub fn initial() -> (r: Self)
        ensures
            r@ == PlaybackView::initial(),
            r@.well_formed(),
    {
        PlaybackState {
            track: None,
            is_playing: false,
            progress: Single::zero(),
            queue: Vec::new(),
            queue_index: 0,
            volume: Single { bits: SEVEN_TENTHS_BITS },
            shuffle: false,
            repeat: RepeatMode::Off,
        }
    }
}

#[derive(Debug)]
pub struct Player {
    subsonic: Client,
    state: PlaybackState,
}

impl View for Player {
    type V = PlaybackView;

    closed spec fn view(&self) -> PlaybackView {
        self.state@
    }
}

impl Player {
    /// The server that tracks come from.
    pub closed spec fn server(&self) -> Client {
        self.subsonic
    }

    pub fn new(subsonic: Client) -> (r: Self)
        ensures
            r@ == PlaybackView::initial(),
            r@.well_formed(),
            r.server() == subsonic,
    {
        Player { subsonic, state: PlaybackState::initial() }
    }

    /// The server that tracks come from.
    pub fn client(&self) -> (r: &Client)
        ensures
            *r == self.server(),
    {
        &self.subsonic
    }

    /// The playback state.
    pub fn state(&self) -> (r: &PlaybackState)
        ensures
            r@ == self@,
    {
        &self.state
    }

    /// Shows a track and asks for its stream. Until the stream is there the
    /// track counts as not playing, so that a tick does not take the silence for
    /// the end of the track.
    pub fn play_track(&mut self, track: Track) -> (r: Vec<PlayerAction>)
        requires
            old(self)@.well_formed(),
        ensures
            final(self)@ == old(self)@.starting(track),
            final(self)@.well_formed(),
            final(self).server() == old(self).server(),
            r@ == old(self)@.fetch_actions(track),
    {
        self.state.is_playing = false;
        self.state.track = Some(track.clone());
        self.state.progress = Single::zero();
        let mut actions: Vec<PlayerAction> = Vec::new();
        actions.push(PlayerAction::Publish);
        actions.push(PlayerAction::DropSink);
        actions.push(PlayerAction::Fetch { track, volume: self.state.volume });
        assert(actions@ =~= old(self)@.fetch_actions(track));
        actions
    }

    /// The stream that was asked for sounds now, or could not be had.
    pub fn stream_loaded(&mut self, loaded: bool) -> (r: Vec<PlayerAction>)
        requires
            old(self)@.well_formed(),
        ensures
            final(self)@ == (if loaded {
                old(self)@.sounding()
            } else {
                old(self)@
            }),
            final(self)@.well_formed(),
            final(self).server() == old(self).server(),
            r@ == (if loaded {
                seq![PlayerAction::Publish]
            } else {
                Seq::empty()
            }),
            final(self)@ == old(self)@.loaded(loaded),
            r@ == old(self)@.load_actions(loaded),
    {
        let mut actions: Vec<PlayerAction> = Vec::new();
        if loaded {
            self.state.is_playing = true;
            self.state.progress = Single::zero();
            actions.push(PlayerAction::Publish);
        }
        actions
    }

    /// Takes over a queue and starts one of its tracks.
    pub fn start_queue(&mut self, tracks: Vec<Track>, index: usize) -> (r: Vec<PlayerAction>)
        requires
            old(self)@.well_formed(),
            index < tracks@.len(),
        ensures
            final(self)@ == old(self)@.queued(tracks@, index as int),
            final(self)@.well_formed(),
            final(self).server() == old(self).server(),
            r@ == old(self)@.fetch_actions(tracks@[index as int]),
    {
        let track: Track = tracks[index].clone();
        self.state.queue = tracks;
        self.state.queue_index = index;
        self.play_track(track)
    }

    /// Plays a list of tracks from one of them on. When shuffling, the chosen
    /// track comes first and the others follow in random order.
    pub fn play_queue(&mut self, tracks: Vec<Track>, start_index: usize) -> (r: Vec<PlayerAction>)
        requires
            old(self)@.well_formed(),
            start_index < tracks@.len(),
        ensures
            !old(self)@.shuffle ==> final(self)@ == old(self)@.queued(tracks@, start_index as int),
            old(self)@.shuffle ==> {
                &&& final(self)@ == old(self)@.queued(final(self)@.queue, 0)
                &&& final(self)@.queue.len() == tracks@.len()
                &&& final(self)@.queue[0] == tracks@[start_index as int]
                &&& final(self)@.queue.to_multiset() == tracks@.to_multiset()
            },
            final(self)@.well_formed(),
            final(self).server() == old(self).server(),
            r@ == old(self)@.fetch_actions(tracks@[start_index as int]),
            old(self)@.shuffle ==> old(self)@.shuffled_in(
                tracks@,
                start_index as int,
                final(self)@,
            ),
    {
        let mut tracks: Vec<Track> = tracks;
        if self.state.shuffle {
            proof {
                lemma_brought_to_front(tracks@, start_index as int);
            }
            bring_to_front(&mut tracks, start_index);
            shuffle_behind_first(&mut tracks);
            self.start_queue(tracks, 0)
        } else {
            self.start_queue(tracks, start_index)
        }
    }

    fn go_to(&mut self, index: Option<usize>) -> (r: Vec<PlayerAction>)
        requires
            old(self)@.well_formed(),
            index matches Some(i) ==> i < old(self)@.queue.len(),
        ensures
            final(self)@ == old(self)@.moved(
                match index {
                    Some(i) => Some(i as int),
                    None => None,
                },
            ),
            final(self)@.well_formed(),
            final(self).server() == old(self).server(),
            r@ == old(self)@.move_actions(
                match index {
                    Some(i) => Some(i as int),
                    None => None,
                },
            ),
    {
        match index {
            Some(i) => {
                self.state.queue_index = i;
                let track: Track = self.state.queue[i].clone();
                self.play_track(track)
            },
            None => Vec::new(),
        }
    }

    fn index_of_next(&self) -> (r: Option<usize>)
        requires
            self@.well_formed(),
        ensures
            self@.next_index() == (match r {
                Some(i) => Some(i as int),
                None => None,
            }),
            r matches Some(i) ==> i < self@.queue.len(),
    {
        let n: usize = self.state.queue.len();
        if n > 0 && self.state.queue_index < n - 1 {
            Some(self.state.queue_index + 1)
        } else if self.state.repeat == RepeatMode::All && n > 0 {
            Some(0)
        } else {
            None
        }
    }

    fn index_of_previous(&self) -> (r: Option<usize>)
        requires
            self@.well_formed(),
        ensures
            self@.previous_index() == (match r {
                Some(i) => Some(i as int),
                None => None,
            }),
            r matches Some(i) ==> i < self@.queue.len(),
    {
        let n: usize = self.state.queue.len();
        if self.state.queue_index > 0 {
            Some(self.state.queue_index - 1)
        } else if self.state.repeat == RepeatMode::All && n > 0 {
            Some(n - 1)
        } else {
            None
        }
    }

    /// Whether a command can be carried out: a queue to play must hold the track
    /// to start with.
    pub open spec fn accepts(cmd: PlayerCommand) -> bool {
        cmd matches PlayerCommand::PlayQueue { tracks, start_index } ==> start_index < tracks@.len()
    }

    /// Carries out a command.
    pub fn handle_command(&mut self, cmd: PlayerCommand) -> (r: Vec<PlayerAction>)
        requires
            old(self)@.well_formed(),
            Player::accepts(cmd),
        ensures
            final(self)@.well_formed(),
            final(self).server() == old(self).server(),
            r@ == old(self)@.command_actions(cmd),
            (match cmd {
                PlayerCommand::PlayQueue { tracks, start_index } => if old(self)@.shuffle {
                    old(self)@.shuffled_in(tracks@, start_index as int, final(self)@)
                } else {
                    final(self)@ == old(self)@.after_command(cmd)
                },
                _ => final(self)@ == old(self)@.after_command(cmd),
            }),
            (match cmd {
                PlayerCommand::Play(track) => {
                    &&& final(self)@ == old(self)@.starting(track)
                    &&& r@ == old(self)@.fetch_actions(track)
                },
                PlayerCommand::PlayQueue { tracks, start_index } => {
                    &&& !old(self)@.shuffle ==> final(self)@ == old(self)@.queued(
                        tracks@,
                        start_index as int,
                    )
                    &&& old(self)@.shuffle ==> {
                        &&& final(self)@ == old(self)@.queued(final(self)@.queue, 0)
                        &&& final(self)@.queue.len() == tracks@.len()
                        &&& final(self)@.queue[0] == tracks@[start_index as int]
                        &&& final(self)@.queue.to_multiset() == tracks@.to_multiset()
                    }
                    &&& r@ == old(self)@.fetch_actions(tracks@[start_index as int])
                },
                PlayerCommand::Pause => {
                    &&& final(self)@ == old(self)@.paused()
                    &&& r@ == seq![PlayerAction::PauseSink, PlayerAction::Publish]
                },
                PlayerCommand::Resume => {
                    &&& final(self)@ == old(self)@.resumed()
                    &&& r@ == seq![PlayerAction::PlaySink, PlayerAction::Publish]
                },
                PlayerCommand::Next => {
                    &&& final(self)@ == old(self)@.moved(old(self)@.next_index())
                    &&& r@ == old(self)@.move_actions(old(self)@.next_index())
                },
                PlayerCommand::Previous => {
                    &&& final(self)@ == old(self)@.moved(old(self)@.previous_index())
                    &&& r@ == old(self)@.move_actions(old(self)@.previous_index())
                },
                PlayerCommand::Stop => {
                    &&& final(self)@ == old(self)@.stopped()
                    &&& r@ == seq![PlayerAction::DropSink, PlayerAction::Publish]
                },
                PlayerCommand::SeekPercent(_) => {
                    &&& final(self)@ == old(self)@
                    &&& r@ == Seq::<PlayerAction>::empty()
                },
                PlayerCommand::SetVolume(v) => {
                    &&& final(self)@ == old(self)@.with_volume(v)
                    &&& r@ == seq![
                        PlayerAction::SetSinkVolume(v.clamped()),
                        PlayerAction::Publish,
                    ]
                },
                PlayerCommand::ToggleShuffle => {
                    &&& final(self)@ == old(self)@.shuffle_toggled()
                    &&& r@ == seq![PlayerAction::Publish]
                },
                PlayerCommand::CycleRepeat => {
                    &&& final(self)@ == old(self)@.repeat_cycled()
                    &&& r@ == seq![PlayerAction::Publish]
                },
            }),
    {
        let mut actions: Vec<PlayerAction> = Vec::new();
        match cmd {
            PlayerCommand::Play(track) => self.play_track(track),
            PlayerCommand::PlayQueue { tracks, start_index } => self.play_queue(
                tracks,
                start_index,
            ),
            PlayerCommand::Pause => {
                self.state.is_playing = false;
                actions.push(PlayerAction::PauseSink);
                actions.push(PlayerAction::Publish);
                actions
            },
            PlayerCommand::Resume => {
                self.state.is_playing = true;
                actions.push(PlayerAction::PlaySink);
                actions.push(PlayerAction::Publish);
                actions
            },
            PlayerCommand::Next => {
                let index: Option<usize> = self.index_of_next();
                self.go_to(index)
            },
            PlayerCommand::Previous => {
                let index: Option<usize> = self.index_of_previous();
                self.go_to(index)
            },
            PlayerCommand::Stop => {
                self.state.is_playing = false;
                self.state.track = None;
                self.state.progress = Single::zero();
                actions.push(PlayerAction::DropSink);
                actions.push(PlayerAction::Publish);
                actions
            },
            // HTTP streams cannot be sought in.
            PlayerCommand::SeekPercent(_) => actions,
            PlayerCommand::SetVolume(v) => {
                let v: Single = v.clamp_unit();
                self.state.volume = v;
                actions.push(PlayerAction::SetSinkVolume(v));
                actions.push(PlayerAction::Publish);
                actions
            },
            PlayerCommand::ToggleShuffle => {
                self.state.shuffle = !self.state.shuffle;
                actions.push(PlayerAction::Publish);
                actions
            },
            PlayerCommand::CycleRepeat => {
                self.state.repeat = match self.state.repeat {
                    RepeatMode::Off => RepeatMode::All,
                    RepeatMode::All => RepeatMode::One,
                    RepeatMode::One => RepeatMode::Off,
                };
                actions.push(PlayerAction::Publish);
                actions
            },
        }
    }

    /// Whether a tick can be taken.
    pub fn can_tick(&self, report: SinkReport) -> (r: bool)
        ensures
            r == self@.can_tick(report),
    {
        let finished: bool = match report {
            SinkReport::Finished => true,
            SinkReport::Playing { .. } => false,
        };
        !(self.state.is_playing && finished && self.state.repeat == RepeatMode::One
            && self.state.queue.len() == 0)
    }

    /// Called every 500 ms: update progress OR auto-advance when a track ends.
    pub fn tick_progress(&mut self, report: SinkReport) -> (r: Vec<PlayerAction>)
        requires
            old(self)@.well_formed(),
            old(self)@.can_tick(report),
        ensures
            final(self)@ == old(self)@.ticked(report),
            final(self)@.well_formed(),
            final(self).server() == old(self).server(),
            r@ == old(self)@.tick_actions(report),
    {
        let mut actions: Vec<PlayerAction> = Vec::new();
        if !self.state.is_playing {
            return actions;
        }
        match report {
            SinkReport::Finished => {
                // Track finished — advance, repeat, or stop.
                let index: Option<usize> = if self.state.repeat == RepeatMode::One {
                    Some(self.state.queue_index)
                } else {
                    self.index_of_next()
                };
                if index.is_none() && self.state.repeat == RepeatMode::Off {
                    self.state.is_playing = false;
                    self.state.progress = Single::one();
                    actions.push(PlayerAction::Publish);
                    return actions;
                }
                self.go_to(index)
            },
            SinkReport::Playing { ratio } => {
                let timed: bool = match &self.state.track {
                    Some(t) => t.duration.is_some(),
                    None => false,
                };
                if timed {
                    self.state.progress = ratio.clamp_unit();
                    actions.push(PlayerAction::Publish);
                }
                actions
            },
        }
    }
}

// ── Laws ─────────────────────────────────────────────────────────────────────

/// The state after "next" was asked for `n` times.
pub open spec fn after_nexts(s: PlaybackView, n: nat) -> PlaybackView
    decreases n,
{
    if n == 0 {
        s
    } else {
        let t = after_nexts(s, (n - 1) as nat);
        t.moved(t.next_index())
    }
}

/// The state after `n` tracks were fetched, sounded and came to their end.
pub open spec fn after_ends(s: PlaybackView, n: nat) -> PlaybackView
    decreases n,
{
    if n == 0 {
        s
    } else {
        after_ends(s, (n - 1) as nat).track_ended().sounding()
    }
}

/// A track that is being fetched is not taken for one that ended: until the
/// stream is there a tick changes nothing and asks for nothing, whatever the
/// audio device reports.
pub proof fn law_fetching_is_not_ending(s: PlaybackView, track: Track, report: SinkReport)
    ensures
        s.starting(track).can_tick(report),
        s.starting(track).ticked(report) == s.starting(track),
        s.starting(track).tick_actions(report) == Seq::<PlayerAction>::empty(),
{
}

/// "Previous" undoes "next", and "next" undoes "previous": the place in the
/// queue is the same again. This holds wherever the first of the two leads
/// somewhere, in every repeat mode.
pub proof fn law_next_and_previous_undo_each_other(s: PlaybackView)
    requires
        s.well_formed(),
    ensures
        s.next_index() is Some ==> s.moved(s.next_index()).previous_index() == Some(s.queue_index),
        s.previous_index() is Some ==> s.moved(s.previous_index()).next_index() == Some(
            s.queue_index,
        ),
{
}

/// "Next" and "previous" leave the queue, the modes and the volume alone.
pub proof fn law_moving_keeps_the_queue(s: PlaybackView, index: Option<int>)
    ensures
        s.moved(index).queue == s.queue,
        s.moved(index).shuffle == s.shuffle,
        s.moved(index).repeat == s.repeat,
        s.moved(index).volume == s.volume,
{
}

/// When the whole queue repeats, "next" goes round: after `n` steps the player
/// stands `n` places further, counted in a circle, and after a full circle where
/// it was.
pub proof fn law_repeat_all_goes_round(s: PlaybackView, n: nat)
    requires
        s.well_formed(),
        s.repeat == RepeatMode::All,
        s.queue.len() > 0,
    ensures
        after_nexts(s, n).queue_index == (s.queue_index + n) % (s.queue.len() as int),
        after_nexts(s, n).queue == s.queue,
        after_nexts(s, n).repeat == RepeatMode::All,
        n > 0 ==> after_nexts(s, n).track == Some(
            s.queue[(s.queue_index + n) % (s.queue.len() as int)],
        ),
        n == s.queue.len() ==> after_nexts(s, n).queue_index == s.queue_index,
    decreases n,
{
    let len = s.queue.len() as int;
    if n == 0 {
        vstd::arithmetic::div_mod::lemma_small_mod(s.queue_index as nat, len as nat);
    } else {
        let m = (n - 1) as nat;
        law_repeat_all_goes_round(s, m);
        let t = after_nexts(s, m);
        let x = s.queue_index + m;
        assert((x + 1) % len == if x % len + 1 < len {
            x % len + 1
        } else {
            0
        }) by {
            vstd::arithmetic::div_mod::lemma_add_mod_noop(x, 1, len);
            vstd::arithmetic::div_mod::lemma_mod_bound(x, len);
            if len > 1 {
                vstd::arithmetic::div_mod::lemma_small_mod(1, len as nat);
                if x % len + 1 < len {
                    vstd::arithmetic::div_mod::lemma_small_mod((x % len + 1) as nat, len as nat);
                } else {
                    vstd::arithmetic::div_mod::lemma_mod_self_0(len);
                }
            }
        }
        assert(t.queue_index == x % len);
        vstd::arithmetic::div_mod::lemma_mod_bound(x, len);
        if n == len {
            vstd::arithmetic::div_mod::lemma_mod_add_multiples_vanish(s.queue_index, len);
            vstd::arithmetic::div_mod::lemma_small_mod(s.queue_index as nat, len as nat);
        }
    }
}

/// Without repetition the queue plays to its end in order and each track once:
/// the `n`th end leads `n` places further.
pub proof fn law_queue_plays_in_order(s: PlaybackView, n: nat)
    requires
        s.well_formed(),
        s.repeat == RepeatMode::Off,
        s.queue_index + n < s.queue.len(),
    ensures
        after_ends(s, n).queue_index == s.queue_index + n,
        after_ends(s, n).queue == s.queue,
        after_ends(s, n).repeat == RepeatMode::Off,
        n > 0 ==> after_ends(s, n).track == Some(s.queue[s.queue_index + n]),
        n > 0 ==> after_ends(s, n).is_playing,
    decreases n,
{
    if n > 0 {
        law_queue_plays_in_order(s, (n - 1) as nat);
    }
}

/// Without repetition the player stops behind the last track, with full
/// progress, and stays so however often it ticks.
pub proof fn law_queue_ends(s: PlaybackView, report: SinkReport)
    requires
        s.well_formed(),
        s.repeat == RepeatMode::Off,
        s.queue_index + 1 >= s.queue.len(),
    ensures
        !s.track_ended().is_playing,
        s.track_ended().progress == (Single { bits: ONE_BITS }),
        s.track_ended().queue_index == s.queue_index,
        s.track_ended().track == s.track,
        s.track_ended().ticked(report) == s.track_ended(),
{
}

/// When one track repeats, its end leads back to it.
pub proof fn law_repeat_one_stays(s: PlaybackView)
    requires
        s.well_formed(),
        s.repeat == RepeatMode::One,
        s.queue.len() > 0,
    ensures
        s.track_ended().queue_index == s.queue_index,
        s.track_ended().track == Some(s.queue[s.queue_index]),
{
}

/// The repeat modes follow each other in a circle of three; shuffling is either
/// on or off. Neither touches anything else.
pub proof fn law_modes_cycle(s: PlaybackView)
    ensures
        s.repeat_cycled() != s,
        s.repeat_cycled().repeat_cycled() != s,
        s.repeat_cycled().repeat_cycled().repeat_cycled() == s,
        s.shuffle_toggled() != s,
        s.shuffle_toggled().shuffle_toggled() == s,
        s.repeat_cycled().queue == s.queue,
        s.shuffle_toggled().queue == s.queue,
        s.shuffle_toggled().queue_index == s.queue_index,
{
    assert(s.repeat_cycled().repeat != s.repeat);
    assert(s.repeat_cycled().repeat_cycled().repeat != s.repeat);
    assert(s.shuffle_toggled().shuffle != s.shuffle);
}

/// Pausing and resuming a track that plays leaves everything as it was.
pub proof fn law_pause_and_resume(s: PlaybackView)
    ensures
        s.is_playing ==> s.paused().resumed() == s,
        !s.is_playing ==> s.resumed().paused() == s,
        !s.paused().is_playing,
        s.resumed().is_playing,
{
}

/// The state after `n` tracks, from the one that plays on, came to their end, each
/// of the tracks that followed having been fetched and heard.
pub open spec fn after_finishes(s: PlaybackView, n: nat) -> PlaybackView
    decreases n,
{
    if n == 0 {
        s
    } else {
        after_finishes(s, (n - 1) as nat).ticked(SinkReport::Finished).sounding()
    }
}

proof fn lemma_one_further(x: int, len: int)
    requires
        len > 0,
    ensures
        0 <= x % len < len,
        (x + 1) % len == (if x % len + 1 < len {
            x % len + 1
        } else {
            0
        }),
{
    vstd::arithmetic::div_mod::lemma_add_mod_noop(x, 1, len);
    vstd::arithmetic::div_mod::lemma_mod_bound(x, len);
    if len > 1 {
        vstd::arithmetic::div_mod::lemma_small_mod(1, len as nat);
        if x % len + 1 < len {
            vstd::arithmetic::div_mod::lemma_small_mod((x % len + 1) as nat, len as nat);
        } else {
            vstd::arithmetic::div_mod::lemma_mod_self_0(len);
        }
    }
}

/// When the whole queue repeats, it plays round and round by itself: the `n`th end
/// of a track leads `n` places further, counted in a circle, to the track of that
/// place, and the next end asks for the track behind it. The queue, the modes and
/// the volume stay.
pub proof fn law_repeat_all_plays_round(s: PlaybackView, n: nat)
    requires
        s.well_formed(),
        s.is_playing,
        s.repeat == RepeatMode::All,
        s.queue.len() > 0,
    ensures
        after_finishes(s, n).queue_index == (s.queue_index + n) % (s.queue.len() as int),
        n > 0 ==> after_finishes(s, n).track == Some(
            s.queue[(s.queue_index + n) % (s.queue.len() as int)],
        ),
        after_finishes(s, n).is_playing,
        after_finishes(s, n).queue == s.queue,
        after_finishes(s, n).repeat == s.repeat,
        after_finishes(s, n).shuffle == s.shuffle,
        after_finishes(s, n).volume == s.volume,
        after_finishes(s, n).can_tick(SinkReport::Finished),
        after_finishes(s, n).tick_actions(SinkReport::Finished) == seq![
            PlayerAction::Publish,
            PlayerAction::DropSink,
            PlayerAction::Fetch {
                track: s.queue[(s.queue_index + n + 1) % (s.queue.len() as int)],
                volume: s.volume,
            },
        ],
    decreases n,
{
    let len = s.queue.len() as int;
    if n == 0 {
        vstd::arithmetic::div_mod::lemma_small_mod(s.queue_index as nat, len as nat);
    } else {
        law_repeat_all_plays_round(s, (n - 1) as nat);
        lemma_one_further(s.queue_index + n - 1, len);
    }
    lemma_one_further(s.queue_index + n, len);
}

/// When the whole queue repeats, every track of it is played once before any is
/// played again: within one round no two ends lead to the same place, and each
/// place is reached.
pub proof fn law_repeat_all_plays_each_once(s: PlaybackView, m: nat, n: nat, place: int)
    requires
        s.well_formed(),
        s.is_playing,
        s.repeat == RepeatMode::All,
        m < n < m + s.queue.len(),
        0 <= place < s.queue.len(),
    ensures
        after_finishes(s, m).queue_index != after_finishes(s, n).queue_index,
        place >= s.queue_index ==> after_finishes(s, (place - s.queue_index) as nat).queue_index
            == place,
        place < s.queue_index ==> after_finishes(
            s,
            (place - s.queue_index + s.queue.len()) as nat,
        ).queue_index == place,
{
    let len = s.queue.len() as int;
    law_repeat_all_plays_round(s, m);
    law_repeat_all_plays_round(s, n);
    let x = s.queue_index + m;
    let d = (n - m) as int;
    vstd::arithmetic::div_mod::lemma_fundamental_div_mod(x, len);
    vstd::arithmetic::div_mod::lemma_fundamental_div_mod(x + d, len);
    if x % len == (x + d) % len {
        let p = x / len;
        let q = (x + d) / len;
        assert(d == len * (q - p)) by (nonlinear_arith)
            requires
                x == len * p + x % len,
                x + d == len * q + (x + d) % len,
                x % len == (x + d) % len,
        ;
        assert(false) by (nonlinear_arith)
            requires
                d == len * (q - p),
                0 < d < len,
        ;
    }
    if place >= s.queue_index {
        law_repeat_all_plays_round(s, (place - s.queue_index) as nat);
    } else {
        law_repeat_all_plays_round(s, (place - s.queue_index + len) as nat);
        vstd::arithmetic::div_mod::lemma_mod_add_multiples_vanish(place, len);
    }
    vstd::arithmetic::div_mod::lemma_small_mod(place as nat, len as nat);
}

/// Without repetition the queue plays to its end and no further: the `n`th end leads
/// to the `n`th track behind the first, the end of the last track asks for nothing
/// but to show that playing is over, and leaves the last track with full progress.
pub proof fn law_queue_plays_through(s: PlaybackView, n: nat)
    requires
        s.well_formed(),
        s.is_playing,
        s.repeat == RepeatMode::Off,
        s.queue_index + n < s.queue.len(),
    ensures
        after_finishes(s, n).queue_index == s.queue_index + n,
        n > 0 ==> after_finishes(s, n).track == Some(s.queue[s.queue_index + n]),
        n == 0 ==> after_finishes(s, n).track == s.track,
        after_finishes(s, n).is_playing,
        after_finishes(s, n).queue == s.queue,
        after_finishes(s, n).repeat == s.repeat,
        after_finishes(s, n).shuffle == s.shuffle,
        after_finishes(s, n).volume == s.volume,
        s.queue_index + n + 1 < s.queue.len() ==> after_finishes(s, n).tick_actions(
            SinkReport::Finished,
        ) == seq![
            PlayerAction::Publish,
            PlayerAction::DropSink,
            PlayerAction::Fetch { track: s.queue[s.queue_index + n + 1], volume: s.volume },
        ],
        s.queue_index + n + 1 == s.queue.len() ==> {
            let last = after_finishes(s, n);
            &&& last.tick_actions(SinkReport::Finished) == seq![PlayerAction::Publish]
            &&& !last.ticked(SinkReport::Finished).is_playing
            &&& last.ticked(SinkReport::Finished).progress == (Single { bits: 0x3f80_0000 })
            &&& last.ticked(SinkReport::Finished).track == last.track
            &&& last.ticked(SinkReport::Finished).queue == s.queue
            &&& last.ticked(SinkReport::Finished).queue_index == last.queue_index
            &&& last.ticked(SinkReport::Finished).repeat == s.repeat
            &&& last.ticked(SinkReport::Finished).shuffle == s.shuffle
            &&& last.ticked(SinkReport::Finished).volume == s.volume
        },
    decreases n,
{
    if n > 0 {
        law_queue_plays_through(s, (n - 1) as nat);
    }
}

/// When one track repeats, the player stays at its place however often it ends, and
/// each end asks for the track of that place anew.
pub proof fn law_repeat_one_plays_on(s: PlaybackView, n: nat)
    requires
        s.well_formed(),
        s.is_playing,
        s.repeat == RepeatMode::One,
        s.queue.len() > 0,
    ensures
        after_finishes(s, n).queue_index == s.queue_index,
        n > 0 ==> after_finishes(s, n).track == Some(s.queue[s.queue_index]),
        after_finishes(s, n).is_playing,
        after_finishes(s, n).queue == s.queue,
        after_finishes(s, n).repeat == s.repeat,
        after_finishes(s, n).shuffle == s.shuffle,
        after_finishes(s, n).volume == s.volume,
        after_finishes(s, n).can_tick(SinkReport::Finished),
        after_finishes(s, n).tick_actions(SinkReport::Finished) == seq![
            PlayerAction::Publish,
            PlayerAction::DropSink,
            PlayerAction::Fetch { track: s.queue[s.queue_index], volume: s.volume },
        ],
    decreases n,
{
    if n > 0 {
        law_repeat_one_plays_on(s, (n - 1) as nat);
    }
}

/// The end of a track that came without a queue ends the playing where nothing
/// repeats, and where the whole queue repeats it changes nothing. There is no track
/// to repeat in an empty queue, and nothing else keeps a tick from being taken.
pub proof fn law_ends_without_a_queue(s: PlaybackView, report: SinkReport)
    requires
        s.well_formed(),
    ensures
        !s.can_tick(report) <==> s.is_playing && report == SinkReport::Finished && s.repeat
            == RepeatMode::One && s.queue.len() == 0,
        s.is_playing && s.queue.len() == 0 && s.repeat == RepeatMode::Off ==> {
            &&& s.ticked(SinkReport::Finished) == (PlaybackView {
                is_playing: false,
                progress: Single { bits: 0x3f80_0000 },
                ..s
            })
            &&& s.tick_actions(SinkReport::Finished) == seq![PlayerAction::Publish]
        },
        s.is_playing && s.queue.len() == 0 && s.repeat == RepeatMode::All ==> {
            &&& s.ticked(SinkReport::Finished) == s
            &&& s.tick_actions(SinkReport::Finished).len() == 0
        },
{
}

/// A track about to be fetched is shown from its start and does not count as playing
/// until it is heard, at the volume that was set; neither touches the queue, the
/// modes or the volume.
pub proof fn law_tracks_start_anew(s: PlaybackView, track: Track)
    ensures
        s.starting(track).track == Some(track),
        !s.starting(track).is_playing,
        s.starting(track).progress == (Single { bits: 0 }),
        s.starting(track).queue == s.queue,
        s.starting(track).queue_index == s.queue_index,
        s.starting(track).volume == s.volume,
        s.starting(track).shuffle == s.shuffle,
        s.starting(track).repeat == s.repeat,
        s.fetch_actions(track) == seq![
            PlayerAction::Publish,
            PlayerAction::DropSink,
            PlayerAction::Fetch { track, volume: s.volume },
        ],
        s.sounding().is_playing,
        s.sounding().progress == (Single { bits: 0 }),
        s.sounding().track == s.track,
        s.sounding().queue == s.queue,
        s.sounding().queue_index == s.queue_index,
        s.sounding().volume == s.volume,
        s.sounding().shuffle == s.shuffle,
        s.sounding().repeat == s.repeat,
{
}

/// A queue that is taken over holds the tracks that were given, in their order, with
/// the player at the place that was asked for and its track about to be heard.
pub proof fn law_queues_are_taken_over(s: PlaybackView, tracks: Seq<Track>, index: int)
    requires
        0 <= index < tracks.len(),
    ensures
        s.queued(tracks, index).queue == tracks,
        s.queued(tracks, index).queue_index == index,
        s.queued(tracks, index).track == Some(tracks[index]),
        !s.queued(tracks, index).is_playing,
        s.queued(tracks, index).progress == (Single { bits: 0 }),
        s.queued(tracks, index).volume == s.volume,
        s.queued(tracks, index).shuffle == s.shuffle,
        s.queued(tracks, index).repeat == s.repeat,
{
}

/// "Next" leads to the following place and "previous" to the one before, with the
/// track of that place asked for from its start; from the last place "next" leads to
/// the first, and from the first "previous" to the last, where the whole queue
/// repeats, and otherwise nothing changes and nothing is asked for.
pub proof fn law_where_next_and_previous_lead(s: PlaybackView)
    requires
        s.well_formed(),
    ensures
        ({
            let next = s.moved(s.next_index());
            let len = s.queue.len() as int;
            let leads = len > 0 && (s.queue_index != len - 1 || s.repeat == RepeatMode::All);
            &&& leads ==> {
                &&& next.queue_index == (s.queue_index + 1) % len
                &&& next == (PlaybackView {
                    queue_index: next.queue_index,
                    track: Some(s.queue[(s.queue_index + 1) % len]),
                    is_playing: false,
                    progress: Single { bits: 0 },
                    ..s
                })
                &&& s.move_actions(s.next_index()) == seq![
                    PlayerAction::Publish,
                    PlayerAction::DropSink,
                    PlayerAction::Fetch {
                        track: s.queue[(s.queue_index + 1) % len],
                        volume: s.volume,
                    },
                ]
            }
            &&& !leads ==> next == s && s.move_actions(s.next_index()).len() == 0
        }),
        ({
            let previous = s.moved(s.previous_index());
            let len = s.queue.len() as int;
            let leads = len > 0 && (s.queue_index != 0 || s.repeat == RepeatMode::All);
            &&& leads ==> {
                &&& previous.queue_index == (s.queue_index + len - 1) % len
                &&& previous == (PlaybackView {
                    queue_index: previous.queue_index,
                    track: Some(s.queue[(s.queue_index + len - 1) % len]),
                    is_playing: false,
                    progress: Single { bits: 0 },
                    ..s
                })
                &&& s.move_actions(s.previous_index()) == seq![
                    PlayerAction::Publish,
                    PlayerAction::DropSink,
                    PlayerAction::Fetch {
                        track: s.queue[(s.queue_index + len - 1) % len],
                        volume: s.volume,
                    },
                ]
            }
            &&& !leads ==> previous == s && s.move_actions(s.previous_index()).len() == 0
        }),
{
    let len = s.queue.len() as int;
    if len > 0 {
        vstd::arithmetic::div_mod::lemma_small_mod(s.queue_index as nat, len as nat);
        lemma_one_further(s.queue_index, len);
        if s.queue_index > 0 {
            vstd::arithmetic::div_mod::lemma_mod_add_multiples_vanish(s.queue_index - 1, len);
            vstd::arithmetic::div_mod::lemma_small_mod((s.queue_index - 1) as nat, len as nat);
        } else {
            vstd::arithmetic::div_mod::lemma_small_mod((len - 1) as nat, len as nat);
        }
    }
}

/// While a track of known length plays, a tick shows how far it is, and nothing else
/// changes. Of a track without a known length nothing can be shown, and what does
/// not play stays as it is, whatever the audio device reports.
pub proof fn law_ticks_show_the_progress(s: PlaybackView, track: Track, ratio: Single, report: SinkReport)
    ensures
        s.is_playing && s.track == Some(track) && track.duration is Some ==> {
            let t = s.ticked(SinkReport::Playing { ratio });
            &&& ratio.bits <= 0x3f80_0000 ==> t.progress == ratio
            &&& t.progress == ratio.clamped()
            &&& t == (PlaybackView { progress: t.progress, ..s })
            &&& s.tick_actions(SinkReport::Playing { ratio }) == seq![PlayerAction::Publish]
        },
        s.track is None || s.track == Some(track) && track.duration is None ==> {
            &&& s.ticked(SinkReport::Playing { ratio }) == s
            &&& s.tick_actions(SinkReport::Playing { ratio }).len() == 0
        },
        !s.is_playing ==> s.ticked(report) == s && s.tick_actions(report).len() == 0,
{
}

/// Stopping takes the track away and keeps the queue, the place in it, the modes and
/// the volume; pausing and resuming change nothing but whether it plays; and a volume
/// that can be set is the one that was asked for.
pub proof fn law_controls_touch_one_thing(s: PlaybackView, v: Single)
    ensures
        s.stopped().track is None,
        !s.stopped().is_playing,
        s.stopped().progress == (Single { bits: 0 }),
        s.stopped().queue == s.queue,
        s.stopped().queue_index == s.queue_index,
        s.stopped().volume == s.volume,
        s.stopped().shuffle == s.shuffle,
        s.stopped().repeat == s.repeat,
        s.paused() == (PlaybackView { is_playing: s.paused().is_playing, ..s }),
        s.resumed() == (PlaybackView { is_playing: s.resumed().is_playing, ..s }),
        s.with_volume(v) == (PlaybackView { volume: s.with_volume(v).volume, ..s }),
        v.bits <= 0x3f80_0000 ==> s.with_volume(v).volume == v,
        s.with_volume(v).volume == v.clamped(),
        s.shuffle_toggled() == (PlaybackView { shuffle: s.shuffle_toggled().shuffle, ..s }),
        s.repeat_cycled() == (PlaybackView { repeat: s.repeat_cycled().repeat, ..s }),
{
}

/// From off, the repeat modes lead over the whole queue to the one track.
pub proof fn law_repeat_modes_in_turn(s: PlaybackView)
    ensures
        s.repeat == RepeatMode::Off ==> s.repeat_cycled().repeat == RepeatMode::All,
        s.repeat == RepeatMode::Off ==> s.repeat_cycled().repeat_cycled().repeat
            == RepeatMode::One,
{
}

/// A player starts with nothing to play: no track, no queue, no mode switched on,
/// and nothing that a tick or "next" could lead to.
pub proof fn law_players_start_silent(report: SinkReport)
    ensures
        ({
            let s = PlaybackView::initial();
            &&& s.track is None
            &&& !s.is_playing
            &&& s.progress == (Single { bits: 0 })
            &&& s.volume == (Single { bits: 0x3f33_3333 })
            &&& s.queue.len() == 0
            &&& s.queue_index == 0
            &&& !s.shuffle
            &&& s.repeat == RepeatMode::Off
            &&& s.ticked(report) == s
            &&& s.moved(s.next_index()) == s
            &&& s.moved(s.previous_index()) == s
        }),
{
}

/// What each command does to the sound and to those who watch: a track and a queue are
/// shown, silence what sounds and are fetched from the place that was asked for; pausing
/// and resuming reach the sound; stopping ends it; a volume is set in it; the modes are
/// only shown; and streams cannot be sought in.
pub proof fn law_commands_reach_the_sound(
    s: PlaybackView,
    cmd: PlayerCommand,
    track: Track,
    tracks: Vec<Track>,
    start_index: usize,
    v: Single,
)
    requires
        start_index < tracks@.len(),
    ensures
        s.command_actions(PlayerCommand::Play(track)) == seq![
            PlayerAction::Publish,
            PlayerAction::DropSink,
            PlayerAction::Fetch { track, volume: s.volume },
        ],
        s.command_actions(PlayerCommand::PlayQueue { tracks, start_index }) == seq![
            PlayerAction::Publish,
            PlayerAction::DropSink,
            PlayerAction::Fetch { track: tracks@[start_index as int], volume: s.volume },
        ],
        s.command_actions(PlayerCommand::Pause) == seq![
            PlayerAction::PauseSink,
            PlayerAction::Publish,
        ],
        s.command_actions(PlayerCommand::Resume) == seq![
            PlayerAction::PlaySink,
            PlayerAction::Publish,
        ],
        s.command_actions(PlayerCommand::Stop) == seq![
            PlayerAction::DropSink,
            PlayerAction::Publish,
        ],
        s.command_actions(PlayerCommand::SetVolume(v)) == seq![
            PlayerAction::SetSinkVolume(s.after_command(PlayerCommand::SetVolume(v)).volume),
            PlayerAction::Publish,
        ],
        s.command_actions(PlayerCommand::ToggleShuffle) == seq![PlayerAction::Publish],
        s.command_actions(PlayerCommand::CycleRepeat) == seq![PlayerAction::Publish],
        s.command_actions(PlayerCommand::SeekPercent(v)).len() == 0,
        s.command_actions(PlayerCommand::Next) == s.move_actions(s.next_index()),
        s.command_actions(PlayerCommand::Previous) == s.move_actions(s.previous_index()),
        Player::accepts(PlayerCommand::PlayQueue { tracks, start_index }),
        cmd !is PlayQueue ==> Player::accepts(cmd),
{
}

/// What each command does to the state: pausing and resuming change whether it plays,
/// stopping takes the track away, a volume and a mode change themselves alone, a track
/// is shown from its start with the queue left alone, a queue is taken over, and seeking
/// changes nothing.
pub proof fn law_commands_change_the_state(
    s: PlaybackView,
    track: Track,
    tracks: Vec<Track>,
    start_index: usize,
    v: Single,
)
    requires
        start_index < tracks@.len(),
    ensures
        s.after_command(PlayerCommand::Play(track)) == (PlaybackView {
            track: Some(track),
            is_playing: false,
            progress: Single { bits: 0 },
            ..s
        }),
        s.after_command(PlayerCommand::PlayQueue { tracks, start_index }) == (PlaybackView {
            track: Some(tracks@[start_index as int]),
            is_playing: false,
            progress: Single { bits: 0 },
            queue: tracks@,
            queue_index: start_index as int,
            ..s
        }),
        s.after_command(PlayerCommand::Pause) == (PlaybackView { is_playing: false, ..s }),
        s.after_command(PlayerCommand::Resume) == (PlaybackView { is_playing: true, ..s }),
        s.after_command(PlayerCommand::Stop) == (PlaybackView {
            track: None,
            is_playing: false,
            progress: Single { bits: 0 },
            ..s
        }),
        s.after_command(PlayerCommand::SeekPercent(v)) == s,
        s.after_command(PlayerCommand::SetVolume(v)) == (PlaybackView {
            volume: v.clamped(),
            ..s
        }),
        s.after_command(PlayerCommand::ToggleShuffle) == (PlaybackView {
            shuffle: !s.shuffle,
            ..s
        }),
        s.after_command(PlayerCommand::CycleRepeat) == (PlaybackView {
            repeat: s.repeat_cycled().repeat,
            ..s
        }),
        s.after_command(PlayerCommand::Next) == s.moved(s.next_index()),
        s.after_command(PlayerCommand::Previous) == s.moved(s.previous_index()),
{
}

/// A queue that is shuffled starts with the track that was chosen, which is about to be
/// heard, and holds every track as often as it was given, none lost and none added; the
/// modes and the volume stay.
pub proof fn law_shuffled_queues(
    s: PlaybackView,
    tracks: Seq<Track>,
    start_index: int,
    after: PlaybackView,
    track: Track,
)
    requires
        0 <= start_index < tracks.len(),
        s.shuffled_in(tracks, start_index, after),
    ensures
        after.queue_index == 0,
        after.queue.len() == tracks.len(),
        after.queue[0] == tracks[start_index],
        after.track == Some(tracks[start_index]),
        after.queue.to_multiset().count(track) == tracks.to_multiset().count(track),
        after.queue.contains(track) <==> tracks.contains(track),
        !after.is_playing,
        after.progress == (Single { bits: 0 }),
        after.volume == s.volume,
        after.shuffle == s.shuffle,
        after.repeat == s.repeat,
{
    after.queue.to_multiset_ensures();
    tracks.to_multiset_ensures();
    assert(after.queue.contains(track) <==> after.queue.to_multiset().count(track) > 0);
    assert(tracks.contains(track) <==> tracks.to_multiset().count(track) > 0);
}

/// A stream that is there makes the track play from its start, and that is shown; one
/// that could not be had changes nothing.
pub proof fn law_streams_arrive(s: PlaybackView)
    ensures
        s.loaded(true) == (PlaybackView {
            is_playing: true,
            progress: Single { bits: 0 },
            ..s
        }),
        s.load_actions(true) == seq![PlayerAction::Publish],
        s.loaded(false) == s,
        s.load_actions(false).len() == 0,
{
}

} // verus!
