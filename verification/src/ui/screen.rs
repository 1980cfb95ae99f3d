//! The state of the window, and how the click wheel, the keyboard and the
//! navigation change it.

use vstd::prelude::*;

use crate::clickwheel::ClickwheelEvent;
use crate::player::{PlayerCommand, PlayerCommandView};
use crate::subsonic::{Track, TrackView};
use crate::text;
use crate::ui::items::{LibraryItem, LibraryItemView};
use crate::ui::keyboard::{self, KB_SUBMIT, KB_TOTAL};
use crate::ui::nav::{NavCommand, NavCommandView};

verus! {

// ── Types ────────────────────────────────────────────────────────────────────

/// Music, Starred, Now Playing, Settings, Theme.
pub const MENU_ITEM_COUNT: i32 = 5;

/// The last of the playback options: shuffle, repeat, star, close.
pub const LAST_PLAYBACK_OPTION: i32 = 3;

/// How long the volume stays once it is shown, in seconds.
pub const VOLUME_SECONDS: u64 = 2;

#[derive(Debug, Clone, Copy, PartialEq, Eq, Structural)]
pub enum AppView {
    Menu,
    Library,
    NowPlaying,
}

#[derive(Debug, Clone, Copy, PartialEq, Eq, Structural)]
pub enum AppTheme {
    LiquidGlass,
    Material,
    ClassicIPod,
}

/// What the window shows and what is selected in it.
#[derive(Debug)]
pub struct Screen {
    pub current_view: AppView,
    pub current_theme: AppTheme,
    pub menu_selected_index: i32,
    pub library_items: Vec<LibraryItem>,
    /// How far the selection scrolls. While a list loads, the count of the list
    /// before it stays.
    pub library_item_count: usize,
    pub library_header: String,
    /// Shown in place of an empty list.
    pub library_empty_text: String,
    pub library_selected_index: i32,
    pub playback_options_visible: bool,
    pub playback_options_index: i32,
    pub volume_visible: bool,
    /// Grows each time the volume is shown, so that only the latest showing
    /// ends it.
    pub vol_hide_gen: u64,
    pub track_starred: bool,
    pub keyboard_visible: bool,
    pub keyboard_text: String,
    pub keyboard_prompt: String,
    pub keyboard_selected_index: i32,
}

/// A change of the window that the navigation asks for.
#[derive(Debug)]
pub enum ScreenUpdate {
    /// Put another list in the place of the one that is shown.
    ReplaceList { items: Vec<LibraryItem>, header: String },
    /// Go to the library and show a list there.
    OpenList { items: Vec<LibraryItem>, header: String },
    /// Go to the library and show the one row that is there while others load.
    OpenLoading { row: LibraryItem, header: String },
    /// Go to the library, with nothing in it yet.
    OpenEmpty { header: String },
    SetHeader(&'static str),
    SetEmptyText(&'static str),
    SetView(AppView),
    SelectRow(i32),
    NextTheme,
    /// Ask for a text.
    OpenKeyboard { prompt: String },
}

/// What an event asks for beyond the window.
#[derive(Debug)]
pub enum UiEffect {
    Nav(NavCommand),
    Player(PlayerCommand),
    /// Make the sound a step louder or softer, and take the volume off the
    /// window after a while with [`Screen::hide_volume`] and this generation.
    StepVolume { up: bool, generation: u64 },
    Star(Track),
    Unstar(String),
}

pub struct ScreenView {
    pub current_view: AppView,
    pub current_theme: AppTheme,
    pub menu_selected_index: int,
    pub library_items: Seq<LibraryItemView>,
    pub library_item_count: int,
    pub library_header: Seq<char>,
    pub library_empty_text: Seq<char>,
    pub library_selected_index: int,
    pub playback_options_visible: bool,
    pub playback_options_index: int,
    pub volume_visible: bool,
    pub vol_hide_gen: int,
    pub track_starred: bool,
    pub keyboard_visible: bool,
    pub keyboard_text: Seq<char>,
    pub keyboard_prompt: Seq<char>,
    pub keyboard_selected_index: int,
}

pub enum ScreenUpdateView {
    ReplaceList { items: Seq<LibraryItemView>, header: Seq<char> },
    OpenList { items: Seq<LibraryItemView>, header: Seq<char> },
    OpenLoading { row: LibraryItemView, header: Seq<char> },
    OpenEmpty { header: Seq<char> },
    SetHeader(Seq<char>),
    SetEmptyText(Seq<char>),
    SetView(AppView),
    SelectRow(int),
    NextTheme,
    OpenKeyboard { prompt: Seq<char> },
}

pub enum UiEffectView {
    Nav(NavCommandView),
    Player(PlayerCommandView),
    StepVolume { up: bool, generation: int },
    Star(TrackView),
    Unstar(Seq<char>),
}

impl View for Screen {
    type V = ScreenView;

    open spec fn view(&self) -> ScreenView {
        ScreenView {
            current_view: self.current_view,
            current_theme: self.current_theme,
            menu_selected_index: self.menu_selected_index as int,
            library_items: self.library_items.deep_view(),
            library_item_count: self.library_item_count as int,
            library_header: self.library_header@,
            library_empty_text: self.library_empty_text@,
            library_selected_index: self.library_selected_index as int,
            playback_options_visible: self.playback_options_visible,
            playback_options_index: self.playback_options_index as int,
            volume_visible: self.volume_visible,
            vol_hide_gen: self.vol_hide_gen as int,
            track_starred: self.track_starred,
            keyboard_visible: self.keyboard_visible,
            keyboard_text: self.keyboard_text@,
            keyboard_prompt: self.keyboard_prompt@,
            keyboard_selected_index: self.keyboard_selected_index as int,
        }
    }
}

impl DeepView for ScreenUpdate {
    type V = ScreenUpdateView;

    open spec fn deep_view(&self) -> ScreenUpdateView {
        match self {
            ScreenUpdate::ReplaceList { items, header } => ScreenUpdateView::ReplaceList {
                items: items.deep_view(),
                header: header@,
            },
            ScreenUpdate::OpenList { items, header } => ScreenUpdateView::OpenList {
                items: items.deep_view(),
                header: header@,
            },
            ScreenUpdate::OpenLoading { row, header } => ScreenUpdateView::OpenLoading {
                row: row.deep_view(),
                header: header@,
            },
            ScreenUpdate::OpenEmpty { header } => ScreenUpdateView::OpenEmpty { header: header@ },
            ScreenUpdate::SetHeader(header) => ScreenUpdateView::SetHeader(header@),
            ScreenUpdate::SetEmptyText(message) => ScreenUpdateView::SetEmptyText(message@),
            ScreenUpdate::SetView(view) => ScreenUpdateView::SetView(*view),
            ScreenUpdate::SelectRow(row) => ScreenUpdateView::SelectRow(*row as int),
            ScreenUpdate::NextTheme => ScreenUpdateView::NextTheme,
            ScreenUpdate::OpenKeyboard { prompt } => ScreenUpdateView::OpenKeyboard {
                prompt: prompt@,
            },
        }
    }
}

impl DeepView for UiEffect {
    type V = UiEffectView;

    open spec fn deep_view(&self) -> UiEffectView {
        match self {
            UiEffect::Nav(command) => UiEffectView::Nav(command.deep_view()),
            UiEffect::Player(command) => UiEffectView::Player(command.deep_view()),
            UiEffect::StepVolume { up, generation } => UiEffectView::StepVolume {
                up: *up,
                generation: *generation as int,
            },
            UiEffect::Star(track) => UiEffectView::Star(track.deep_view()),
            UiEffect::Unstar(id) => UiEffectView::Unstar(id@),
        }
    }
}

// ── Themes ───────────────────────────────────────────────────────────────────

/// The theme of that name; a name that is not known stands for the first.
pub open spec fn theme_named(name: Seq<char>) -> AppTheme {
    if name == "material"@ {
        AppTheme::Material
    } else if name == "classic_ipod"@ {
        AppTheme::ClassicIPod
    } else {
        AppTheme::LiquidGlass
    }
}

pub open spec fn theme_after(theme: AppTheme) -> AppTheme {
    match theme {
        AppTheme::LiquidGlass => AppTheme::Material,
        AppTheme::Material => AppTheme::ClassicIPod,
        AppTheme::ClassicIPod => AppTheme::LiquidGlass,
    }
}

/// The theme of that name; a name that is not known stands for the first.
pub fn theme_from_name(name: &str) -> (r: AppTheme)
    ensures
        r == theme_named(name@),
{
    if text::same(name, "material") {
        AppTheme::Material
    } else if text::same(name, "classic_ipod") {
        AppTheme::ClassicIPod
    } else {
        AppTheme::LiquidGlass
    }
}

pub fn next_theme(theme: AppTheme) -> (r: AppTheme)
    ensures
        r == theme_after(theme),
{
    match theme {
        AppTheme::LiquidGlass => AppTheme::Material,
        AppTheme::Material => AppTheme::ClassicIPod,
        AppTheme::ClassicIPod => AppTheme::LiquidGlass,
    }
}

// ── Play and pause ───────────────────────────────────────────────────────────

/// The button pauses what plays, and resumes what does not.
pub open spec fn play_pause_of(is_playing: bool) -> PlayerCommandView {
    if is_playing {
        PlayerCommandView::Pause
    } else {
        PlayerCommandView::Resume
    }
}

/// The button pauses what plays, and resumes what does not.
pub fn play_pause_command(is_playing: bool) -> (r: PlayerCommand)
    ensures
        r.deep_view() == play_pause_of(is_playing),
{
    if is_playing {
        PlayerCommand::Pause
    } else {
        PlayerCommand::Resume
    }
}

// ── Transitions ──────────────────────────────────────────────────────────────

impl ScreenView {
    /// Before any event.
    pub open spec fn initial(theme: AppTheme) -> ScreenView {
        ScreenView {
            current_view: AppView::Menu,
            current_theme: theme,
            menu_selected_index: 0,
            library_items: Seq::empty(),
            library_item_count: 0,
            library_header: Seq::empty(),
            library_empty_text: "No items"@,
            library_selected_index: 0,
            playback_options_visible: false,
            playback_options_index: 0,
            volume_visible: false,
            vol_hide_gen: 0,
            track_starred: false,
            keyboard_visible: false,
            keyboard_text: Seq::empty(),
            keyboard_prompt: Seq::empty(),
            keyboard_selected_index: 0,
        }
    }

    /// The number of rows to scroll over, in the 32 bits of an index.
    pub open spec fn scrollable(self) -> int {
        (self.library_item_count as i32) as int
    }

    /// Scrolling changes the volume.
    pub open spec fn scrolls_volume(self) -> bool {
        self.current_view == AppView::NowPlaying && !self.playback_options_visible
    }

    pub open spec fn volume_shown(self) -> ScreenView {
        ScreenView { volume_visible: true, vol_hide_gen: self.vol_hide_gen + 1, ..self }
    }

    /// The volume goes, unless it was shown anew since.
    pub open spec fn volume_hidden(self, generation: int) -> ScreenView {
        if self.vol_hide_gen == generation {
            ScreenView { volume_visible: false, ..self }
        } else {
            self
        }
    }

    pub open spec fn scrolled_up(self) -> ScreenView {
        match self.current_view {
            AppView::Menu => if self.menu_selected_index > 0 {
                ScreenView { menu_selected_index: self.menu_selected_index - 1, ..self }
            } else {
                self
            },
            AppView::Library => if self.library_selected_index > 0 {
                ScreenView { library_selected_index: self.library_selected_index - 1, ..self }
            } else {
                self
            },
            AppView::NowPlaying => if !self.playback_options_visible {
                self.volume_shown()
            } else if self.playback_options_index > 0 {
                ScreenView { playback_options_index: self.playback_options_index - 1, ..self }
            } else {
                self
            },
        }
    }

    pub open spec fn scrolled_down(self) -> ScreenView {
        match self.current_view {
            AppView::Menu => if self.menu_selected_index < MENU_ITEM_COUNT - 1 {
                ScreenView { menu_selected_index: self.menu_selected_index + 1, ..self }
            } else {
                self
            },
            AppView::Library => if self.library_selected_index < self.scrollable() - 1 {
                ScreenView { library_selected_index: self.library_selected_index + 1, ..self }
            } else {
                self
            },
            AppView::NowPlaying => if !self.playback_options_visible {
                self.volume_shown()
            } else if self.playback_options_index < LAST_PLAYBACK_OPTION {
                ScreenView { playback_options_index: self.playback_options_index + 1, ..self }
            } else {
                self
            },
        }
    }

    /// What scrolling asks for.
    pub open spec fn scroll_effect(self, up: bool) -> Option<UiEffectView> {
        if self.scrolls_volume() {
            Some(UiEffectView::StepVolume { up, generation: self.vol_hide_gen + 1 })
        } else {
            None
        }
    }

    /// Scrolling can be taken: the showings of the volume can still be counted.
    pub open spec fn can_scroll_up(self) -> bool {
        self.scrolls_volume() ==> self.vol_hide_gen < u64::MAX
    }

    /// As for scrolling up, and the number of rows has one before it.
    pub open spec fn can_scroll_down(self) -> bool {
        &&& self.can_scroll_up()
        &&& self.current_view == AppView::Library ==> self.scrollable() > i32::MIN
    }

    /// After the button in the middle, while `track` plays.
    pub open spec fn selected(self, track: Option<TrackView>) -> ScreenView {
        if self.current_view != AppView::NowPlaying {
            self
        } else if !self.playback_options_visible {
            ScreenView { playback_options_visible: true, playback_options_index: 0, ..self }
        } else if self.playback_options_index == 0 || self.playback_options_index == 1 {
            self
        } else if self.playback_options_index == 2 {
            if track is Some {
                ScreenView { track_starred: !self.track_starred, ..self }
            } else {
                self
            }
        } else {
            ScreenView { playback_options_visible: false, ..self }
        }
    }

    /// What the button in the middle asks for.
    pub open spec fn select_effect(self, track: Option<TrackView>) -> Option<UiEffectView> {
        match self.current_view {
            AppView::Menu => Some(
                UiEffectView::Nav(NavCommandView::MenuSelect(self.menu_selected_index)),
            ),
            AppView::Library => Some(
                UiEffectView::Nav(NavCommandView::LibrarySelect(self.library_selected_index)),
            ),
            AppView::NowPlaying => if !self.playback_options_visible {
                None
            } else if self.playback_options_index == 0 {
                Some(UiEffectView::Player(PlayerCommandView::ToggleShuffle))
            } else if self.playback_options_index == 1 {
                Some(UiEffectView::Player(PlayerCommandView::CycleRepeat))
            } else if self.playback_options_index == 2 {
                match track {
                    Some(t) => if self.track_starred {
                        Some(UiEffectView::Unstar(t.id))
                    } else {
                        Some(UiEffectView::Star(t))
                    },
                    None => None,
                }
            } else {
                None
            },
        }
    }

    /// After the menu button: the options close, the library goes a level up,
    /// anything else leads to the menu.
    pub open spec fn menu_button(self) -> ScreenView {
        if self.current_view == AppView::NowPlaying && self.playback_options_visible {
            ScreenView { playback_options_visible: false, ..self }
        } else if self.current_view == AppView::Library {
            self
        } else {
            ScreenView { current_view: AppView::Menu, ..self }
        }
    }

    /// What the menu button asks for.
    pub open spec fn menu_effect(self) -> Option<UiEffectView> {
        if self.current_view == AppView::Library {
            Some(UiEffectView::Nav(NavCommandView::Back))
        } else {
            None
        }
    }

    /// After a key of the keyboard.
    pub open spec fn key_pressed(self, idx: int) -> ScreenView {
        if idx == KB_SUBMIT {
            ScreenView { keyboard_visible: false, ..self }
        } else {
            ScreenView { keyboard_text: keyboard::typed(self.keyboard_text, idx), ..self }
        }
    }

    /// What a key of the keyboard asks for.
    pub open spec fn key_effect(self, idx: int) -> Option<UiEffectView> {
        if idx == KB_SUBMIT {
            Some(UiEffectView::Nav(NavCommandView::KeyboardSubmitted(self.keyboard_text)))
        } else {
            None
        }
    }

    pub open spec fn keyboard_gone(self) -> ScreenView {
        ScreenView { keyboard_visible: false, ..self }
    }

    pub open spec fn key_selected(self, idx: int) -> ScreenView {
        ScreenView { keyboard_selected_index: idx, ..self }
    }

    /// After an event of the click wheel. The keyboard, while it is there,
    /// takes every event.
    pub open spec fn after_event(
        self,
        event: ClickwheelEvent,
        track: Option<TrackView>,
    ) -> ScreenView {
        let key = self.keyboard_selected_index;
        if self.keyboard_visible {
            match event {
                ClickwheelEvent::ScrollUp => self.key_selected(keyboard::left_of(key)),
                ClickwheelEvent::ScrollDown => self.key_selected(keyboard::right_of(key)),
                ClickwheelEvent::FastForward => self.key_selected(keyboard::right_of(key)),
                ClickwheelEvent::Rewind => self.key_selected(keyboard::left_of(key)),
                ClickwheelEvent::Menu => self.key_selected(keyboard::above(key)),
                ClickwheelEvent::PlayPause => self.key_selected(keyboard::below(key)),
                ClickwheelEvent::Select => self.key_pressed(key),
                ClickwheelEvent::LongMenu => self.keyboard_gone(),
                ClickwheelEvent::LongSelect => self,
            }
        } else {
            match event {
                ClickwheelEvent::ScrollUp => self.scrolled_up(),
                ClickwheelEvent::ScrollDown => self.scrolled_down(),
                ClickwheelEvent::Select => self.selected(track),
                ClickwheelEvent::Menu => self.menu_button(),
                _ => self,
            }
        }
    }

    /// What an event of the click wheel asks for.
    pub open spec fn event_effect(
        self,
        event: ClickwheelEvent,
        is_playing: bool,
        track: Option<TrackView>,
    ) -> Option<UiEffectView> {
        if self.keyboard_visible {
            match event {
                ClickwheelEvent::Select => self.key_effect(self.keyboard_selected_index),
                ClickwheelEvent::LongMenu => Some(
                    UiEffectView::Nav(NavCommandView::KeyboardDismissed),
                ),
                _ => None,
            }
        } else {
            match event {
                ClickwheelEvent::ScrollUp => self.scroll_effect(true),
                ClickwheelEvent::ScrollDown => self.scroll_effect(false),
                ClickwheelEvent::Select => self.select_effect(track),
                ClickwheelEvent::Menu => self.menu_effect(),
                ClickwheelEvent::PlayPause => Some(UiEffectView::Player(play_pause_of(is_playing))),
                ClickwheelEvent::FastForward => Some(UiEffectView::Player(PlayerCommandView::Next)),
                ClickwheelEvent::Rewind => Some(UiEffectView::Player(PlayerCommandView::Previous)),
                ClickwheelEvent::LongSelect => None,
                ClickwheelEvent::LongMenu => None,
            }
        }
    }

    /// An event can be taken: no index leaves its 32 bits, no count its 64.
    pub open spec fn accepts(self, event: ClickwheelEvent) -> bool {
        if self.keyboard_visible {
            match event {
                ClickwheelEvent::ScrollUp | ClickwheelEvent::Rewind => self.keyboard_selected_index
                    > i32::MIN,
                ClickwheelEvent::ScrollDown
                | ClickwheelEvent::FastForward => self.keyboard_selected_index < i32::MAX,
                _ => true,
            }
        } else {
            match event {
                ClickwheelEvent::ScrollUp => self.can_scroll_up(),
                ClickwheelEvent::ScrollDown => self.can_scroll_down(),
                _ => true,
            }
        }
    }

    /// After a change that the navigation asked for.
    pub open spec fn updated(self, update: ScreenUpdateView) -> ScreenView {
        match update {
            ScreenUpdateView::ReplaceList { items, header } => ScreenView {
                library_items: items,
                library_item_count: items.len() as int,
                library_header: header,
                library_empty_text: "No items"@,
                library_selected_index: 0,
                ..self
            },
            ScreenUpdateView::OpenList { items, header } => ScreenView {
                current_view: AppView::Library,
                library_items: items,
                library_item_count: items.len() as int,
                library_header: header,
                library_selected_index: 0,
                ..self
            },
            ScreenUpdateView::OpenLoading { row, header } => ScreenView {
                current_view: AppView::Library,
                library_items: seq![row],
                library_item_count: 1,
                library_header: header,
                library_empty_text: "Please wait…"@,
                library_selected_index: 0,
                ..self
            },
            ScreenUpdateView::OpenEmpty { header } => ScreenView {
                current_view: AppView::Library,
                library_items: Seq::empty(),
                library_header: header,
                library_selected_index: 0,
                ..self
            },
            ScreenUpdateView::SetHeader(header) => ScreenView { library_header: header, ..self },
            ScreenUpdateView::SetEmptyText(message) => ScreenView {
                library_empty_text: message,
                ..self
            },
            ScreenUpdateView::SetView(view) => ScreenView { current_view: view, ..self },
            ScreenUpdateView::SelectRow(row) => ScreenView { library_selected_index: row, ..self },
            ScreenUpdateView::NextTheme => ScreenView {
                current_theme: theme_after(self.current_theme),
                ..self
            },
            ScreenUpdateView::OpenKeyboard { prompt } => ScreenView {
                keyboard_visible: true,
                keyboard_text: Seq::empty(),
                keyboard_prompt: prompt,
                keyboard_selected_index: 0,
                ..self
            },
        }
    }

    /// Every selection points at something that can be selected, or at the
    /// start of an empty list.
    pub open spec fn well_formed(self) -> bool {
        &&& 0 <= self.menu_selected_index < MENU_ITEM_COUNT
        &&& 0 <= self.library_selected_index
        &&& self.library_selected_index < self.scrollable() || self.library_selected_index == 0
        &&& 0 <= self.playback_options_index <= LAST_PLAYBACK_OPTION
        &&& 0 <= self.keyboard_selected_index < KB_TOTAL
    }
}

// ── Events ───────────────────────────────────────────────────────────────────

impl Screen {
    /// The window before any event.
    pub fn new(theme: AppTheme) -> (r: Screen)
        ensures
            r@ == ScreenView::initial(theme),
            r@.well_formed(),
    {
        let r = Screen {
            current_view: AppView::Menu,
            current_theme: theme,
            menu_selected_index: 0,
            library_items: Vec::new(),
            library_item_count: 0,
            library_header: String::new(),
            library_empty_text: "No items".to_string(),
            library_selected_index: 0,
            playback_options_visible: false,
            playback_options_index: 0,
            volume_visible: false,
            vol_hide_gen: 0,
            track_starred: false,
            keyboard_visible: false,
            keyboard_text: String::new(),
            keyboard_prompt: String::new(),
            keyboard_selected_index: 0,
        };
        assert(r.library_items.deep_view() =~= Seq::<LibraryItemView>::empty());
        r
    }

    fn show_volume(&mut self, up: bool) -> (r: Option<UiEffect>)
        requires
            old(self)@.vol_hide_gen < u64::MAX,
        ensures
            final(self)@ == old(self)@.volume_shown(),
            r.deep_view() == Some(
                UiEffectView::StepVolume { up, generation: old(self)@.vol_hide_gen + 1 },
            ),
    {
        self.volume_visible = true;
        self.vol_hide_gen = self.vol_hide_gen + 1;
        Some(UiEffect::StepVolume { up, generation: self.vol_hide_gen })
    }

    /// Takes the volume off the window, unless it was shown anew since.
    pub fn hide_volume(&mut self, generation: u64)
        ensures
            final(self)@ == old(self)@.volume_hidden(generation as int),
    {
        if self.vol_hide_gen == generation {
            self.volume_visible = false;
        }
    }

    pub fn scroll_up(&mut self) -> (r: Option<UiEffect>)
        requires
            old(self)@.can_scroll_up(),
        ensures
            final(self)@ == old(self)@.scrolled_up(),
            r.deep_view() == old(self)@.scroll_effect(true),
    {
        match self.current_view {
            AppView::Menu => {
                if self.menu_selected_index > 0 {
                    self.menu_selected_index = self.menu_selected_index - 1;
                }
                None
            },
            AppView::Library => {
                if self.library_selected_index > 0 {
                    self.library_selected_index = self.library_selected_index - 1;
                }
                None
            },
            AppView::NowPlaying => {
                if self.playback_options_visible {
                    if self.playback_options_index > 0 {
                        self.playback_options_index = self.playback_options_index - 1;
                    }
                    None
                } else {
                    self.show_volume(true)
                }
            },
        }
    }

    pub fn scroll_down(&mut self) -> (r: Option<UiEffect>)
        requires
            old(self)@.can_scroll_down(),
        ensures
            final(self)@ == old(self)@.scrolled_down(),
            r.deep_view() == old(self)@.scroll_effect(false),
    {
        match self.current_view {
            AppView::Menu => {
                if self.menu_selected_index < MENU_ITEM_COUNT - 1 {
                    self.menu_selected_index = self.menu_selected_index + 1;
                }
                None
            },
            AppView::Library => {
                let count: i32 = #[verifier::truncate] (self.library_item_count as i32);
                if self.library_selected_index < count - 1 {
                    self.library_selected_index = self.library_selected_index + 1;
                }
                None
            },
            AppView::NowPlaying => {
                if self.playback_options_visible {
                    if self.playback_options_index < LAST_PLAYBACK_OPTION {
                        self.playback_options_index = self.playback_options_index + 1;
                    }
                    None
                } else {
                    self.show_volume(false)
                }
            },
        }
    }

    /// The button in the middle, while `track` plays.
    pub fn select(&mut self, track: &Option<Track>) -> (r: Option<UiEffect>)
        ensures
            final(self)@ == old(self)@.selected(track.deep_view()),
            r.deep_view() == old(self)@.select_effect(track.deep_view()),
    {
        match self.current_view {
            AppView::Menu => Some(UiEffect::Nav(NavCommand::MenuSelect(self.menu_selected_index))),
            AppView::Library => Some(
                UiEffect::Nav(NavCommand::LibrarySelect(self.library_selected_index)),
            ),
            AppView::NowPlaying => {
                if !self.playback_options_visible {
                    self.playback_options_visible = true;
                    self.playback_options_index = 0;
                    return None;
                }
                match self.playback_options_index {
                    0 => Some(UiEffect::Player(PlayerCommand::ToggleShuffle)),
                    1 => Some(UiEffect::Player(PlayerCommand::CycleRepeat)),
                    2 => match track {
                        Some(track) => {
                            if self.track_starred {
                                self.track_starred = false;
                                Some(UiEffect::Unstar(track.id.clone()))
                            } else {
                                self.track_starred = true;
                                Some(UiEffect::Star(track.clone()))
                            }
                        },
                        None => None,
                    },
                    _ => {
                        self.playback_options_visible = false;
                        None
                    },
                }
            },
        }
    }

    pub fn menu_pressed(&mut self) -> (r: Option<UiEffect>)
        ensures
            final(self)@ == old(self)@.menu_button(),
            r.deep_view() == old(self)@.menu_effect(),
    {
        if self.current_view == AppView::NowPlaying && self.playback_options_visible {
            self.playback_options_visible = false;
            return None;
        }
        if self.current_view == AppView::Library {
            Some(UiEffect::Nav(NavCommand::Back))
        } else {
            self.current_view = AppView::Menu;
            None
        }
    }

    pub fn keyboard_key_pressed(&mut self, idx: i32) -> (r: Option<UiEffect>)
        ensures
            final(self)@ == old(self)@.key_pressed(idx as int),
            r.deep_view() == old(self)@.key_effect(idx as int),
    {
        if idx == KB_SUBMIT {
            self.keyboard_visible = false;
            Some(UiEffect::Nav(NavCommand::KeyboardSubmitted(self.keyboard_text.clone())))
        } else {
            self.keyboard_text = keyboard::type_key(self.keyboard_text.as_str(), idx);
            None
        }
    }

    pub fn keyboard_dismissed(&mut self) -> (r: Option<UiEffect>)
        ensures
            final(self)@ == old(self)@.keyboard_gone(),
            r.deep_view() == Some(UiEffectView::Nav(NavCommandView::KeyboardDismissed)),
    {
        self.keyboard_visible = false;
        Some(UiEffect::Nav(NavCommand::KeyboardDismissed))
    }

    /// Scrolling up can be taken.
    pub fn can_scroll_up(&self) -> (r: bool)
        ensures
            r == self@.can_scroll_up(),
    {
        self.current_view != AppView::NowPlaying || self.playback_options_visible
            || self.vol_hide_gen < u64::MAX
    }

    /// Scrolling down can be taken.
    pub fn can_scroll_down(&self) -> (r: bool)
        ensures
            r == self@.can_scroll_down(),
    {
        let count: i32 = #[verifier::truncate] (self.library_item_count as i32);
        self.can_scroll_up() && (self.current_view != AppView::Library || count > i32::MIN)
    }

    /// An event can be taken.
    pub fn can_handle(&self, event: ClickwheelEvent) -> (r: bool)
        ensures
            r == self@.accepts(event),
    {
        if self.keyboard_visible {
            match event {
                ClickwheelEvent::ScrollUp | ClickwheelEvent::Rewind => self.keyboard_selected_index
                    > i32::MIN,
                ClickwheelEvent::ScrollDown
                | ClickwheelEvent::FastForward => self.keyboard_selected_index < i32::MAX,
                _ => true,
            }
        } else {
            match event {
                ClickwheelEvent::ScrollUp => self.can_scroll_up(),
                ClickwheelEvent::ScrollDown => self.can_scroll_down(),
                _ => true,
            }
        }
    }

    /// An event of the click wheel, while `track` plays or is paused.
    pub fn handle_event(
        &mut self,
        event: ClickwheelEvent,
        is_playing: bool,
        track: &Option<Track>,
    ) -> (r: Option<UiEffect>)
        requires
            old(self)@.accepts(event),
        ensures
            final(self)@ == old(self)@.after_event(event, track.deep_view()),
            r.deep_view() == old(self)@.event_effect(event, is_playing, track.deep_view()),
    {
        if self.keyboard_visible {
            let key: i32 = self.keyboard_selected_index;
            return match event {
                ClickwheelEvent::ScrollUp | ClickwheelEvent::Rewind => {
                    self.keyboard_selected_index = keyboard::kb_nav_left(key);
                    None
                },
                ClickwheelEvent::ScrollDown | ClickwheelEvent::FastForward => {
                    self.keyboard_selected_index = keyboard::kb_nav_right(key);
                    None
                },
                ClickwheelEvent::Menu => {
                    self.keyboard_selected_index = keyboard::kb_nav_up(key);
                    None
                },
                ClickwheelEvent::PlayPause => {
                    self.keyboard_selected_index = keyboard::kb_nav_down(key);
                    None
                },
                ClickwheelEvent::Select => self.keyboard_key_pressed(key),
                ClickwheelEvent::LongMenu => self.keyboard_dismissed(),
                ClickwheelEvent::LongSelect => None,
            };
        }
        match event {
            ClickwheelEvent::ScrollUp => self.scroll_up(),
            ClickwheelEvent::ScrollDown => self.scroll_down(),
            ClickwheelEvent::Select => self.select(track),
            ClickwheelEvent::Menu => self.menu_pressed(),
            ClickwheelEvent::PlayPause => Some(UiEffect::Player(play_pause_command(is_playing))),
            ClickwheelEvent::FastForward => Some(UiEffect::Player(PlayerCommand::Next)),
            ClickwheelEvent::Rewind => Some(UiEffect::Player(PlayerCommand::Previous)),
            ClickwheelEvent::LongSelect => None,
            ClickwheelEvent::LongMenu => None,
        }
    }

    /// Makes a change that the navigation asked for.
    pub fn apply(&mut self, update: ScreenUpdate)
        ensures
            final(self)@ == old(self)@.updated(update.deep_view()),
    {
        match update {
            ScreenUpdate::ReplaceList { items, header } => {
                self.library_item_count = items.len();
                self.library_items = items;
                self.library_header = header;
                self.library_selected_index = 0;
                self.library_empty_text = "No items".to_string();
            },
            ScreenUpdate::OpenList { items, header } => {
                self.library_item_count = items.len();
                self.library_items = items;
                self.library_header = header;
                self.library_selected_index = 0;
                self.current_view = AppView::Library;
            },
            ScreenUpdate::OpenLoading { row, header } => {
                let mut items: Vec<LibraryItem> = Vec::new();
                items.push(row);
                assert(items.deep_view() =~= seq![row.deep_view()]);
                self.library_item_count = 1;
                self.library_items = items;
                self.library_header = header;
                self.library_selected_index = 0;
                self.library_empty_text = "Please wait…".to_string();
                self.current_view = AppView::Library;
            },
            ScreenUpdate::OpenEmpty { header } => {
                let items: Vec<LibraryItem> = Vec::new();
                assert(items.deep_view() =~= Seq::<LibraryItemView>::empty());
                self.library_items = items;
                self.library_header = header;
                self.library_selected_index = 0;
                self.current_view = AppView::Library;
            },
            ScreenUpdate::SetHeader(header) => {
                self.library_header = header.to_string();
            },
            ScreenUpdate::SetEmptyText(message) => {
                self.library_empty_text = message.to_string();
            },
            ScreenUpdate::SetView(view) => {
                self.current_view = view;
            },
            ScreenUpdate::SelectRow(row) => {
                self.library_selected_index = row;
            },
            ScreenUpdate::NextTheme => {
                self.current_theme = next_theme(self.current_theme);
            },
            ScreenUpdate::OpenKeyboard { prompt } => {
                self.keyboard_text = String::new();
                self.keyboard_selected_index = 0;
                self.keyboard_prompt = prompt;
                self.keyboard_visible = true;
            },
        }
    }
}

// ── Laws ─────────────────────────────────────────────────────────────────────

/// No event leaves a selection pointing at nothing.
pub proof fn law_events_keep_selections(
    s: ScreenView,
    event: ClickwheelEvent,
    track: Option<TrackView>,
)
    requires
        s.well_formed(),
    ensures
        s.after_event(event, track).well_formed(),
{
    keyboard::law_moves_stay_on_the_keyboard(s.keyboard_selected_index);
}

/// No change that the navigation asks for leaves a selection pointing at
/// nothing, where a row it selects is one of the list.
pub proof fn law_updates_keep_selections(s: ScreenView, update: ScreenUpdateView)
    requires
        s.well_formed(),
        update matches ScreenUpdateView::SelectRow(row) ==> 0 <= row < s.scrollable(),
    ensures
        s.updated(update).well_formed(),
{
}

/// While the keyboard is there, no event reaches what lies below it: only the
/// keyboard's own state changes, and only the keyboard's commands come out.
pub proof fn law_keyboard_takes_every_event(
    s: ScreenView,
    event: ClickwheelEvent,
    is_playing: bool,
    track: Option<TrackView>,
)
    requires
        s.keyboard_visible,
    ensures
        s.after_event(event, track) == (ScreenView {
            keyboard_visible: s.after_event(event, track).keyboard_visible,
            keyboard_text: s.after_event(event, track).keyboard_text,
            keyboard_selected_index: s.after_event(event, track).keyboard_selected_index,
            ..s
        }),
        match s.event_effect(event, is_playing, track) {
            None => s.after_event(event, track).keyboard_visible,
            Some(effect) => {
                &&& !s.after_event(event, track).keyboard_visible
                &&& effect == UiEffectView::Nav(NavCommandView::KeyboardSubmitted(s.keyboard_text))
                    || effect == UiEffectView::Nav(NavCommandView::KeyboardDismissed)
            },
        },
{
}

/// Scrolling down and up again, or up and down again, leads back wherever the
/// first of the two moved a selection.
pub proof fn law_scrolling_undoes_itself(s: ScreenView)
    requires
        s.well_formed(),
        !s.scrolls_volume(),
    ensures
        s.scrolled_down() != s ==> s.scrolled_down().scrolled_up() == s,
        s.scrolled_up() != s ==> s.scrolled_up().scrolled_down() == s,
{
}

/// The volume stays while it is shown anew, and goes with its latest showing.
pub proof fn law_latest_showing_hides_the_volume(s: ScreenView)
    requires
        s.scrolls_volume(),
    ensures
        s.scrolled_up().volume_visible,
        s.scrolled_up().scrolled_down().volume_hidden(s.vol_hide_gen + 1).volume_visible,
        !s.scrolled_up().scrolled_down().volume_hidden(s.vol_hide_gen + 2).volume_visible,
        !s.scrolled_up().volume_hidden(s.vol_hide_gen + 1).volume_visible,
{
}

/// From outside the library, pressing the menu button twice leads to the menu.
pub proof fn law_menu_button_leads_to_the_menu(s: ScreenView)
    requires
        s.current_view != AppView::Library,
    ensures
        s.menu_button().menu_button().current_view == AppView::Menu,
        !s.playback_options_visible ==> s.menu_button().current_view == AppView::Menu,
        s.menu_effect() is None,
{
}

/// Selecting the star twice leaves the track as it was, and asks for the one
/// and for the other.
pub proof fn law_star_twice(s: ScreenView, track: TrackView)
    requires
        s.current_view == AppView::NowPlaying,
        s.playback_options_visible,
        s.playback_options_index == 2,
    ensures
        s.selected(Some(track)).track_starred == !s.track_starred,
        s.selected(Some(track)).selected(Some(track)) == s,
        s.select_effect(Some(track)) == (if s.track_starred {
            Some(UiEffectView::Unstar(track.id))
        } else {
            Some(UiEffectView::Star(track))
        }),
        s.selected(Some(track)).select_effect(Some(track)) == (if s.track_starred {
            Some(UiEffectView::Star(track))
        } else {
            Some(UiEffectView::Unstar(track.id))
        }),
{
}

/// Three steps lead through all themes and back.
pub proof fn law_themes_cycle(theme: AppTheme)
    ensures
        theme_after(theme) != theme,
        theme_after(theme_after(theme)) != theme,
        theme_after(theme_after(theme_after(theme))) == theme,
{
}

/// After a list was put in place, as many rows can be scrolled over as it has,
/// as long as 32 bits hold their number.
pub proof fn law_lists_scroll_over_their_rows(
    s: ScreenView,
    items: Seq<LibraryItemView>,
    header: Seq<char>,
)
    requires
        items.len() <= i32::MAX,
    ensures
        s.updated(ScreenUpdateView::ReplaceList { items, header }).scrollable() == items.len(),
        s.updated(ScreenUpdateView::OpenList { items, header }).scrollable() == items.len(),
{
}

/// While the keyboard is not shown, the buttons for playing reach the player from
/// every view and whatever else the window shows: fast-forward asks for the next
/// track, rewind for the previous one, and play/pause pauses what plays and resumes
/// what does not. None of them changes the window.
pub proof fn law_playing_buttons_reach_the_player(
    s: ScreenView,
    is_playing: bool,
    track: Option<TrackView>,
)
    requires
        !s.keyboard_visible,
    ensures
        s.event_effect(ClickwheelEvent::FastForward, is_playing, track) == Some(
            UiEffectView::Player(PlayerCommandView::Next),
        ),
        s.event_effect(ClickwheelEvent::Rewind, is_playing, track) == Some(
            UiEffectView::Player(PlayerCommandView::Previous),
        ),
        s.event_effect(ClickwheelEvent::PlayPause, true, track) == Some(
            UiEffectView::Player(PlayerCommandView::Pause),
        ),
        s.event_effect(ClickwheelEvent::PlayPause, false, track) == Some(
            UiEffectView::Player(PlayerCommandView::Resume),
        ),
        play_pause_of(true) == PlayerCommandView::Pause,
        play_pause_of(false) == PlayerCommandView::Resume,
        s.after_event(ClickwheelEvent::FastForward, track) == s,
        s.after_event(ClickwheelEvent::Rewind, track) == s,
        s.after_event(ClickwheelEvent::PlayPause, track) == s,
        s.accepts(ClickwheelEvent::FastForward),
        s.accepts(ClickwheelEvent::Rewind),
        s.accepts(ClickwheelEvent::PlayPause),
{
}

/// While the keyboard is not shown, holding a button down does nothing.
pub proof fn law_long_presses_do_nothing(
    s: ScreenView,
    is_playing: bool,
    track: Option<TrackView>,
)
    requires
        !s.keyboard_visible,
    ensures
        s.event_effect(ClickwheelEvent::LongSelect, is_playing, track) is None,
        s.event_effect(ClickwheelEvent::LongMenu, is_playing, track) is None,
        s.after_event(ClickwheelEvent::LongSelect, track) == s,
        s.after_event(ClickwheelEvent::LongMenu, track) == s,
{
}

/// Turning the wheel in the menu and in the library moves the selection by one row,
/// down and up, and stops at either end; nothing else changes, and nothing is asked
/// for.
pub proof fn law_wheel_moves_the_selection(
    s: ScreenView,
    is_playing: bool,
    track: Option<TrackView>,
)
    requires
        !s.keyboard_visible,
        s.current_view != AppView::NowPlaying,
        0 <= s.library_item_count <= i32::MAX,
    ensures
        s.event_effect(ClickwheelEvent::ScrollDown, is_playing, track) is None,
        s.event_effect(ClickwheelEvent::ScrollUp, is_playing, track) is None,
        s.current_view == AppView::Menu ==> {
            let down = s.after_event(ClickwheelEvent::ScrollDown, track);
            let up = s.after_event(ClickwheelEvent::ScrollUp, track);
            &&& down == (ScreenView { menu_selected_index: down.menu_selected_index, ..s })
            &&& up == (ScreenView { menu_selected_index: up.menu_selected_index, ..s })
            &&& s.menu_selected_index < 4 ==> down.menu_selected_index == s.menu_selected_index + 1
            &&& s.menu_selected_index >= 4 ==> down == s
            &&& s.menu_selected_index > 0 ==> up.menu_selected_index == s.menu_selected_index - 1
            &&& s.menu_selected_index <= 0 ==> up == s
        },
        s.current_view == AppView::Library ==> {
            let down = s.after_event(ClickwheelEvent::ScrollDown, track);
            let up = s.after_event(ClickwheelEvent::ScrollUp, track);
            let last = s.library_item_count - 1;
            &&& down == (ScreenView { library_selected_index: down.library_selected_index, ..s })
            &&& up == (ScreenView { library_selected_index: up.library_selected_index, ..s })
            &&& s.library_selected_index < last ==> down.library_selected_index
                == s.library_selected_index + 1
            &&& s.library_selected_index >= last ==> down == s
            &&& s.library_selected_index > 0 ==> up.library_selected_index
                == s.library_selected_index - 1
            &&& s.library_selected_index <= 0 ==> up == s
        },
{
}

/// In the view of what plays, turning the wheel makes it louder or softer and shows the
/// volume, unless the options are open: then it moves between the four of them and stops
/// at either end.
pub proof fn law_wheel_where_it_plays(
    s: ScreenView,
    is_playing: bool,
    track: Option<TrackView>,
)
    requires
        !s.keyboard_visible,
        s.current_view == AppView::NowPlaying,
    ensures
        !s.playback_options_visible ==> {
            let down = s.after_event(ClickwheelEvent::ScrollDown, track);
            let up = s.after_event(ClickwheelEvent::ScrollUp, track);
            &&& up == (ScreenView {
                volume_visible: true,
                vol_hide_gen: s.vol_hide_gen + 1,
                ..s
            })
            &&& down == up
            &&& s.event_effect(ClickwheelEvent::ScrollUp, is_playing, track) == Some(
                UiEffectView::StepVolume { up: true, generation: up.vol_hide_gen },
            )
            &&& s.event_effect(ClickwheelEvent::ScrollDown, is_playing, track) == Some(
                UiEffectView::StepVolume { up: false, generation: down.vol_hide_gen },
            )
        },
        s.playback_options_visible ==> {
            let down = s.after_event(ClickwheelEvent::ScrollDown, track);
            let up = s.after_event(ClickwheelEvent::ScrollUp, track);
            &&& down == (ScreenView { playback_options_index: down.playback_options_index, ..s })
            &&& up == (ScreenView { playback_options_index: up.playback_options_index, ..s })
            &&& s.playback_options_index < 3 ==> down.playback_options_index
                == s.playback_options_index + 1
            &&& s.playback_options_index >= 3 ==> down == s
            &&& s.playback_options_index > 0 ==> up.playback_options_index
                == s.playback_options_index - 1
            &&& s.playback_options_index <= 0 ==> up == s
            &&& s.event_effect(ClickwheelEvent::ScrollUp, is_playing, track) is None
            &&& s.event_effect(ClickwheelEvent::ScrollDown, is_playing, track) is None
        },
{
}

/// The button in the middle chooses the row that is selected, in the menu and in the
/// library, and leaves the window to the answer.
pub proof fn law_middle_button_chooses_the_row(
    s: ScreenView,
    is_playing: bool,
    track: Option<TrackView>,
)
    requires
        !s.keyboard_visible,
    ensures
        s.current_view == AppView::Menu ==> s.event_effect(
            ClickwheelEvent::Select,
            is_playing,
            track,
        ) == Some(UiEffectView::Nav(NavCommandView::MenuSelect(s.menu_selected_index))),
        s.current_view == AppView::Library ==> s.event_effect(
            ClickwheelEvent::Select,
            is_playing,
            track,
        ) == Some(UiEffectView::Nav(NavCommandView::LibrarySelect(s.library_selected_index))),
        s.current_view != AppView::NowPlaying ==> s.after_event(ClickwheelEvent::Select, track)
            == s,
{
}

/// Where something plays, the button in the middle opens the options at the first of
/// them. Of these, the first shuffles, the second repeats, the third stars the track
/// that plays or takes its star, and the last closes them.
pub proof fn law_playback_options(s: ScreenView, is_playing: bool, track: Option<TrackView>)
    requires
        !s.keyboard_visible,
        s.current_view == AppView::NowPlaying,
    ensures
        ({
            let effect = s.event_effect(ClickwheelEvent::Select, is_playing, track);
            let after = s.after_event(ClickwheelEvent::Select, track);
            let option = s.playback_options_index;
            &&& !s.playback_options_visible ==> effect is None && after == (ScreenView {
                playback_options_visible: true,
                playback_options_index: 0,
                ..s
            })
            &&& s.playback_options_visible && option == 0 ==> after == s && effect == Some(
                UiEffectView::Player(PlayerCommandView::ToggleShuffle),
            )
            &&& s.playback_options_visible && option == 1 ==> after == s && effect == Some(
                UiEffectView::Player(PlayerCommandView::CycleRepeat),
            )
            &&& s.playback_options_visible && option == 2 && track is None ==> after == s
                && effect is None
            &&& s.playback_options_visible && option == 2 && track is Some && s.track_starred
                ==> after == (ScreenView { track_starred: false, ..s }) && effect == Some(
                UiEffectView::Unstar(track->0.id),
            )
            &&& s.playback_options_visible && option == 2 && track is Some && !s.track_starred
                ==> after == (ScreenView { track_starred: true, ..s }) && effect == Some(
                UiEffectView::Star(track->0),
            )
            &&& s.playback_options_visible && (option < 0 || option >= 3) ==> effect is None && after == (
            ScreenView { playback_options_visible: false, ..s })
        }),
{
}

/// The menu button closes the options where they are open, goes a level up in the
/// library, and from elsewhere leads to the menu; nothing else changes.
pub proof fn law_menu_button(s: ScreenView, is_playing: bool, track: Option<TrackView>)
    requires
        !s.keyboard_visible,
    ensures
        ({
            let effect = s.event_effect(ClickwheelEvent::Menu, is_playing, track);
            let after = s.after_event(ClickwheelEvent::Menu, track);
            &&& s.current_view == AppView::Library ==> after == s && effect == Some(
                UiEffectView::Nav(NavCommandView::Back),
            )
            &&& s.current_view != AppView::Library ==> effect is None
            &&& s.current_view == AppView::NowPlaying && s.playback_options_visible ==> after == (
            ScreenView { playback_options_visible: false, ..s })
            &&& s.current_view == AppView::NowPlaying && !s.playback_options_visible ==> after == (
            ScreenView { current_view: AppView::Menu, ..s })
            &&& s.current_view == AppView::Menu ==> after == s
        }),
{
}

/// While the keyboard is shown, the wheel and the buttons left and right of it move
/// along the keys, menu and play/pause between the rows, the button in the middle
/// presses the selected key, and holding the menu button ends the input without a
/// text. Holding the middle does nothing.
pub proof fn law_keyboard_buttons(s: ScreenView, is_playing: bool, track: Option<TrackView>)
    requires
        s.keyboard_visible,
        0 <= s.keyboard_selected_index < 29,
    ensures
        ({
            let key = s.keyboard_selected_index;
            let right = s.after_event(ClickwheelEvent::ScrollDown, track);
            let left = s.after_event(ClickwheelEvent::ScrollUp, track);
            let up = s.after_event(ClickwheelEvent::Menu, track);
            let down = s.after_event(ClickwheelEvent::PlayPause, track);
            &&& right == (ScreenView {
                keyboard_selected_index: if key < 28 {
                    key + 1
                } else {
                    28
                },
                ..s
            })
            &&& left == (ScreenView {
                keyboard_selected_index: if key > 0 {
                    key - 1
                } else {
                    0
                },
                ..s
            })
            &&& s.after_event(ClickwheelEvent::FastForward, track) == right
            &&& s.after_event(ClickwheelEvent::Rewind, track) == left
            &&& up == (ScreenView { keyboard_selected_index: keyboard::above(key), ..s })
            &&& down == (ScreenView { keyboard_selected_index: keyboard::below(key), ..s })
            &&& s.after_event(ClickwheelEvent::LongSelect, track) == s
            &&& s.after_event(ClickwheelEvent::LongMenu, track) == (ScreenView {
                keyboard_visible: false,
                ..s
            })
            &&& s.event_effect(ClickwheelEvent::LongMenu, is_playing, track) == Some(
                UiEffectView::Nav(NavCommandView::KeyboardDismissed),
            )
        }),
        forall|event: ClickwheelEvent|
            event != ClickwheelEvent::Select && event != ClickwheelEvent::LongMenu ==> (
            #[trigger] s.event_effect(event, is_playing, track)) is None,
{
}

/// The last key hands over the text that was typed and takes the keyboard away; every
/// other key changes the text alone.
pub proof fn law_pressing_keys(s: ScreenView, is_playing: bool, track: Option<TrackView>)
    requires
        s.keyboard_visible,
    ensures
        ({
            let effect = s.event_effect(ClickwheelEvent::Select, is_playing, track);
            let after = s.after_event(ClickwheelEvent::Select, track);
            &&& s.keyboard_selected_index == 28 ==> effect == Some(
                UiEffectView::Nav(NavCommandView::KeyboardSubmitted(s.keyboard_text)),
            ) && after == (ScreenView { keyboard_visible: false, ..s })
            &&& s.keyboard_selected_index != 28 ==> effect is None && after == (ScreenView {
                keyboard_text: keyboard::typed(s.keyboard_text, s.keyboard_selected_index),
                ..s
            })
            &&& after == s.key_pressed(s.keyboard_selected_index)
            &&& effect == s.key_effect(s.keyboard_selected_index)
        }),
{
}

/// The events that are handled are what the buttons do on their own.
pub proof fn law_events_are_their_steps(
    s: ScreenView,
    is_playing: bool,
    track: Option<TrackView>,
)
    requires
        !s.keyboard_visible,
    ensures
        s.after_event(ClickwheelEvent::ScrollUp, track) == s.scrolled_up(),
        s.event_effect(ClickwheelEvent::ScrollUp, is_playing, track) == s.scroll_effect(true),
        s.after_event(ClickwheelEvent::ScrollDown, track) == s.scrolled_down(),
        s.event_effect(ClickwheelEvent::ScrollDown, is_playing, track) == s.scroll_effect(false),
        s.after_event(ClickwheelEvent::Select, track) == s.selected(track),
        s.event_effect(ClickwheelEvent::Select, is_playing, track) == s.select_effect(track),
        s.after_event(ClickwheelEvent::Menu, track) == s.menu_button(),
        s.event_effect(ClickwheelEvent::Menu, is_playing, track) == s.menu_effect(),
{
}

/// Every event can be taken by a window whose selections point at something, whose
/// rows can be counted in 32 bits, and whose showings of the volume are not used up.
pub proof fn law_events_can_be_taken(s: ScreenView, event: ClickwheelEvent)
    requires
        s.well_formed(),
        0 <= s.library_item_count <= i32::MAX,
        s.vol_hide_gen < u64::MAX,
    ensures
        s.accepts(event),
        s.can_scroll_up(),
        s.can_scroll_down(),
{
}

/// A list that is put in place, or that the library is opened with, is shown from its
/// first row under its header, and only the latter changes the view.
pub proof fn law_lists_are_put_in_place(
    s: ScreenView,
    items: Seq<LibraryItemView>,
    row: LibraryItemView,
    header: Seq<char>,
)
    ensures
        s.updated(ScreenUpdateView::ReplaceList { items, header }) == (ScreenView {
            library_items: items,
            library_item_count: items.len() as int,
            library_header: header,
            library_selected_index: 0,
            library_empty_text: "No items"@,
            ..s
        }),
        s.updated(ScreenUpdateView::OpenList { items, header }) == (ScreenView {
            current_view: AppView::Library,
            library_items: items,
            library_item_count: items.len() as int,
            library_header: header,
            library_selected_index: 0,
            ..s
        }),
        ({
            let loading = s.updated(ScreenUpdateView::OpenLoading { row, header });
            &&& loading.current_view == AppView::Library
            &&& loading.library_items.len() == 1
            &&& loading.library_items[0] == row
            &&& loading.library_item_count == 1
            &&& loading.library_header == header
            &&& loading.library_selected_index == 0
            &&& loading.library_empty_text == "Please wait…"@
        }),
        ({
            let empty = s.updated(ScreenUpdateView::OpenEmpty { header });
            &&& empty.current_view == AppView::Library
            &&& empty.library_items.len() == 0
            &&& empty.library_item_count == s.library_item_count
            &&& empty.library_header == header
            &&& empty.library_selected_index == 0
            &&& empty.library_empty_text == s.library_empty_text
        }),
{
}

/// The other changes touch what they name and nothing else. A keyboard opens with no
/// text and its first key selected.
pub proof fn law_updates_touch_what_they_name(
    s: ScreenView,
    words: Seq<char>,
    view: AppView,
    row: int,
)
    ensures
        s.updated(ScreenUpdateView::SetHeader(words)) == (ScreenView { library_header: words, ..s }),
        s.updated(ScreenUpdateView::SetEmptyText(words)) == (ScreenView {
            library_empty_text: words,
            ..s
        }),
        s.updated(ScreenUpdateView::SetView(view)) == (ScreenView { current_view: view, ..s }),
        s.updated(ScreenUpdateView::SelectRow(row)) == (ScreenView {
            library_selected_index: row,
            ..s
        }),
        s.updated(ScreenUpdateView::NextTheme) == (ScreenView {
            current_theme: theme_after(s.current_theme),
            ..s
        }),
        s.updated(ScreenUpdateView::OpenKeyboard { prompt: words }) == (ScreenView {
            keyboard_visible: true,
            keyboard_text: Seq::empty(),
            keyboard_prompt: words,
            keyboard_selected_index: 0,
            ..s
        }),
{
}

/// The volume is taken off the window by its own showing and by no other, and nothing
/// else is touched.
pub proof fn law_volume_goes(s: ScreenView, generation: int)
    ensures
        s.volume_hidden(s.vol_hide_gen) == (ScreenView { volume_visible: false, ..s }),
        generation != s.vol_hide_gen ==> s.volume_hidden(generation) == s,
{
}

/// The themes go by their names, in the order in which one follows the other, and any
/// other name stands for the first.
pub proof fn law_themes_by_name(name: Seq<char>)
    ensures
        theme_named("liquid_glass"@) == AppTheme::LiquidGlass,
        theme_named("material"@) == theme_after(AppTheme::LiquidGlass),
        theme_named("classic_ipod"@) == theme_after(AppTheme::Material),
        theme_named("material"@) == AppTheme::Material,
        theme_named("classic_ipod"@) == AppTheme::ClassicIPod,
        name != "material"@ && name != "classic_ipod"@ ==> theme_named(name)
            == AppTheme::LiquidGlass,
{
    reveal_strlit("liquid_glass");
    reveal_strlit("material");
    reveal_strlit("classic_ipod");
    assert("liquid_glass"@[0] != "material"@[0]);
    assert("liquid_glass"@[0] != "classic_ipod"@[0]);
    assert("material"@[0] != "classic_ipod"@[0]);
}

/// A window opens at the first entry of the menu, with nothing over it and an empty
/// library.
pub proof fn law_windows_open_at_the_menu(theme: AppTheme)
    ensures
        ({
            let s = ScreenView::initial(theme);
            &&& s.current_view == AppView::Menu
            &&& s.current_theme == theme
            &&& s.menu_selected_index == 0
            &&& s.library_items.len() == 0
            &&& s.library_item_count == 0
            &&& s.library_selected_index == 0
            &&& s.library_header.len() == 0
            &&& s.library_empty_text == "No items"@
            &&& !s.playback_options_visible
            &&& s.playback_options_index == 0
            &&& !s.volume_visible
            &&& s.vol_hide_gen == 0
            &&& !s.track_starred
            &&& !s.keyboard_visible
            &&& s.keyboard_text.len() == 0
            &&& s.keyboard_prompt.len() == 0
            &&& s.keyboard_selected_index == 0
        }),
{
}

} // verus!
