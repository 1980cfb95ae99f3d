use navipod::clickwheel::ClickwheelEvent;
use navipod::player::PlayerCommand;
use navipod::subsonic::Track;
use navipod::ui::items::LibraryItem;
use navipod::ui::nav::NavCommand;
use navipod::ui::screen::{
    next_theme, play_pause_command, theme_from_name, AppTheme, AppView, Screen, ScreenUpdate, UiEffect,
};

fn screen() -> Screen {
    Screen::new(AppTheme::LiquidGlass)
}

fn item(title: &str) -> LibraryItem {
    LibraryItem { title: title.to_string(), subtitle: String::new() }
}

fn list(n: usize) -> ScreenUpdate {
    ScreenUpdate::ReplaceList {
        items: (0..n).map(|i| item(&i.to_string())).collect(),
        header: "List".to_string(),
    }
}

fn track() -> Option<Track> {
    Some(Track {
        id: "t1".to_string(),
        title: "T".to_string(),
        artist: None,
        album: None,
        duration: None,
        cover_art: None,
        track_number: None,
    })
}

fn send(s: &mut Screen, event: ClickwheelEvent) -> Option<UiEffect> {
    assert!(s.can_handle(event));
    s.handle_event(event, true, &track())
}

#[test]
fn the_menu_scrolls_between_its_ends() {
    let mut s = screen();
    assert_eq!(s.current_view, AppView::Menu);
    for expected in [1, 2, 3, 4, 4] {
        assert!(send(&mut s, ClickwheelEvent::ScrollDown).is_none());
        assert_eq!(s.menu_selected_index, expected);
    }
    for expected in [3, 2, 1, 0, 0] {
        send(&mut s, ClickwheelEvent::ScrollUp);
        assert_eq!(s.menu_selected_index, expected);
    }
    send(&mut s, ClickwheelEvent::ScrollDown);
    match send(&mut s, ClickwheelEvent::Select) {
        Some(UiEffect::Nav(NavCommand::MenuSelect(1))) => {}
        other => panic!("{other:?}"),
    }
}

#[test]
fn lists_scroll_over_their_rows() {
    let mut s = screen();
    s.apply(ScreenUpdate::SetView(AppView::Library));
    s.apply(list(3));
    for expected in [1, 2, 2] {
        send(&mut s, ClickwheelEvent::ScrollDown);
        assert_eq!(s.library_selected_index, expected);
    }
    match send(&mut s, ClickwheelEvent::Select) {
        Some(UiEffect::Nav(NavCommand::LibrarySelect(2))) => {}
        other => panic!("{other:?}"),
    }
    match send(&mut s, ClickwheelEvent::Menu) {
        Some(UiEffect::Nav(NavCommand::Back)) => {}
        other => panic!("{other:?}"),
    }
    assert_eq!(s.current_view, AppView::Library);
    s.apply(list(0));
    assert_eq!(s.library_selected_index, 0);
    send(&mut s, ClickwheelEvent::ScrollDown);
    assert_eq!(s.library_selected_index, 0);
    assert_eq!(s.library_empty_text, "No items");
}

#[test]
fn what_updates_change() {
    let mut s = screen();
    s.apply(list(5));
    assert_eq!(s.current_view, AppView::Menu);
    assert_eq!(s.library_header, "List");
    s.apply(ScreenUpdate::OpenEmpty { header: "Loading…".to_string() });
    assert_eq!(s.current_view, AppView::Library);
    assert!(s.library_items.is_empty());
    assert_eq!(s.library_item_count, 5);
    s.apply(ScreenUpdate::OpenLoading { row: item("toggle"), header: "Scanning".to_string() });
    assert_eq!(s.library_item_count, 1);
    assert_eq!(s.library_items[0].title, "toggle");
    assert_eq!(s.library_empty_text, "Please wait…");
    s.apply(ScreenUpdate::OpenList { items: vec![item("a"), item("b")], header: "Settings".to_string() });
    assert_eq!(s.library_item_count, 2);
    assert_eq!(s.library_header, "Settings");
    assert_eq!(s.library_empty_text, "Please wait…");
    s.apply(ScreenUpdate::SelectRow(1));
    assert_eq!(s.library_selected_index, 1);
    s.apply(ScreenUpdate::SetHeader("Error"));
    assert_eq!(s.library_header, "Error");
    assert_eq!(s.library_selected_index, 1);
    s.apply(ScreenUpdate::SetEmptyText("Nothing"));
    assert_eq!(s.library_empty_text, "Nothing");
    s.apply(ScreenUpdate::NextTheme);
    assert_eq!(s.current_theme, AppTheme::Material);
    s.apply(ScreenUpdate::SetView(AppView::NowPlaying));
    assert_eq!(s.current_view, AppView::NowPlaying);
}

#[test]
fn scrolling_changes_the_volume_of_what_plays() {
    let mut s = screen();
    s.apply(ScreenUpdate::SetView(AppView::NowPlaying));
    match send(&mut s, ClickwheelEvent::ScrollUp) {
        Some(UiEffect::StepVolume { up: true, generation: 1 }) => {}
        other => panic!("{other:?}"),
    }
    match send(&mut s, ClickwheelEvent::ScrollDown) {
        Some(UiEffect::StepVolume { up: false, generation: 2 }) => {}
        other => panic!("{other:?}"),
    }
    assert!(s.volume_visible);
    s.hide_volume(1);
    assert!(s.volume_visible);
    s.hide_volume(2);
    assert!(!s.volume_visible);
}

#[test]
fn playback_options() {
    let mut s = screen();
    s.apply(ScreenUpdate::SetView(AppView::NowPlaying));
    assert!(send(&mut s, ClickwheelEvent::Select).is_none());
    assert!(s.playback_options_visible);
    match send(&mut s, ClickwheelEvent::Select) {
        Some(UiEffect::Player(PlayerCommand::ToggleShuffle)) => {}
        other => panic!("{other:?}"),
    }
    send(&mut s, ClickwheelEvent::ScrollDown);
    match send(&mut s, ClickwheelEvent::Select) {
        Some(UiEffect::Player(PlayerCommand::CycleRepeat)) => {}
        other => panic!("{other:?}"),
    }
    send(&mut s, ClickwheelEvent::ScrollDown);
    match send(&mut s, ClickwheelEvent::Select) {
        Some(UiEffect::Star(t)) => assert_eq!(t.id, "t1"),
        other => panic!("{other:?}"),
    }
    assert!(s.track_starred);
    match send(&mut s, ClickwheelEvent::Select) {
        Some(UiEffect::Unstar(id)) => assert_eq!(id, "t1"),
        other => panic!("{other:?}"),
    }
    assert!(!s.track_starred);
    assert!(s.handle_event(ClickwheelEvent::Select, false, &None).is_none());
    assert!(!s.track_starred);
    send(&mut s, ClickwheelEvent::ScrollDown);
    send(&mut s, ClickwheelEvent::ScrollDown);
    assert_eq!(s.playback_options_index, 3);
    assert!(send(&mut s, ClickwheelEvent::Select).is_none());
    assert!(!s.playback_options_visible);
}

#[test]
fn the_menu_button_closes_the_options_first() {
    let mut s = screen();
    s.apply(ScreenUpdate::SetView(AppView::NowPlaying));
    send(&mut s, ClickwheelEvent::Select);
    assert!(send(&mut s, ClickwheelEvent::Menu).is_none());
    assert_eq!(s.current_view, AppView::NowPlaying);
    assert!(!s.playback_options_visible);
    assert!(send(&mut s, ClickwheelEvent::Menu).is_none());
    assert_eq!(s.current_view, AppView::Menu);
}

#[test]
fn buttons_of_the_player() {
    let mut s = screen();
    let mut command = |event: ClickwheelEvent, playing: bool| match s.handle_event(event, playing, &None) {
        Some(UiEffect::Player(command)) => format!("{command:?}"),
        other => format!("{other:?}"),
    };
    assert_eq!(command(ClickwheelEvent::PlayPause, true), "Pause");
    assert_eq!(command(ClickwheelEvent::PlayPause, false), "Resume");
    assert_eq!(command(ClickwheelEvent::FastForward, true), "Next");
    assert_eq!(command(ClickwheelEvent::Rewind, true), "Previous");
    assert_eq!(command(ClickwheelEvent::LongSelect, true), "None");
    assert_eq!(command(ClickwheelEvent::LongMenu, true), "None");
    assert!(matches!(play_pause_command(true), PlayerCommand::Pause));
    assert!(matches!(play_pause_command(false), PlayerCommand::Resume));
}

#[test]
fn the_keyboard_takes_every_event() {
    let mut s = screen();
    s.apply(ScreenUpdate::OpenKeyboard { prompt: "WiFi Password: Home".to_string() });
    assert!(s.keyboard_visible);
    assert_eq!(s.keyboard_prompt, "WiFi Password: Home");
    for (event, key) in [
        (ClickwheelEvent::ScrollDown, 1),
        (ClickwheelEvent::FastForward, 2),
        (ClickwheelEvent::PlayPause, 12),
        (ClickwheelEvent::Menu, 2),
        (ClickwheelEvent::Rewind, 1),
        (ClickwheelEvent::ScrollUp, 0),
        (ClickwheelEvent::LongSelect, 0),
    ] {
        assert!(send(&mut s, event).is_none());
        assert_eq!(s.keyboard_selected_index, key);
    }
    assert_eq!(s.menu_selected_index, 0);
    assert!(send(&mut s, ClickwheelEvent::Select).is_none());
    assert_eq!(s.keyboard_text, "Q");
    s.keyboard_key_pressed(27);
    s.keyboard_key_pressed(26);
    s.keyboard_key_pressed(99);
    assert_eq!(s.keyboard_text, "Q");
    match s.keyboard_key_pressed(28) {
        Some(UiEffect::Nav(NavCommand::KeyboardSubmitted(text))) => assert_eq!(text, "Q"),
        other => panic!("{other:?}"),
    }
    assert!(!s.keyboard_visible);
}

#[test]
fn a_long_press_dismisses_the_keyboard() {
    let mut s = screen();
    s.apply(ScreenUpdate::OpenKeyboard { prompt: "?".to_string() });
    match send(&mut s, ClickwheelEvent::LongMenu) {
        Some(UiEffect::Nav(NavCommand::KeyboardDismissed)) => {}
        other => panic!("{other:?}"),
    }
    assert!(!s.keyboard_visible);
    assert_eq!(s.current_view, AppView::Menu);
}

#[test]
fn events_that_cannot_be_taken() {
    let mut s = screen();
    s.current_view = AppView::NowPlaying;
    s.vol_hide_gen = u64::MAX;
    assert!(!s.can_handle(ClickwheelEvent::ScrollUp));
    assert!(!s.can_handle(ClickwheelEvent::ScrollDown));
    assert!(s.can_handle(ClickwheelEvent::Select));
    s.keyboard_visible = true;
    assert!(s.can_handle(ClickwheelEvent::ScrollUp));
    s.keyboard_selected_index = i32::MIN;
    assert!(!s.can_handle(ClickwheelEvent::Rewind));
    s.keyboard_selected_index = i32::MAX;
    assert!(!s.can_handle(ClickwheelEvent::FastForward));
}

#[test]
fn themes_by_name_and_in_turn() {
    assert_eq!(theme_from_name("material"), AppTheme::Material);
    assert_eq!(theme_from_name("classic_ipod"), AppTheme::ClassicIPod);
    assert_eq!(theme_from_name("liquid_glass"), AppTheme::LiquidGlass);
    assert_eq!(theme_from_name(""), AppTheme::LiquidGlass);
    assert_eq!(next_theme(AppTheme::LiquidGlass), AppTheme::Material);
    assert_eq!(next_theme(AppTheme::Material), AppTheme::ClassicIPod);
    assert_eq!(next_theme(AppTheme::ClassicIPod), AppTheme::LiquidGlass);
}
