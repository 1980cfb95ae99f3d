use navipod::clickwheel::{
    clickwheel_binary_path, event_line, event_name, parse_event, parse_line, ClickwheelEvent,
    DEV_SOCKET_PATH,
};
use navipod::relay::{Relay, RelayAction, RelayEvent, RETRY_DELAY_MILLIS};

const ALL: [(ClickwheelEvent, &str); 9] = [
    (ClickwheelEvent::ScrollDown, "SCROLL_DOWN"),
    (ClickwheelEvent::ScrollUp, "SCROLL_UP"),
    (ClickwheelEvent::Select, "SELECT"),
    (ClickwheelEvent::Menu, "MENU"),
    (ClickwheelEvent::PlayPause, "PLAY_PAUSE"),
    (ClickwheelEvent::FastForward, "FAST_FORWARD"),
    (ClickwheelEvent::Rewind, "REWIND"),
    (ClickwheelEvent::LongSelect, "LONG_SELECT"),
    (ClickwheelEvent::LongMenu, "LONG_MENU"),
];

#[test]
fn every_event_has_its_word() {
    for (event, word) in ALL {
        assert_eq!(event_name(event), word);
        assert_eq!(parse_event(word), Some(event));
        assert_eq!(parse_line(&event_line(word)), Some(event));
        assert_eq!(parse_line(&format!("  {word}\r\n")), Some(event));
    }
}

#[test]
fn other_words_name_nothing() {
    for word in ["", "select", " SELECT", "SELECT ", "SCROLL", "SCROLL_UPS"] {
        assert_eq!(parse_event(word), None, "{word:?}");
    }
    assert_eq!(parse_line("volume"), None);
}

#[test]
fn paths_of_the_wheel() {
    assert_eq!(clickwheel_binary_path(), "/usr/local/bin/clickwheel-reader");
    assert_eq!(DEV_SOCKET_PATH, "/tmp/navipod-cw.sock");
}

#[test]
fn the_relay_connects_sends_and_connects_again() {
    let (mut relay, actions) = Relay::start();
    assert!(matches!(actions[..], [RelayAction::ShowConnected(false), RelayAction::Connect]));
    let actions = relay.step(RelayEvent::Refused);
    assert_eq!(relay, Relay::Connecting);
    assert!(matches!(
        actions[..],
        [RelayAction::Wait(400), RelayAction::ShowConnected(false), RelayAction::Connect]
    ));
    assert_eq!(RETRY_DELAY_MILLIS, 400);
    let actions = relay.step(RelayEvent::Opened);
    assert_eq!(relay, Relay::Listening);
    assert!(matches!(actions[..], [RelayAction::ShowConnected(true), RelayAction::Listen]));
    let actions = relay.step(RelayEvent::Wheel("MENU".to_string()));
    assert_eq!(relay, Relay::Sending);
    match &actions[..] {
        [RelayAction::Send(line)] => {
            assert_eq!(line, "MENU\n");
            assert_eq!(parse_line(line), Some(ClickwheelEvent::Menu));
        }
        other => panic!("{other:?}"),
    }
    assert!(matches!(relay.step(RelayEvent::Sent)[..], [RelayAction::Listen]));
    relay.step(RelayEvent::Wheel("MENU".to_string()));
    let actions = relay.step(RelayEvent::Broken);
    assert_eq!(relay, Relay::Connecting);
    assert!(matches!(actions[..], [RelayAction::ShowConnected(false), RelayAction::Connect]));
}

#[test]
fn the_relay_ends_with_the_window() {
    let (mut relay, _) = Relay::start();
    relay.step(RelayEvent::Opened);
    assert!(relay.step(RelayEvent::WindowClosed).is_empty());
    assert_eq!(relay, Relay::Closed);
}
