//! The wheel's emulator: how its events get to the player over a socket that may
//! not be there yet, and may go away.

use vstd::prelude::*;

use crate::clickwheel;

verus! {

/// How long to wait before another attempt to connect, in milliseconds.
pub const RETRY_DELAY_MILLIS: u64 = 400;

/// What the relay waits for.
#[derive(Debug, Clone, Copy, PartialEq, Eq, Structural)]
pub enum Relay {
    /// A connection.
    Connecting,
    /// An event of the wheel to send.
    Listening,
    /// An event that was handed over to be sent.
    Sending,
    /// Nothing: the emulator's window was closed.
    Closed,
}

/// What happened.
#[derive(Debug)]
pub enum RelayEvent {
    /// The socket was opened.
    Opened,
    /// The socket could not be opened.
    Refused,
    /// The wheel was used.
    Wheel(String),
    /// The window was closed.
    WindowClosed,
    /// A line was sent.
    Sent,
    /// The socket broke.
    Broken,
}

/// What to do next, in order. The last of a list of actions brings an event back.
#[derive(Debug)]
pub enum RelayAction {
    /// Show whether the player is there.
    ShowConnected(bool),
    /// Wait for so many milliseconds.
    Wait(u64),
    /// Open the socket.
    Connect,
    /// Wait for the wheel or the window.
    Listen,
    /// Write the line to the socket.
    Send(String),
}

pub enum RelayEventView {
    Opened,
    Refused,
    Wheel(Seq<char>),
    WindowClosed,
    Sent,
    Broken,
}

pub enum RelayActionView {
    ShowConnected(bool),
    Wait(u64),
    Connect,
    Listen,
    Send(Seq<char>),
}

impl DeepView for RelayEvent {
    type V = RelayEventView;

    open spec fn deep_view(&self) -> RelayEventView {
        match self {
            RelayEvent::Opened => RelayEventView::Opened,
            RelayEvent::Refused => RelayEventView::Refused,
            RelayEvent::Wheel(name) => RelayEventView::Wheel(name@),
            RelayEvent::WindowClosed => RelayEventView::WindowClosed,
            RelayEvent::Sent => RelayEventView::Sent,
            RelayEvent::Broken => RelayEventView::Broken,
        }
    }
}

impl DeepView for RelayAction {
    type V = RelayActionView;

    open spec fn deep_view(&self) -> RelayActionView {
        match self {
            RelayAction::ShowConnected(connected) => RelayActionView::ShowConnected(*connected),
            RelayAction::Wait(millis) => RelayActionView::Wait(*millis),
            RelayAction::Connect => RelayActionView::Connect,
            RelayAction::Listen => RelayActionView::Listen,
            RelayAction::Send(line) => RelayActionView::Send(line@),
        }
    }
}

/// The event is one that the relay waits for.
pub open spec fn awaited(relay: Relay, event: RelayEventView) -> bool {
    match relay {
        Relay::Connecting => event is Opened || event is Refused,
        Relay::Listening => event is Wheel || event is WindowClosed,
        Relay::Sending => event is Sent || event is Broken,
        Relay::Closed => false,
    }
}

/// What the relay waits for after an event.
pub open spec fn after(event: RelayEventView) -> Relay {
    match event {
        RelayEventView::Opened | RelayEventView::Sent => Relay::Listening,
        RelayEventView::Refused | RelayEventView::Broken => Relay::Connecting,
        RelayEventView::Wheel(_) => Relay::Sending,
        RelayEventView::WindowClosed => Relay::Closed,
    }
}

/// What an event asks for. An event of the wheel that could not be sent is not
/// sent again.
pub open spec fn actions_of(event: RelayEventView) -> Seq<RelayActionView> {
    match event {
        RelayEventView::Opened => seq![
            RelayActionView::ShowConnected(true),
            RelayActionView::Listen,
        ],
        RelayEventView::Refused => seq![
            RelayActionView::Wait(RETRY_DELAY_MILLIS),
            RelayActionView::ShowConnected(false),
            RelayActionView::Connect,
        ],
        RelayEventView::Wheel(name) => seq![RelayActionView::Send(name + "\n"@)],
        RelayEventView::WindowClosed => Seq::empty(),
        RelayEventView::Sent => seq![RelayActionView::Listen],
        RelayEventView::Broken => seq![
            RelayActionView::ShowConnected(false),
            RelayActionView::Connect,
        ],
    }
}

impl Relay {
    /// A relay without a connection, and what it asks for first.
    pub fn start() -> (r: (Relay, Vec<RelayAction>))
        ensures
            r.0 == Relay::Connecting,
            r.1.deep_view() == seq![RelayActionView::ShowConnected(false), RelayActionView::Connect],
    {
        let mut actions: Vec<RelayAction> = Vec::new();
        actions.push(RelayAction::ShowConnected(false));
        actions.push(RelayAction::Connect);
        assert(actions.deep_view() =~= seq![
            RelayActionView::ShowConnected(false),
            RelayActionView::Connect,
        ]);
        (Relay::Connecting, actions)
    }

    /// What the relay waited for happened.
    pub fn step(&mut self, event: RelayEvent) -> (r: Vec<RelayAction>)
        requires
            awaited(*old(self), event.deep_view()),
        ensures
            *final(self) == after(event.deep_view()),
            r.deep_view() == actions_of(event.deep_view()),
    {
        let mut actions: Vec<RelayAction> = Vec::new();
        let ghost happened = event.deep_view();
        match event {
            RelayEvent::Opened => {
                *self = Relay::Listening;
                actions.push(RelayAction::ShowConnected(true));
                actions.push(RelayAction::Listen);
            },
            RelayEvent::Refused => {
                *self = Relay::Connecting;
                actions.push(RelayAction::Wait(RETRY_DELAY_MILLIS));
                actions.push(RelayAction::ShowConnected(false));
                actions.push(RelayAction::Connect);
            },
            RelayEvent::Wheel(name) => {
                *self = Relay::Sending;
                actions.push(RelayAction::Send(clickwheel::event_line(name.as_str())));
            },
            RelayEvent::WindowClosed => {
                *self = Relay::Closed;
            },
            RelayEvent::Sent => {
                *self = Relay::Listening;
                actions.push(RelayAction::Listen);
            },
            RelayEvent::Broken => {
                *self = Relay::Connecting;
                actions.push(RelayAction::ShowConnected(false));
                actions.push(RelayAction::Connect);
            },
        }
        assert(actions.deep_view() =~= actions_of(happened));
        actions
    }
}

// ── Laws ─────────────────────────────────────────────────────────────────────

/// The last action asks for what the relay then waits for: the socket while it
/// connects, the wheel while it listens, the line while it sends, and nothing
/// once it is closed.
pub proof fn law_last_action_is_awaited(event: RelayEventView)
    ensures
        match after(event) {
            Relay::Connecting => actions_of(event).last() == RelayActionView::Connect,
            Relay::Listening => actions_of(event).last() == RelayActionView::Listen,
            Relay::Sending => actions_of(event).last() is Send,
            Relay::Closed => actions_of(event).len() == 0,
        },
{
}

/// A word that names an event of the wheel arrives as that event.
pub proof fn law_wheel_events_arrive(e: clickwheel::ClickwheelEvent)
    ensures
        actions_of(RelayEventView::Wheel(clickwheel::name_of(e)))[0] matches RelayActionView::Send(
            line,
        ) && clickwheel::names(crate::text::trimmed(line), Some(e)),
{
    clickwheel::law_lines_carry_events(e);
}

/// The window shows a connection from its opening until it breaks: only opening
/// shows it, and every attempt to connect again takes it back first.
pub proof fn law_shown_connection(event: RelayEventView)
    ensures
        actions_of(event).contains(RelayActionView::ShowConnected(true)) <==> event is Opened,
        actions_of(event).contains(RelayActionView::Connect) ==> actions_of(event).contains(
            RelayActionView::ShowConnected(false),
        ),
{
    let a = actions_of(event);
    match event {
        RelayEventView::Opened => {
            assert(a[0] == RelayActionView::ShowConnected(true));
        },
        RelayEventView::Refused => {
            assert(a[1] == RelayActionView::ShowConnected(false));
        },
        RelayEventView::Broken => {
            assert(a[0] == RelayActionView::ShowConnected(false));
        },
        _ => {},
    }
}

/// What the relay waits for at each time, and what then comes: a connection, which
/// opens or is refused; the wheel or the window; and the line, which is sent or breaks
/// the connection. Once it is closed it waits for nothing.
pub proof fn law_what_is_awaited(relay: Relay, name: Seq<char>)
    ensures
        awaited(relay, RelayEventView::Opened) <==> relay == Relay::Connecting,
        awaited(relay, RelayEventView::Refused) <==> relay == Relay::Connecting,
        awaited(relay, RelayEventView::Wheel(name)) <==> relay == Relay::Listening,
        awaited(relay, RelayEventView::WindowClosed) <==> relay == Relay::Listening,
        awaited(relay, RelayEventView::Sent) <==> relay == Relay::Sending,
        awaited(relay, RelayEventView::Broken) <==> relay == Relay::Sending,
{
}

/// A word of the wheel is sent as a line of its own, and nothing else is; what was sent
/// is waited for, and then the wheel again.
pub proof fn law_words_are_sent_as_lines(name: Seq<char>)
    ensures
        actions_of(RelayEventView::Wheel(name)).len() == 1,
        actions_of(RelayEventView::Wheel(name))[0] == RelayActionView::Send(name.push('\n')),
        after(RelayEventView::Wheel(name)) == Relay::Sending,
        after(RelayEventView::Sent) == Relay::Listening,
        actions_of(RelayEventView::Sent) == seq![RelayActionView::Listen],
        after(RelayEventView::Opened) == Relay::Listening,
        actions_of(RelayEventView::Opened) == seq![
            RelayActionView::ShowConnected(true),
            RelayActionView::Listen,
        ],
{
    reveal_strlit("\n");
    assert(name + "\n"@ =~= name.push('\n'));
}

/// The relay never gives up on its own: a connection that is refused is tried again
/// after four tenths of a second, one that breaks at once, and only the window's closing
/// ends it.
pub proof fn law_connections_are_tried_again(event: RelayEventView)
    ensures
        after(RelayEventView::Refused) == Relay::Connecting,
        actions_of(RelayEventView::Refused) == seq![
            RelayActionView::Wait(400),
            RelayActionView::ShowConnected(false),
            RelayActionView::Connect,
        ],
        after(RelayEventView::Broken) == Relay::Connecting,
        actions_of(RelayEventView::Broken) == seq![
            RelayActionView::ShowConnected(false),
            RelayActionView::Connect,
        ],
        after(event) == Relay::Closed <==> event is WindowClosed,
        actions_of(RelayEventView::WindowClosed).len() == 0,
{
}

} // verus!
