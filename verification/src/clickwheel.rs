//! The click wheel: its events and the lines that carry them.

use vstd::prelude::*;

use crate::text;

verus! {

#[derive(Debug, Clone, Copy, PartialEq, Eq, Structural)]
pub enum ClickwheelEvent {
    /// Clockwise rotation tick (one detent)
    ScrollDown,
    /// Counter-clockwise rotation tick
    ScrollUp,
    /// Centre button press
    Select,
    /// Menu button (top of wheel)
    Menu,
    /// Play/pause button (bottom of wheel)
    PlayPause,
    /// Fast-forward (right of wheel)
    FastForward,
    /// Rewind (left of wheel)
    Rewind,
    /// Long-press of the centre button
    LongSelect,
    /// Long-press of the MENU button — dismisses keyboard modal
    LongMenu,
}

/// Where the program that reads the wheel is installed.
pub fn clickwheel_binary_path() -> (r: &'static str)
    ensures
        r@ == "/usr/local/bin/clickwheel-reader"@,
{
    "/usr/local/bin/clickwheel-reader"
}

/// Where events from an emulated wheel come in.
pub const DEV_SOCKET_PATH: &'static str = "/tmp/navipod-cw.sock";

/// The word that stands for an event.
pub open spec fn name_of(e: ClickwheelEvent) -> Seq<char> {
    match e {
        ClickwheelEvent::ScrollDown => "SCROLL_DOWN"@,
        ClickwheelEvent::ScrollUp => "SCROLL_UP"@,
        ClickwheelEvent::Select => "SELECT"@,
        ClickwheelEvent::Menu => "MENU"@,
        ClickwheelEvent::PlayPause => "PLAY_PAUSE"@,
        ClickwheelEvent::FastForward => "FAST_FORWARD"@,
        ClickwheelEvent::Rewind => "REWIND"@,
        ClickwheelEvent::LongSelect => "LONG_SELECT"@,
        ClickwheelEvent::LongMenu => "LONG_MENU"@,
    }
}

/// The event that a text names: an event whose word the text is, if there is
/// one.
pub open spec fn names(s: Seq<char>, e: Option<ClickwheelEvent>) -> bool {
    match e {
        Some(e) => s == name_of(e),
        None => forall|e: ClickwheelEvent| s != #[trigger] name_of(e),
    }
}

/// The word for an event.
pub fn event_name(e: ClickwheelEvent) -> (r: &'static str)
    ensures
        r@ == name_of(e),
{
    match e {
        ClickwheelEvent::ScrollDown => "SCROLL_DOWN",
        ClickwheelEvent::ScrollUp => "SCROLL_UP",
        ClickwheelEvent::Select => "SELECT",
        ClickwheelEvent::Menu => "MENU",
        ClickwheelEvent::PlayPause => "PLAY_PAUSE",
        ClickwheelEvent::FastForward => "FAST_FORWARD",
        ClickwheelEvent::Rewind => "REWIND",
        ClickwheelEvent::LongSelect => "LONG_SELECT",
        ClickwheelEvent::LongMenu => "LONG_MENU",
    }
}

/// The event that a text names.
pub fn parse_event(s: &str) -> (r: Option<ClickwheelEvent>)
    ensures
        names(s@, r),
{
    if text::same(s, "SCROLL_DOWN") {
        Some(ClickwheelEvent::ScrollDown)
    } else if text::same(s, "SCROLL_UP") {
        Some(ClickwheelEvent::ScrollUp)
    } else if text::same(s, "SELECT") {
        Some(ClickwheelEvent::Select)
    } else if text::same(s, "MENU") {
        Some(ClickwheelEvent::Menu)
    } else if text::same(s, "PLAY_PAUSE") {
        Some(ClickwheelEvent::PlayPause)
    } else if text::same(s, "FAST_FORWARD") {
        Some(ClickwheelEvent::FastForward)
    } else if text::same(s, "REWIND") {
        Some(ClickwheelEvent::Rewind)
    } else if text::same(s, "LONG_SELECT") {
        Some(ClickwheelEvent::LongSelect)
    } else if text::same(s, "LONG_MENU") {
        Some(ClickwheelEvent::LongMenu)
    } else {
        None
    }
}

/// The event on a line; white space around the word does not count.
pub fn parse_line(line: &str) -> (r: Option<ClickwheelEvent>)
    ensures
        names(text::trimmed(line@), r),
{
    parse_event(text::trim(line))
}

/// The line that carries an event's word.
pub fn event_line(name: &str) -> (r: String)
    ensures
        r@ == name@ + "\n"@,
{
    name.to_string().concat("\n")
}

proof fn lemma_words()
    ensures
        forall|e: ClickwheelEvent| (#[trigger] name_of(e)).len() > 0,
        forall|e: ClickwheelEvent| 'A' <= (#[trigger] name_of(e))[0] <= 'Z',
        forall|e: ClickwheelEvent| 'A' <= (#[trigger] name_of(e)).last() <= 'Z',
        forall|a: ClickwheelEvent, b: ClickwheelEvent|
            #[trigger] name_of(a) == #[trigger] name_of(b) ==> a == b,
{
    reveal_strlit("SCROLL_DOWN");
    reveal_strlit("SCROLL_UP");
    reveal_strlit("SELECT");
    reveal_strlit("MENU");
    reveal_strlit("PLAY_PAUSE");
    reveal_strlit("FAST_FORWARD");
    reveal_strlit("REWIND");
    reveal_strlit("LONG_SELECT");
    reveal_strlit("LONG_MENU");
    assert forall|a: ClickwheelEvent, b: ClickwheelEvent| #[trigger] name_of(a) == #[trigger] name_of(
        b,
    ) implies a == b by {
        assert(name_of(a)[0] == name_of(b)[0]);
        assert(name_of(a).len() == name_of(b).len());
    }
}

/// A text names at most one event.
pub proof fn law_words_differ(s: Seq<char>, a: Option<ClickwheelEvent>, b: Option<ClickwheelEvent>)
    requires
        names(s, a),
        names(s, b),
    ensures
        a == b,
{
    lemma_words();
}

/// What one side writes the other reads: the line of an event's word, with or
/// without its end, names that event.
pub proof fn law_lines_carry_events(e: ClickwheelEvent)
    ensures
        names(text::trimmed(name_of(e)), Some(e)),
        names(text::trimmed(name_of(e) + "\n"@), Some(e)),
        text::lines_of(name_of(e) + "\n"@) == seq![name_of(e)],
{
    lemma_words();
    reveal_strlit("\n");
    let w = name_of(e);
    let line = w + "\n"@;
    assert(text::trim_start_of(w) == w);
    assert(text::trim_end_of(w) == w);
    assert(line[0] == w[0]);
    assert(text::trim_start_of(line) == line);
    assert(line.drop_last() == w);
    assert(text::trim_end_of(line) == w);
    assert(text::lines_of(line) == seq![w]) by {
        text::lemma_first_at(line, '\n');
        lemma_no_breaks(e);
        let i = text::first_at(line, '\n') as int;
        if i < w.len() {
            assert(line[i] == w[i]);
        }
        if i > w.len() {
            assert(line[w.len() as int] == '\n');
        }
        assert(line.take(i) == w);
        assert(line.skip(i + 1) == Seq::<char>::empty());
        assert(text::lines_of(line.skip(i + 1)) == Seq::<Seq<char>>::empty());
        assert(seq![w] + Seq::<Seq<char>>::empty() == seq![w]);
    }
}

proof fn lemma_no_breaks(e: ClickwheelEvent)
    ensures
        forall|i: int| 0 <= i < name_of(e).len() ==> #[trigger] name_of(e)[i] != '\n',
{
    reveal_strlit("SCROLL_DOWN");
    reveal_strlit("SCROLL_UP");
    reveal_strlit("SELECT");
    reveal_strlit("MENU");
    reveal_strlit("PLAY_PAUSE");
    reveal_strlit("FAST_FORWARD");
    reveal_strlit("REWIND");
    reveal_strlit("LONG_SELECT");
    reveal_strlit("LONG_MENU");
}

/// These are the words for the events; no other text names one.
pub proof fn law_words_of_the_events(s: Seq<char>)
    ensures
        names("SCROLL_DOWN"@, Some(ClickwheelEvent::ScrollDown)),
        names("SCROLL_UP"@, Some(ClickwheelEvent::ScrollUp)),
        names("SELECT"@, Some(ClickwheelEvent::Select)),
        names("MENU"@, Some(ClickwheelEvent::Menu)),
        names("PLAY_PAUSE"@, Some(ClickwheelEvent::PlayPause)),
        names("FAST_FORWARD"@, Some(ClickwheelEvent::FastForward)),
        names("REWIND"@, Some(ClickwheelEvent::Rewind)),
        names("LONG_SELECT"@, Some(ClickwheelEvent::LongSelect)),
        names("LONG_MENU"@, Some(ClickwheelEvent::LongMenu)),
        names(s, None) <==> s != "SCROLL_DOWN"@ && s != "SCROLL_UP"@ && s != "SELECT"@ && s
            != "MENU"@ && s != "PLAY_PAUSE"@ && s != "FAST_FORWARD"@ && s != "REWIND"@ && s
            != "LONG_SELECT"@ && s != "LONG_MENU"@,
{
    assert(name_of(ClickwheelEvent::ScrollDown) == "SCROLL_DOWN"@);
    assert(name_of(ClickwheelEvent::ScrollUp) == "SCROLL_UP"@);
    assert(name_of(ClickwheelEvent::Select) == "SELECT"@);
    assert(name_of(ClickwheelEvent::Menu) == "MENU"@);
    assert(name_of(ClickwheelEvent::PlayPause) == "PLAY_PAUSE"@);
    assert(name_of(ClickwheelEvent::FastForward) == "FAST_FORWARD"@);
    assert(name_of(ClickwheelEvent::Rewind) == "REWIND"@);
    assert(name_of(ClickwheelEvent::LongSelect) == "LONG_SELECT"@);
    assert(name_of(ClickwheelEvent::LongMenu) == "LONG_MENU"@);
}

/// White space around a word makes no difference: the line names the same event, and
/// where the word names none, neither does the line.
pub proof fn law_space_around_a_word(
    before: Seq<char>,
    word: Seq<char>,
    behind: Seq<char>,
    e: Option<ClickwheelEvent>,
)
    requires
        text::blank(before),
        text::tight(word),
        text::blank(behind),
    ensures
        names(text::trimmed(before + word + behind), e) <==> names(word, e),
{
    text::law_trimming(before, word, behind);
}

} // verus!
