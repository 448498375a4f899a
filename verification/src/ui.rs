//! What the screen shows of a state: the status line, the history with one
//! coloured line per message, and the input box. Laying this out and drawing
//! it is the caller's work.

use crate::message_block::Color;
use crate::models::{AppState, AppStateView, Message, MessageView, Mode, Role};
use crate::text::{push_two_digits, two_digits};
use vstd::prelude::*;

verus! {

/// One line of the history.
#[derive(Clone, Debug, PartialEq, Eq)]
pub struct HistoryLine {
    pub text: String,
    pub color: Color,
}

pub ghost struct HistoryLineView {
    pub text: Seq<char>,
    pub color: Color,
}

impl View for HistoryLine {
    type V = HistoryLineView;

    open spec fn view(&self) -> HistoryLineView {
        HistoryLineView { text: self.text@, color: self.color }
    }
}

impl DeepView for HistoryLine {
    type V = HistoryLineView;

    open spec fn deep_view(&self) -> HistoryLineView {
        self@
    }
}

/// Everything that is drawn.
#[derive(Clone, Debug, PartialEq, Eq)]
pub struct Screen {
    pub status: String,
    pub history: Vec<HistoryLine>,
    pub input_title: String,
    pub input: String,
}

pub ghost struct ScreenView {
    pub status: Seq<char>,
    pub history: Seq<HistoryLineView>,
    pub input_title: Seq<char>,
    pub input: Seq<char>,
}

impl View for Screen {
    type V = ScreenView;

    open spec fn view(&self) -> ScreenView {
        ScreenView {
            status: self.status@,
            history: self.history.deep_view(),
            input_title: self.input_title@,
            input: self.input@,
        }
    }
}

/// The mode as the status line names it.
pub open spec fn mode_text(mode: Mode) -> Seq<char> {
    match mode {
        Mode::Normal => " NORMAL "@,
        Mode::Insert => " INSERT "@,
        Mode::Command => " COMMAND "@,
    }
}

/// The status line: the mode, the repository, and the error if there is one.
pub open spec fn status_text(state: AppStateView) -> Seq<char> {
    mode_text(state.mode) + " | Repository: "@ + state.repo_path + match state.error {
        Some(error) => " | Error: "@ + error,
        None => Seq::empty(),
    }
}

/// The title of the input box.
pub open spec fn input_title(mode: Mode) -> Seq<char> {
    match mode {
        Mode::Insert => "Input"@,
        Mode::Command => "Command"@,
        Mode::Normal => "Press 'i' to insert"@,
    }
}

/// The colour of a role's lines in the history.
pub open spec fn history_color(role: Role) -> Color {
    match role {
        Role::Assistant => Color::Green,
        Role::User => Color::Yellow,
        Role::System => Color::Blue,
    }
}

/// The second of the day, in UTC, that a timestamp falls on.
pub open spec fn second_of_day(timestamp: i64) -> int {
    (timestamp as int) % 86400
}

/// The time of day of a timestamp, in UTC: hours, minutes and seconds with
/// two digits each.
pub open spec fn clock_text(timestamp: i64) -> Seq<char> {
    let second = second_of_day(timestamp);
    two_digits(second / 3600) + ":"@ + two_digits((second % 3600) / 60) + ":"@ + two_digits(
        second % 60,
    )
}

/// The text of a message's line in the history.
pub open spec fn history_text(message: MessageView) -> Seq<char> {
    "["@ + clock_text(message.timestamp) + "] "@ + message.role.label() + ": "@ + message.content
}

pub open spec fn history_line(message: MessageView) -> HistoryLineView {
    HistoryLineView { text: history_text(message), color: history_color(message.role) }
}

/// What is drawn for a state.
pub open spec fn screen_of(state: AppStateView) -> ScreenView {
    ScreenView {
        status: status_text(state),
        history: state.messages.map_values(|message: MessageView| history_line(message)),
        input_title: input_title(state.mode),
        input: state.input,
    }
}

/// Appends the time of day of a timestamp.
pub fn push_clock(out: &mut String, timestamp: i64)
    ensures
        final(out)@ == old(out)@ + clock_text(timestamp),
{
    let remainder: i64 = timestamp % 86400;
    let second: i64 = if remainder < 0 {
        remainder + 86400
    } else {
        remainder
    };
    proof {
        assert(second == second_of_day(timestamp));
    }
    let hours: u8 = (second / 3600) as u8;
    let minutes: u8 = ((second % 3600) / 60) as u8;
    let seconds: u8 = (second % 60) as u8;
    push_two_digits(out, hours);
    out.push(':');
    push_two_digits(out, minutes);
    out.push(':');
    push_two_digits(out, seconds);
    proof {
        reveal_strlit(":");
        assert(":"@ =~= seq![':']);
        assert(final(out)@ =~= old(out)@ + clock_text(timestamp));
    }
}

/// The colour of a role's lines in the history.
pub fn color_of_role(role: Role) -> (r: Color)
    ensures
        r == history_color(role),
{
    match role {
        Role::Assistant => Color::Green,
        Role::User => Color::Yellow,
        Role::System => Color::Blue,
    }
}

/// The status line of a state.
pub fn render_status_line(state: &AppState) -> (r: String)
    ensures
        r@ == status_text(state@),
{
    let mode = match state.mode {
        Mode::Normal => " NORMAL ",
        Mode::Insert => " INSERT ",
        Mode::Command => " COMMAND ",
    };
    let mut text = String::from_str(mode);
    text.append(" | Repository: ");
    text.append(state.repo_path.as_str());
    match &state.error {
        Some(error) => {
            text.append(" | Error: ");
            text.append(error.as_str());
            proof {
                assert(text@ =~= status_text(state@));
            }
        },
        None => {
            proof {
                assert(text@ =~= status_text(state@));
            }
        },
    }
    text
}

/// The line of one message in the history.
pub fn render_history_line(message: &Message) -> (r: HistoryLine)
    ensures
        r@ == history_line(message@),
{
    let mut text = String::from_str("[");
    push_clock(&mut text, message.timestamp);
    text.append("] ");
    text.append(message.role.name());
    text.append(": ");
    text.append(message.content.as_str());
    proof {
        assert(text@ =~= history_text(message@));
    }
    HistoryLine { text, color: color_of_role(message.role) }
}

/// The history of a state, one line per message, oldest first.
pub fn render_chat_history(state: &AppState) -> (lines: Vec<HistoryLine>)
    ensures
        lines.deep_view() == state@.messages.map_values(
            |message: MessageView| history_line(message),
        ),
{
    let ghost shown = state@.messages;
    let mut lines: Vec<HistoryLine> = Vec::new();
    let mut i: usize = 0;
    while i < state.messages.len()
        invariant
            i <= state.messages.len(),
            shown == state.messages.deep_view(),
            lines.deep_view() == shown.take(i as int).map_values(
                |message: MessageView| history_line(message),
            ),
        decreases state.messages.len() - i,
    {
        let ghost before = lines.deep_view();
        let line = render_history_line(&state.messages[i]);
        lines.push(line);
        proof {
            assert(lines.deep_view() =~= before.push(line@));
            assert(lines.deep_view() =~= shown.take(i + 1).map_values(
                |message: MessageView| history_line(message),
            ));
        }
        i = i + 1;
    }
    proof {
        assert(shown.take(state.messages.len() as int) =~= shown);
    }
    lines
}

/// The title of the input box and the text in it.
pub fn render_input_box(state: &AppState) -> (r: (String, String))
    ensures
        r.0@ == input_title(state@.mode),
        r.1@ == state@.input,
{
    let title = match state.mode {
        Mode::Insert => "Input",
        Mode::Command => "Command",
        Mode::Normal => "Press 'i' to insert",
    };
    (String::from_str(title), state.input.clone())
}

/// Everything that is drawn for a state.
pub fn render(state: &AppState) -> (screen: Screen)
    ensures
        screen@ == screen_of(state@),
{
    let status = render_status_line(state);
    let history = render_chat_history(state);
    let (input_title, input) = render_input_box(state);
    Screen { status, history, input_title, input }
}

} // verus!
