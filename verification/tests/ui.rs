use chatrepo::message_block::Color;
use chatrepo::models::{AppState, Message, Mode, Role};
use chatrepo::ui::{
    color_of_role, push_clock, render, render_chat_history, render_history_line, render_input_box,
    render_status_line, HistoryLine, Screen,
};

fn clock(timestamp: i64) -> String {
    let mut out = String::new();
    push_clock(&mut out, timestamp);
    out
}

#[test]
fn clock_shows_the_time_of_day_in_utc() {
    assert_eq!(clock(0), "00:00:00");
    assert_eq!(clock(59), "00:00:59");
    assert_eq!(clock(60), "00:01:00");
    assert_eq!(clock(3_599), "00:59:59");
    assert_eq!(clock(3_600), "01:00:00");
    assert_eq!(clock(86_399), "23:59:59");
    assert_eq!(clock(86_400), "00:00:00");
    assert_eq!(clock(1_700_000_000), "22:13:20");
}

#[test]
fn clock_before_the_epoch() {
    assert_eq!(clock(-1), "23:59:59");
    assert_eq!(clock(-86_400), "00:00:00");
    assert_eq!(clock(-86_401), "23:59:59");
    assert_eq!(clock(i64::MIN), "08:29:52");
    assert_eq!(clock(i64::MAX), "15:30:07");
}

#[test]
fn clock_agrees_with_chrono() {
    for timestamp in [0, 1, 86_399, 1_700_000_000, 951_782_400, -1, -123_456_789, 4_102_444_799] {
        let expected = chrono::DateTime::<chrono::Utc>::from_timestamp(timestamp, 0)
            .unwrap()
            .format("%H:%M:%S")
            .to_string();
        assert_eq!(clock(timestamp), expected);
    }
}

#[test]
fn clock_appends_to_what_is_there() {
    let mut out = String::from("[");
    push_clock(&mut out, 3_661);
    assert_eq!(out, "[01:01:01");
}

#[test]
fn history_colors_by_role() {
    assert_eq!(color_of_role(Role::Assistant), Color::Green);
    assert_eq!(color_of_role(Role::User), Color::Yellow);
    assert_eq!(color_of_role(Role::System), Color::Blue);
}

#[test]
fn status_line_names_mode_and_repository() {
    let mut state = AppState::new("/home/me/repo".to_string());
    assert_eq!(render_status_line(&state), " NORMAL  | Repository: /home/me/repo");
    state.mode = Mode::Insert;
    assert_eq!(render_status_line(&state), " INSERT  | Repository: /home/me/repo");
    state.mode = Mode::Command;
    assert_eq!(render_status_line(&state), " COMMAND  | Repository: /home/me/repo");
}

#[test]
fn status_line_shows_the_error() {
    let mut state = AppState::new("r".to_string());
    state.error = Some("no network".to_string());
    assert_eq!(render_status_line(&state), " NORMAL  | Repository: r | Error: no network");
}

#[test]
fn history_line_shows_time_role_and_text() {
    let message =
        Message { role: Role::User, content: "hello".to_string(), timestamp: 1_700_000_000 };
    assert_eq!(
        render_history_line(&message),
        HistoryLine { text: "[22:13:20] User: hello".to_string(), color: Color::Yellow }
    );
}

#[test]
fn history_has_one_line_per_message() {
    let mut state = AppState::new("r".to_string());
    assert_eq!(render_chat_history(&state), Vec::new());
    state.push_message(Role::System, "welcome".to_string(), 0);
    state.push_message(Role::User, "q".to_string(), 61);
    state.push_message(Role::Assistant, "a".to_string(), 3_723);
    assert_eq!(
        render_chat_history(&state),
        vec![
            HistoryLine { text: "[00:00:00] System: welcome".to_string(), color: Color::Blue },
            HistoryLine { text: "[00:01:01] User: q".to_string(), color: Color::Yellow },
            HistoryLine { text: "[01:02:03] Assistant: a".to_string(), color: Color::Green },
        ]
    );
}

#[test]
fn input_box_is_titled_by_mode() {
    let mut state = AppState::new("r".to_string());
    state.input = "typed".to_string();
    assert_eq!(
        render_input_box(&state),
        ("Press 'i' to insert".to_string(), "typed".to_string())
    );
    state.mode = Mode::Insert;
    assert_eq!(render_input_box(&state), ("Input".to_string(), "typed".to_string()));
    state.mode = Mode::Command;
    assert_eq!(render_input_box(&state), ("Command".to_string(), "typed".to_string()));
}

#[test]
fn screen_holds_all_parts() {
    let mut state = AppState::new("r".to_string());
    state.mode = Mode::Command;
    state.input = "upd".to_string();
    state.push_message(Role::System, "welcome".to_string(), 0);
    assert_eq!(
        render(&state),
        Screen {
            status: " COMMAND  | Repository: r".to_string(),
            history: vec![HistoryLine {
                text: "[00:00:00] System: welcome".to_string(),
                color: Color::Blue,
            }],
            input_title: "Command".to_string(),
            input: "upd".to_string(),
        }
    );
}
