use chatrepo::app::{App, Key, KeyAction};
use chatrepo::gemini::{ChatHandler, DispatchAction, DispatchEvent};
use chatrepo::git::TrackedFile;
use chatrepo::models::{Message, Mode, Role};

fn started() -> App {
    App::new("/repo".to_string(), "the context".to_string())
}

fn type_text(app: &mut App, text: &str) {
    for c in text.chars() {
        assert_eq!(app.handle_key(Key::Char(c)), KeyAction::Nothing);
    }
}

fn with_messages(count: usize) -> App {
    let mut app = started();
    let handler = ChatHandler::new("k".to_string(), None);
    while app.state().messages.len() < count {
        let asked = Message { role: Role::User, content: "q".to_string(), timestamp: 0 };
        app.dispatch(&handler, DispatchEvent::Replied(asked, Ok("a".to_string())));
    }
    app
}

#[test]
fn app_starts_with_context_and_greeting() {
    let app = started();
    assert!(!app.should_quit());
    assert_eq!(app.selected(), None);
    let state = app.state();
    assert_eq!(state.mode, Mode::Normal);
    assert_eq!(state.input, "");
    assert_eq!(state.repo_path, "/repo");
    assert_eq!(state.repo_context, Some("the context".to_string()));
    assert_eq!(state.error, None);
    assert_eq!(state.messages.len(), 1);
    assert_eq!(state.messages[0].role, Role::System);
    assert_eq!(
        state.messages[0].content,
        "Welcome to ChatRepo! Repository context loaded. Type your questions about the code."
    );
}

#[test]
fn i_from_normal_gives_insert_with_an_empty_buffer() {
    let mut app = started();
    assert_eq!(app.handle_key(Key::Char('i')), KeyAction::Nothing);
    assert_eq!(app.state().mode, Mode::Insert);
    assert_eq!(app.state().input, "");
}

#[test]
fn i_from_normal_keeps_a_buffer_that_was_left() {
    let mut app = started();
    app.handle_key(Key::Char('i'));
    type_text(&mut app, "draft");
    app.handle_key(Key::Esc);
    assert_eq!(app.state().mode, Mode::Normal);
    assert_eq!(app.state().input, "draft");
    app.handle_key(Key::Char('i'));
    assert_eq!(app.state().mode, Mode::Insert);
    assert_eq!(app.state().input, "draft");
}

#[test]
fn q_quits_from_normal_mode_only() {
    let mut app = started();
    app.handle_key(Key::Char('i'));
    app.handle_key(Key::Char('q'));
    assert!(!app.should_quit());
    assert_eq!(app.state().input, "q");
    app.handle_key(Key::Esc);
    assert_eq!(app.handle_key(Key::Char('q')), KeyAction::Nothing);
    assert!(app.should_quit());
}

#[test]
fn colon_opens_an_empty_command_line() {
    let mut app = started();
    app.handle_key(Key::Char('i'));
    type_text(&mut app, "draft");
    app.handle_key(Key::Esc);
    app.handle_key(Key::Char(':'));
    assert_eq!(app.state().mode, Mode::Command);
    assert_eq!(app.state().input, "");
}

#[test]
fn other_keys_do_nothing_in_normal_mode() {
    let mut app = started();
    for key in [Key::Char('x'), Key::Enter, Key::Esc, Key::Backspace, Key::Other] {
        assert_eq!(app.handle_key(key), KeyAction::Nothing);
        assert_eq!(app.state().mode, Mode::Normal);
        assert_eq!(app.state().input, "");
        assert!(!app.should_quit());
        assert_eq!(app.selected(), None);
    }
}

#[test]
fn insert_mode_types_and_takes_back() {
    let mut app = started();
    app.handle_key(Key::Char('i'));
    type_text(&mut app, "héllo:");
    assert_eq!(app.state().input, "héllo:");
    assert_eq!(app.handle_key(Key::Backspace), KeyAction::Nothing);
    assert_eq!(app.handle_key(Key::Backspace), KeyAction::Nothing);
    assert_eq!(app.state().input, "héll");
    assert_eq!(app.handle_key(Key::Other), KeyAction::Nothing);
    assert_eq!(app.state().input, "héll");
    for _ in 0..6 {
        app.handle_key(Key::Backspace);
    }
    assert_eq!(app.state().input, "");
    assert_eq!(app.state().mode, Mode::Insert);
}

#[test]
fn enter_in_insert_mode_submits_the_line() {
    let mut app = started();
    app.handle_key(Key::Char('i'));
    type_text(&mut app, "hello");
    let before = chrono::Utc::now().timestamp();
    let action = app.handle_key(Key::Enter);
    let after = chrono::Utc::now().timestamp();
    match action {
        KeyAction::Submit(message) => {
            assert_eq!(message.role, Role::User);
            assert_eq!(message.content, "hello");
            assert!(before <= message.timestamp && message.timestamp <= after);
        },
        other => panic!("nothing submitted: {:?}", other),
    }
    assert_eq!(app.state().input, "");
    assert_eq!(app.state().mode, Mode::Insert);
    assert_eq!(app.state().messages.len(), 1);
}

#[test]
fn enter_on_an_empty_line_submits_nothing() {
    let mut app = started();
    app.handle_key(Key::Char('i'));
    assert_eq!(app.handle_key(Key::Enter), KeyAction::Nothing);
    assert_eq!(app.state().mode, Mode::Insert);
    assert_eq!(app.state().input, "");
}

#[test]
fn escape_from_command_mode_discards_the_line() {
    let mut app = started();
    app.handle_key(Key::Char(':'));
    type_text(&mut app, "upd");
    assert_eq!(app.state().input, "upd");
    assert_eq!(app.handle_key(Key::Backspace), KeyAction::Nothing);
    assert_eq!(app.state().input, "up");
    assert_eq!(app.handle_key(Key::Esc), KeyAction::Nothing);
    assert_eq!(app.state().mode, Mode::Normal);
    assert_eq!(app.state().input, "");
}

#[test]
fn unknown_command_leads_back_to_normal_mode() {
    let mut app = started();
    app.handle_key(Key::Char(':'));
    type_text(&mut app, "quit");
    assert_eq!(app.handle_key(Key::Enter), KeyAction::Nothing);
    assert_eq!(app.state().mode, Mode::Normal);
    assert_eq!(app.state().messages.len(), 1);
    assert_eq!(app.state().repo_context, Some("the context".to_string()));
    let mut app = started();
    app.handle_key(Key::Char(':'));
    assert_eq!(app.handle_key(Key::Enter), KeyAction::Nothing);
    assert_eq!(app.state().mode, Mode::Normal);
}

#[test]
fn update_command_rebuilds_once_and_confirms_once() {
    let mut app = started();
    app.handle_key(Key::Char(':'));
    type_text(&mut app, "update");
    assert_eq!(app.handle_key(Key::Enter), KeyAction::RebuildContext);
    assert_eq!(app.state().mode, Mode::Command);
    assert_eq!(app.state().messages.len(), 1);
    assert_eq!(app.state().repo_context, Some("the context".to_string()));

    let files = vec![TrackedFile {
        path: "a.txt".to_string(),
        head: Some(b"new".to_vec()),
        size: Some(3),
        text: Some("new".to_string()),
    }];
    app.complete_update(1_000, &files);
    assert_eq!(app.state().mode, Mode::Normal);
    assert_eq!(app.state().input, "");
    assert_eq!(app.state().repo_context, Some("File: a.txt\nPreview:\nnew\n---".to_string()));
    assert_eq!(app.state().messages.len(), 2);
    assert_eq!(app.state().messages[1].role, Role::System);
    assert_eq!(app.state().messages[1].content, "Repository context updated.");
    assert!(!app.should_quit());
    assert_eq!(app.selected(), None);
}

#[test]
fn update_command_is_known_by_its_prefix() {
    for line in ["update", "updates", "update now", "update:"] {
        let mut app = started();
        app.handle_key(Key::Char(':'));
        type_text(&mut app, line);
        assert_eq!(app.handle_key(Key::Enter), KeyAction::RebuildContext);
    }
    for line in ["updat", " update", "Update", "reupdate"] {
        let mut app = started();
        app.handle_key(Key::Char(':'));
        type_text(&mut app, line);
        assert_eq!(app.handle_key(Key::Enter), KeyAction::Nothing);
        assert_eq!(app.state().mode, Mode::Normal);
    }
}

#[test]
fn selection_moves_down_to_the_last_message() {
    let mut app = with_messages(3);
    assert_eq!(app.selected(), None);
    app.handle_key(Key::Char('j'));
    assert_eq!(app.selected(), Some(1));
    app.handle_key(Key::Char('j'));
    assert_eq!(app.selected(), Some(2));
    app.handle_key(Key::Char('j'));
    assert_eq!(app.selected(), Some(2));
}

#[test]
fn selection_moves_up_to_the_first_message() {
    let mut app = with_messages(3);
    app.handle_key(Key::Char('k'));
    assert_eq!(app.selected(), None);
    app.handle_key(Key::Char('j'));
    app.handle_key(Key::Char('j'));
    app.handle_key(Key::Char('k'));
    assert_eq!(app.selected(), Some(1));
    app.handle_key(Key::Char('k'));
    assert_eq!(app.selected(), Some(0));
    app.handle_key(Key::Char('k'));
    assert_eq!(app.selected(), Some(0));
}

#[test]
fn selection_stays_with_a_single_message() {
    let mut app = started();
    app.handle_key(Key::Char('j'));
    assert_eq!(app.selected(), None);
    app.handle_key(Key::Char('k'));
    assert_eq!(app.selected(), None);
}

#[test]
fn dispatch_enters_an_exchange_into_the_one_conversation() {
    let mut app = started();
    let handler = ChatHandler::new("k".to_string(), None);
    app.handle_key(Key::Char('i'));
    type_text(&mut app, "hello");
    let submitted = match app.handle_key(Key::Enter) {
        KeyAction::Submit(message) => message,
        other => panic!("nothing submitted: {:?}", other),
    };
    let (pending, request) = match app.dispatch(&handler, DispatchEvent::Received(submitted)) {
        DispatchAction::Send(pending, request) => (pending, request),
        other => panic!("nothing to send: {:?}", other),
    };
    assert!(request.prompt.contains("the context"));
    assert_eq!(app.state().messages.len(), 1);
    let action = app.dispatch(&handler, DispatchEvent::Replied(pending, Ok("hi".to_string())));
    assert!(matches!(action, DispatchAction::Wait));
    assert_eq!(app.state().messages.len(), 3);
    assert_eq!(app.state().messages[1].role, Role::User);
    assert_eq!(app.state().messages[1].content, "hello");
    assert_eq!(app.state().messages[2].role, Role::Assistant);
    assert_eq!(app.state().messages[2].content, "hi");
    assert_eq!(app.state().mode, Mode::Insert);
}

#[test]
fn command_mode_handler_asks_for_the_rebuild_and_waits() {
    let mut app = started();
    app.handle_normal_mode(Key::Char(':'));
    type_text(&mut app, "update");
    assert_eq!(app.handle_command_mode(Key::Enter), KeyAction::RebuildContext);
    assert_eq!(app.state().mode, Mode::Command);
    assert_eq!(app.state().input, "update");
    assert_eq!(app.state().messages.len(), 1);
    app.complete_update(5, &Vec::new());
    assert_eq!(app.state().mode, Mode::Normal);
    assert_eq!(app.state().input, "");
    assert_eq!(app.state().repo_context, Some(String::new()));
    assert_eq!(app.state().messages.len(), 2);
    assert_eq!(app.state().messages[0].role, Role::System);
    assert_eq!(app.state().messages[1].role, Role::System);
    assert_eq!(app.state().messages[1].content, "Repository context updated.");
}

#[test]
fn mode_handlers_act_as_the_mode_they_are_named_for() {
    let mut app = started();
    assert_eq!(app.handle_insert_mode(Key::Char('a')), KeyAction::Nothing);
    assert_eq!(app.state().input, "a");
    assert_eq!(app.state().mode, Mode::Normal);
    match app.submit_message() {
        KeyAction::Submit(message) => assert_eq!(message.content, "a"),
        other => panic!("nothing submitted: {:?}", other),
    }
    assert_eq!(app.submit_message(), KeyAction::Nothing);
    app.scroll_down();
    app.scroll_up();
    assert_eq!(app.selected(), None);
}
