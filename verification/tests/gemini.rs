use chatrepo::gemini::{
    ChatError, ChatHandler, DispatchAction, DispatchEvent, GeminiClient, ModelRequest,
};
use chatrepo::models::{AppState, Message, Mode, Role};

const PREAMBLE: &str =
    "You are a code assistant with access to the following repository context:\n\n";

fn message(role: Role, content: &str) -> Message {
    Message { role, content: content.to_string(), timestamp: 1 }
}

fn state_with_context(context: Option<&str>) -> AppState {
    let mut state = AppState::new("repo".to_string());
    state.repo_context = context.map(|text| text.to_string());
    state
}

#[test]
fn client_uses_the_named_model() {
    let client = GeminiClient::new("key".to_string(), Some("gemini-pro".to_string()));
    assert_eq!(client.model(), "gemini-pro");
    assert_eq!(
        client.request_url(),
        "https://generativelanguage.googleapis.com/v1beta/models/gemini-pro:generateContent?key=key"
    );
}

#[test]
fn client_falls_back_to_the_default_model() {
    let client = GeminiClient::new("SECRET-REDACTED".to_string(), None);
    assert_eq!(client.model(), "gemini-1.5-pro");
    assert_eq!(
        client.request_url(),
        "https://generativelanguage.googleapis.com/v1beta/models/gemini-1.5-pro:generateContent?key=SECRET-REDACTED"
    );
}

#[test]
fn prompt_without_history() {
    let client = GeminiClient::new("k".to_string(), None);
    assert_eq!(
        client.build_prompt("CONTEXT", &Vec::new(), "question?"),
        format!("{}CONTEXT\n\nChat history:\n\nUser: question?\n\nAssistant:", PREAMBLE)
    );
}

#[test]
fn prompt_lists_the_history_oldest_first() {
    let client = GeminiClient::new("k".to_string(), None);
    let history = vec![
        message(Role::System, "welcome"),
        message(Role::User, "first"),
        message(Role::Assistant, "answer"),
    ];
    assert_eq!(
        client.build_prompt("ctx", &history, "second"),
        format!(
            "{}ctx\n\nChat history:\nSystem: welcome\nUser: first\nAssistant: answer\n\nUser: second\n\nAssistant:",
            PREAMBLE
        )
    );
}

#[test]
fn prompt_with_empty_parts() {
    let client = GeminiClient::new("k".to_string(), None);
    assert_eq!(
        client.build_prompt("", &Vec::new(), ""),
        format!("{}\n\nChat history:\n\nUser: \n\nAssistant:", PREAMBLE)
    );
}

#[test]
fn request_holds_url_and_prompt() {
    let client = GeminiClient::new("k".to_string(), Some("m".to_string()));
    let history = vec![message(Role::User, "hi")];
    assert_eq!(
        client.prepare_request("c", &history, "q"),
        ModelRequest {
            url: client.request_url(),
            prompt: client.build_prompt("c", &history, "q"),
        }
    );
}

#[test]
fn reply_is_the_first_part_of_the_first_candidate() {
    let candidates = vec![
        vec!["first".to_string(), "second".to_string()],
        vec!["other".to_string()],
    ];
    assert_eq!(GeminiClient::read_reply(&candidates), Ok("first".to_string()));
    assert_eq!(GeminiClient::read_reply(&vec![vec![String::new()]]), Ok(String::new()));
}

#[test]
fn answer_without_candidate_or_part_is_an_error() {
    assert_eq!(GeminiClient::read_reply(&Vec::new()), Err(ChatError::NoResponse));
    assert_eq!(GeminiClient::read_reply(&vec![Vec::new()]), Err(ChatError::NoResponse));
    assert_eq!(
        GeminiClient::read_reply(&vec![Vec::new(), vec!["late".to_string()]]),
        Err(ChatError::NoResponse)
    );
}

#[test]
fn errors_in_words() {
    assert_eq!(ChatError::NoResponse.message(), "No response from Gemini API");
    assert_eq!(ChatError::Transport("timed out".to_string()).message(), "timed out");
}

#[test]
fn received_message_is_asked_with_context_and_history() {
    let handler = ChatHandler::new("k".to_string(), None);
    let mut state = state_with_context(Some("the context"));
    state.push_message(Role::System, "welcome".to_string(), 1);
    let asked = handler.receive(&state, &message(Role::User, "hello")).unwrap();
    let client = GeminiClient::new("k".to_string(), None);
    assert_eq!(asked.url, client.request_url());
    assert_eq!(
        asked.prompt,
        format!(
            "{}the context\n\nChat history:\nSystem: welcome\n\nUser: hello\n\nAssistant:",
            PREAMBLE
        )
    );
}

#[test]
fn received_message_is_asked_with_an_empty_context_too() {
    let handler = ChatHandler::new("k".to_string(), None);
    let state = state_with_context(Some(""));
    assert!(handler.receive(&state, &message(Role::User, "hello")).is_some());
}

#[test]
fn received_message_is_dropped_without_context() {
    let handler = ChatHandler::new("k".to_string(), None);
    let mut state = state_with_context(None);
    assert_eq!(handler.receive(&state, &message(Role::User, "hello")), None);
    let action = handler.run(&mut state, DispatchEvent::Received(message(Role::User, "hello")));
    assert!(matches!(action, DispatchAction::Wait));
    assert!(state.messages.is_empty());
}

#[test]
fn hello_and_its_reply_enter_the_conversation_in_order() {
    let handler = ChatHandler::new("k".to_string(), None);
    let mut state = state_with_context(Some("some context"));
    state.push_message(Role::System, "welcome".to_string(), 1);
    state.input = "typing".to_string();
    state.mode = Mode::Insert;

    let action = handler.run(&mut state, DispatchEvent::Received(message(Role::User, "hello")));
    assert_eq!(state.messages.len(), 1);
    let (pending, request) = match action {
        DispatchAction::Send(pending, request) => (pending, request),
        other => panic!("nothing to send: {:?}", other),
    };
    assert_eq!(pending, message(Role::User, "hello"));
    assert!(request.prompt.ends_with("\nUser: hello\n\nAssistant:"));

    let reply = GeminiClient::read_reply(&vec![vec!["hi there".to_string()]]);
    let action = handler.run(&mut state, DispatchEvent::Replied(pending, reply));
    assert!(matches!(action, DispatchAction::Wait));
    assert_eq!(state.messages.len(), 3);
    assert_eq!(state.messages[0].content, "welcome");
    assert_eq!(state.messages[1].role, Role::User);
    assert_eq!(state.messages[1].content, "hello");
    assert_eq!(state.messages[2].role, Role::Assistant);
    assert_eq!(state.messages[2].content, "hi there");
    assert_eq!(state.input, "typing");
    assert_eq!(state.mode, Mode::Insert);
    assert_eq!(state.repo_context, Some("some context".to_string()));
}

#[test]
fn complete_enters_question_and_reply() {
    let mut state = state_with_context(Some("c"));
    let result =
        ChatHandler::complete(&mut state, message(Role::User, "q"), Ok("a".to_string()));
    assert_eq!(result, Ok(()));
    assert_eq!(state.messages.len(), 2);
    assert_eq!((state.messages[0].role, state.messages[0].content.as_str()), (Role::User, "q"));
    assert_eq!(
        (state.messages[1].role, state.messages[1].content.as_str()),
        (Role::Assistant, "a")
    );
}

#[test]
fn failed_request_stops_the_dispatcher_and_changes_nothing() {
    let handler = ChatHandler::new("k".to_string(), None);
    let mut state = state_with_context(Some("c"));
    state.push_message(Role::System, "welcome".to_string(), 1);
    let failure = ChatError::Transport("connection refused".to_string());
    let action = handler.run(
        &mut state,
        DispatchEvent::Replied(message(Role::User, "q"), Err(failure.clone())),
    );
    match action {
        DispatchAction::Stop(why) => assert_eq!(why, failure),
        other => panic!("not stopped: {:?}", other),
    }
    assert_eq!(state.messages.len(), 1);
    let mut state = state_with_context(Some("c"));
    assert_eq!(
        ChatHandler::complete(&mut state, message(Role::User, "q"), Err(ChatError::NoResponse)),
        Err(ChatError::NoResponse)
    );
    assert!(state.messages.is_empty());
}
