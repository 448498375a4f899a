//! The conversation: who said what and when, what is being typed, and the
//! mode that decides how keys are read.

use vstd::prelude::*;

verus! {

/// Who a message comes from.
#[derive(Clone, Copy, Debug, PartialEq, Eq, Structural)]
pub enum Role {
    System,
    User,
    Assistant,
}

impl Role {
    /// The role's name as it is shown and as it is sent to the model.
    pub open spec fn label(self) -> Seq<char> {
        match self {
            Role::System => "System"@,
            Role::User => "User"@,
            Role::Assistant => "Assistant"@,
        }
    }

    pub fn name(&self) -> (r: &'static str)
        ensures
            r@ == self.label(),
    {
        match self {
            Role::System => "System",
            Role::User => "User",
            Role::Assistant => "Assistant",
        }
    }
}

/// One entry of the conversation. `timestamp` counts seconds since the Unix
/// epoch, in UTC.
#[derive(Clone, Debug, PartialEq, Eq)]
pub struct Message {
    pub role: Role,
    pub content: String,
    pub timestamp: i64,
}

pub ghost struct MessageView {
    pub role: Role,
    pub content: Seq<char>,
    pub timestamp: i64,
}

impl View for Message {
    type V = MessageView;

    open spec fn view(&self) -> MessageView {
        MessageView { role: self.role, content: self.content@, timestamp: self.timestamp }
    }
}

impl DeepView for Message {
    type V = MessageView;

    open spec fn deep_view(&self) -> MessageView {
        self@
    }
}

/// How keys are read: as commands, as text for a message, or as text for a
/// command line.
#[derive(Clone, Copy, Debug, PartialEq, Eq, Structural)]
pub enum Mode {
    Normal,
    Insert,
    Command,
}

/// What the input line is for: a new message, or the message at an index
/// that is being edited.
#[derive(Clone, Copy, Debug, PartialEq, Eq, Structural)]
pub enum InputFocus {
    Chat,
    MessageEdit(usize),
}

/// The conversation and the input line, owned by the interactive loop.
#[derive(Clone, Debug)]
pub struct AppState {
    pub messages: Vec<Message>,
    pub input: String,
    pub mode: Mode,
    pub focus: InputFocus,
    pub repo_path: String,
    pub repo_context: Option<String>,
    pub error: Option<String>,
}

pub ghost struct AppStateView {
    pub messages: Seq<MessageView>,
    pub input: Seq<char>,
    pub mode: Mode,
    pub focus: InputFocus,
    pub repo_path: Seq<char>,
    pub repo_context: Option<Seq<char>>,
    pub error: Option<Seq<char>>,
}

impl AppStateView {
    /// The state a session starts in: no messages, an empty input line,
    /// Normal mode, no context yet.
    pub open spec fn initial(repo_path: Seq<char>) -> AppStateView {
        AppStateView {
            messages: Seq::empty(),
            input: Seq::empty(),
            mode: Mode::Normal,
            focus: InputFocus::Chat,
            repo_path,
            repo_context: None,
            error: None,
        }
    }

    /// The state with one more message at the end.
    pub open spec fn with_message(self, message: MessageView) -> AppStateView {
        AppStateView { messages: self.messages.push(message), ..self }
    }

    pub open spec fn with_mode(self, mode: Mode) -> AppStateView {
        AppStateView { mode, ..self }
    }

    pub open spec fn with_input(self, input: Seq<char>) -> AppStateView {
        AppStateView { input, ..self }
    }

    /// The state after a request to edit the message at `index`: the input
    /// line holds that message's text and the mode is Insert. An index past
    /// the end changes nothing.
    pub open spec fn editing(self, index: int) -> AppStateView {
        if 0 <= index < self.messages.len() {
            AppStateView {
                focus: InputFocus::MessageEdit(index as usize),
                input: self.messages[index].content,
                mode: Mode::Insert,
                ..self
            }
        } else {
            self
        }
    }
}

impl View for AppState {
    type V = AppStateView;

    open spec fn view(&self) -> AppStateView {
        AppStateView {
            messages: self.messages.deep_view(),
            input: self.input@,
            mode: self.mode,
            focus: self.focus,
            repo_path: self.repo_path@,
            repo_context: self.repo_context.deep_view(),
            error: self.error.deep_view(),
        }
    }
}

/// `chrono::Utc::now`, read as whole seconds since the Unix epoch. Nothing is
/// promised of what the clock says.
#[verifier::external_body]
pub(crate) fn unix_now() -> i64 {
    chrono::Utc::now().timestamp()
}

impl AppState {
    pub fn new(repo_path: String) -> (state: AppState)
        ensures
            state@ == AppStateView::initial(repo_path@),
    {
        let state = AppState {
            messages: Vec::new(),
            input: String::new(),
            mode: Mode::Normal,
            focus: InputFocus::Chat,
            repo_path,
            repo_context: None,
            error: None,
        };
        proof {
            assert(state.messages.deep_view() =~= Seq::<MessageView>::empty());
        }
        state
    }

    pub fn enter_insert_mode(&mut self)
        ensures
            final(self)@ == old(self)@.with_mode(Mode::Insert),
    {
        self.mode = Mode::Insert;
    }

    pub fn enter_normal_mode(&mut self)
        ensures
            final(self)@ == old(self)@.with_mode(Mode::Normal),
    {
        self.mode = Mode::Normal;
    }

    /// Appends a message stamped with `timestamp`. Earlier messages are
    /// neither changed nor reordered.
    pub fn push_message(&mut self, role: Role, content: String, timestamp: i64)
        ensures
            final(self)@ == old(self)@.with_message(
                MessageView { role, content: content@, timestamp },
            ),
    {
        let ghost before = self.messages.deep_view();
        let message = Message { role, content, timestamp };
        self.messages.push(message);
        proof {
            assert(self.messages.deep_view() =~= before.push(message@));
        }
    }

    /// Appends a message stamped with the current time. Whatever the clock
    /// says, the state gains exactly this one message, at the end.
    pub fn add_message(&mut self, role: Role, content: String)
        ensures
            final(self)@.messages.len() == old(self)@.messages.len() + 1,
            final(self)@ == old(self)@.with_message(
                MessageView {
                    role,
                    content: content@,
                    timestamp: final(self)@.messages.last().timestamp,
                },
            ),
    {
        let now = unix_now();
        self.push_message(role, content, now);
    }

    /// Starts editing the message at `index`, if there is one.
    pub fn edit_message(&mut self, index: usize)
        ensures
            final(self)@ == old(self)@.editing(index as int),
    {
        if index < self.messages.len() {
            self.focus = InputFocus::MessageEdit(index);
            self.input = self.messages[index].content.clone();
            self.enter_insert_mode();
        }
    }
}

} // verus!
