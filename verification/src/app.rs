//! The interactive side: how a key changes mode, input line and selection,
//! and what it asks of the caller.
//!
//! Reading keys, drawing and sending are the caller's work. The caller hands
//! each key to [`App::handle_key`] and does what the returned [`KeyAction`]
//! says.

use crate::gemini::{ChatHandler, DispatchAction, DispatchEvent};
use crate::git::{context_of, RepoContext, TrackedFile, TrackedFileView};
use crate::models::{AppState, AppStateView, Message, MessageView, Mode, Role};
use crate::text::starts_with;
use vstd::prelude::*;

verus! {

/// A key press, as far as it matters here.
#[derive(Clone, Copy, Debug, PartialEq, Eq, Structural)]
pub enum Key {
    Char(char),
    Enter,
    Esc,
    Backspace,
    Other,
}

/// What a key asks of the caller.
#[derive(Clone, Debug, PartialEq, Eq)]
pub enum KeyAction {
    /// Nothing.
    Nothing,
    /// Hand the message to the dispatcher.
    Submit(Message),
    /// List the repository and call [`App::complete_update`] with what was
    /// read.
    RebuildContext,
}

/// What a key asks of the caller, without regard to the time.
pub ghost enum KeyRequest {
    Nothing,
    /// Submit a message of the user with this text.
    Submit(Seq<char>),
    Rebuild,
}

/// The greeting that opens a conversation.
pub open spec fn welcome_text() -> Seq<char> {
    "Welcome to ChatRepo! Repository context loaded. Type your questions about the code."@
}

/// The message that confirms a rebuilt context.
pub open spec fn updated_text() -> Seq<char> {
    "Repository context updated."@
}

/// The command that rebuilds the context. A command line that begins with it
/// is read as this command.
pub open spec fn update_command() -> Seq<char> {
    "update"@
}

/// The conversation, the wish to quit and the selected message.
pub struct App {
    state: AppState,
    should_quit: bool,
    selected: Option<usize>,
}

pub ghost struct AppView {
    pub state: AppStateView,
    pub should_quit: bool,
    /// The index of the selected message, if one is selected.
    pub selected: Option<usize>,
}

impl View for App {
    type V = AppView;

    closed spec fn view(&self) -> AppView {
        AppView { state: self.state@, should_quit: self.should_quit, selected: self.selected }
    }
}

impl AppView {
    /// The application as it starts: the context at hand, one greeting of
    /// the system stamped `now`, Normal mode, nothing selected.
    pub open spec fn started(repo_path: Seq<char>, context: Seq<char>, now: i64) -> AppView {
        AppView {
            state: AppStateView {
                repo_context: Some(context),
                ..AppStateView::initial(repo_path)
            }.with_message(
                MessageView { role: Role::System, content: welcome_text(), timestamp: now },
            ),
            should_quit: false,
            selected: None,
        }
    }

    /// The index that moving starts from: the selected one, or the first.
    pub open spec fn cursor(self) -> usize {
        match self.selected {
            Some(index) => index,
            None => 0,
        }
    }

    /// The selection moved one message up, unless it stands at the first.
    pub open spec fn scrolled_up(self) -> AppView {
        if self.cursor() > 0 {
            AppView { selected: Some((self.cursor() - 1) as usize), ..self }
        } else {
            self
        }
    }

    /// The selection moved one message down, unless it stands at the last
    /// or beyond.
    pub open spec fn scrolled_down(self) -> AppView {
        if self.cursor() + 1 < self.state.messages.len() {
            AppView { selected: Some((self.cursor() + 1) as usize), ..self }
        } else {
            self
        }
    }

    pub open spec fn with_state(self, state: AppStateView) -> AppView {
        AppView { state, ..self }
    }

    /// Normal mode: `q` quits, `i` opens the input line as it is, `:` opens
    /// an empty command line, `j` and `k` move the selection.
    pub open spec fn after_normal_key(self, key: Key) -> AppView {
        match key {
            Key::Char(c) => if c == 'q' {
                AppView { should_quit: true, ..self }
            } else if c == 'i' {
                self.with_state(self.state.with_mode(Mode::Insert))
            } else if c == 'j' {
                self.scrolled_down()
            } else if c == 'k' {
                self.scrolled_up()
            } else if c == ':' {
                self.with_state(self.state.with_mode(Mode::Command).with_input(Seq::empty()))
            } else {
                self
            },
            _ => self,
        }
    }

    /// Insert mode: characters are typed, Backspace takes the last one back,
    /// Escape leaves for Normal mode with the line kept, and Enter empties
    /// the line, which is submitted unless it was empty. The mode stays
    /// Insert after Enter.
    pub open spec fn after_insert_key(self, key: Key) -> AppView {
        match key {
            Key::Esc => self.with_state(self.state.with_mode(Mode::Normal)),
            Key::Enter => self.with_state(self.state.with_input(Seq::empty())),
            Key::Char(c) => self.with_state(self.state.with_input(self.state.input.push(c))),
            Key::Backspace => if self.state.input.len() > 0 {
                self.with_state(self.state.with_input(self.state.input.drop_last()))
            } else {
                self
            },
            Key::Other => self,
        }
    }

    /// Whether the command line holds the update command.
    pub open spec fn asks_for_update(self) -> bool {
        update_command().is_prefix_of(self.state.input)
    }

    /// Command mode: characters are typed, Backspace takes the last one
    /// back, Escape leaves for Normal mode with the line emptied. Enter on
    /// the update command leaves everything as it is until the context has
    /// been rebuilt; Enter on anything else leaves for Normal mode.
    pub open spec fn after_command_key(self, key: Key) -> AppView {
        match key {
            Key::Esc => self.with_state(
                self.state.with_mode(Mode::Normal).with_input(Seq::empty()),
            ),
            Key::Enter => if self.asks_for_update() {
                self
            } else {
                self.with_state(self.state.with_mode(Mode::Normal))
            },
            Key::Char(c) => self.with_state(self.state.with_input(self.state.input.push(c))),
            Key::Backspace => if self.state.input.len() > 0 {
                self.with_state(self.state.with_input(self.state.input.drop_last()))
            } else {
                self
            },
            Key::Other => self,
        }
    }

    /// The application after a key, by the mode it was in.
    pub open spec fn after_key(self, key: Key) -> AppView {
        match self.state.mode {
            Mode::Normal => self.after_normal_key(key),
            Mode::Insert => self.after_insert_key(key),
            Mode::Command => self.after_command_key(key),
        }
    }

    /// What a key asks of the caller: Enter in Insert mode submits a line
    /// that is not empty, Enter in Command mode on the update command asks
    /// for a rebuild, and nothing else asks for anything.
    pub open spec fn request(self, key: Key) -> KeyRequest {
        if key == Key::Enter && self.state.mode == Mode::Insert && self.state.input.len() > 0 {
            KeyRequest::Submit(self.state.input)
        } else if key == Key::Enter && self.state.mode == Mode::Command && self.asks_for_update() {
            KeyRequest::Rebuild
        } else {
            KeyRequest::Nothing
        }
    }

    /// The application after the context was rebuilt from `files`: the new
    /// context is at hand, the line is empty, the system has confirmed with
    /// one message stamped `now`, and the mode is Normal.
    pub open spec fn after_update(self, files: Seq<TrackedFileView>, now: i64) -> AppView {
        self.with_state(
            AppStateView {
                repo_context: Some(context_of(files)),
                input: Seq::empty(),
                mode: Mode::Normal,
                ..self.state
            }.with_message(
                MessageView { role: Role::System, content: updated_text(), timestamp: now },
            ),
        )
    }
}

impl App {
    /// Starts the application with the repository's context at hand.
    pub fn new(repo_path: String, context: String) -> (app: App)
        ensures
            app@.state.messages.len() == 1,
            app@ == AppView::started(repo_path@, context@, app@.state.messages[0].timestamp),
    {
        let mut state = AppState::new(repo_path);
        state.repo_context = Some(context);
        state.add_message(
            Role::System,
            String::from_str(
                "Welcome to ChatRepo! Repository context loaded. Type your questions about the code.",
            ),
        );
        App { state, should_quit: false, selected: None }
    }

    /// The conversation and the input line.
    pub fn state(&self) -> (state: &AppState)
        ensures
            state@ == self@.state,
    {
        &self.state
    }

    /// Whether the user has asked to quit.
    pub fn should_quit(&self) -> (r: bool)
        ensures
            r == self@.should_quit,
    {
        self.should_quit
    }

    /// The index of the selected message, if one is selected.
    pub fn selected(&self) -> (r: Option<usize>)
        ensures
            r == self@.selected,
    {
        self.selected
    }

    /// Takes one key and says what the caller is to do.
    pub fn handle_key(&mut self, key: Key) -> (action: KeyAction)
        ensures
            final(self)@ == old(self)@.after_key(key),
            match old(self)@.request(key) {
                KeyRequest::Nothing => action is Nothing,
                KeyRequest::Submit(text) => action matches KeyAction::Submit(message)
                    && message@.role == Role::User && message@.content == text,
                KeyRequest::Rebuild => action is RebuildContext,
            },
    {
        match self.state.mode {
            Mode::Normal => {
                self.handle_normal_mode(key);
                KeyAction::Nothing
            },
            Mode::Insert => self.handle_insert_mode(key),
            Mode::Command => self.handle_command_mode(key),
        }
    }

    /// Takes one key in Normal mode.
    pub fn handle_normal_mode(&mut self, key: Key)
        ensures
            final(self)@ == old(self)@.after_normal_key(key),
    {
        match key {
            Key::Char(c) => {
                if c == 'q' {
                    self.should_quit = true;
                } else if c == 'i' {
                    self.state.enter_insert_mode();
                } else if c == 'j' {
                    self.scroll_down();
                } else if c == 'k' {
                    self.scroll_up();
                } else if c == ':' {
                    self.state.mode = Mode::Command;
                    self.state.input = String::new();
                }
            },
            _ => {},
        }
    }

    /// Takes one key in Insert mode.
    pub fn handle_insert_mode(&mut self, key: Key) -> (action: KeyAction)
        ensures
            final(self)@ == old(self)@.after_insert_key(key),
            match key {
                Key::Enter => if old(self)@.state.input.len() > 0 {
                    action matches KeyAction::Submit(message) && message@.role == Role::User
                        && message@.content == old(self)@.state.input
                } else {
                    action is Nothing
                },
                _ => action is Nothing,
            },
    {
        match key {
            Key::Esc => {
                self.state.enter_normal_mode();
                KeyAction::Nothing
            },
            Key::Enter => self.submit_message(),
            Key::Char(c) => {
                self.state.input.push(c);
                KeyAction::Nothing
            },
            Key::Backspace => {
                self.state.input.pop();
                KeyAction::Nothing
            },
            Key::Other => KeyAction::Nothing,
        }
    }

    /// Takes one key in Command mode. Enter on the update command changes
    /// nothing by itself: it asks for the rebuild that
    /// [`App::complete_update`] then enters.
    pub fn handle_command_mode(&mut self, key: Key) -> (action: KeyAction)
        ensures
            final(self)@ == old(self)@.after_command_key(key),
            match key {
                Key::Enter => if old(self)@.asks_for_update() {
                    action is RebuildContext
                } else {
                    action is Nothing
                },
                _ => action is Nothing,
            },
    {
        match key {
            Key::Esc => {
                self.state.enter_normal_mode();
                self.state.input = String::new();
                KeyAction::Nothing
            },
            Key::Enter => {
                if starts_with(self.state.input.as_str(), "update") {
                    KeyAction::RebuildContext
                } else {
                    self.state.mode = Mode::Normal;
                    KeyAction::Nothing
                }
            },
            Key::Char(c) => {
                self.state.input.push(c);
                KeyAction::Nothing
            },
            Key::Backspace => {
                self.state.input.pop();
                KeyAction::Nothing
            },
            Key::Other => KeyAction::Nothing,
        }
    }

    /// Moves the selection one message up.
    pub fn scroll_up(&mut self)
        ensures
            final(self)@ == old(self)@.scrolled_up(),
    {
        let current = match self.selected {
            Some(index) => index,
            None => 0,
        };
        if current > 0 {
            self.selected = Some(current - 1);
        }
    }

    /// Moves the selection one message down.
    pub fn scroll_down(&mut self)
        ensures
            final(self)@ == old(self)@.scrolled_down(),
    {
        let current = match self.selected {
            Some(index) => index,
            None => 0,
        };
        proof {
            assert(self.state.messages.deep_view().len() == self.state.messages.len());
        }
        if self.state.messages.len() > 0 && current < self.state.messages.len() - 1 {
            self.selected = Some(current + 1);
        }
    }

    /// Empties the input line and hands back what it held as a message of
    /// the user, unless it was empty.
    pub fn submit_message(&mut self) -> (action: KeyAction)
        ensures
            final(self)@ == old(self)@.with_state(old(self)@.state.with_input(Seq::empty())),
            if old(self)@.state.input.len() > 0 {
                action matches KeyAction::Submit(message) && message@.role == Role::User
                    && message@.content == old(self)@.state.input
            } else {
                action is Nothing
            },
    {
        if self.state.input.as_str().is_empty() {
            proof {
                assert(self.state.input@ =~= Seq::<char>::empty());
            }
            return KeyAction::Nothing;
        }
        let message = Message {
            role: Role::User,
            content: self.state.input.clone(),
            timestamp: crate::models::unix_now(),
        };
        self.state.input = String::new();
        KeyAction::Submit(message)
    }

    /// Completes the update command with what was read of the repository:
    /// the context is built anew, whatever the age of the old one, and the
    /// system confirms with exactly one message.
    pub fn complete_update(&mut self, now: u64, files: &Vec<TrackedFile>)
        ensures
            final(self)@.state.messages.len() == old(self)@.state.messages.len() + 1,
            final(self)@ == old(self)@.after_update(
                files.deep_view(),
                final(self)@.state.messages.last().timestamp,
            ),
    {
        let mut cache = RepoContext::new(now);
        let context = cache.rebuild(now, files);
        self.state.repo_context = Some(context);
        self.state.input = String::new();
        self.state.add_message(Role::System, String::from_str("Repository context updated."));
        self.state.mode = Mode::Normal;
    }

    /// Hands an event of the dispatcher to the conversation. The
    /// conversation changes as [`ChatHandler::run`] says; the quit flag and
    /// the selection stay.
    pub fn dispatch(&mut self, handler: &ChatHandler, event: DispatchEvent) -> (action:
        DispatchAction)
        ensures
            final(self)@.should_quit == old(self)@.should_quit,
            final(self)@.selected == old(self)@.selected,
            match event {
                DispatchEvent::Received(message) => final(self)@ == old(self)@ && (match old(self)@.state.repo_context {
                    Some(context) => action matches DispatchAction::Send(pending, asked)
                        && pending@ == message@ && asked@ == handler.client().request(
                        context,
                        old(self)@.state.messages,
                        message@.content,
                    ),
                    None => action is Wait,
                }),
                DispatchEvent::Replied(message, Ok(text)) => action is Wait && final(self)@.state.messages.len() == old(self)@.state.messages.len() + 2 && final(self)@.state == old(self)@.state.after_exchange(
                    message@,
                    text@,
                    final(self)@.state.messages[old(self)@.state.messages.len() as int].timestamp,
                    final(self)@.state.messages[old(self)@.state.messages.len() as int
                        + 1].timestamp,
                ),
                DispatchEvent::Replied(_, Err(error)) => action matches DispatchAction::Stop(why)
                    && why == error && final(self)@ == old(self)@,
            },
    {
        handler.run(&mut self.state, event)
    }
}

/// From Normal mode with an empty input line, `i` leads to Insert mode with
/// an empty input line. The line is never touched by `i`: what it held
/// before, it holds after.
pub proof fn law_insert_key_opens_input(app: AppView)
    requires
        app.state.mode == Mode::Normal,
    ensures
        app.after_key(Key::Char('i')).state.mode == Mode::Insert,
        app.after_key(Key::Char('i')).state.input == app.state.input,
        app.state.input.len() == 0 ==> app.after_key(Key::Char('i')).state.input.len() == 0,
        app.request(Key::Char('i')) == KeyRequest::Nothing,
{
}

/// From Command mode, Enter on a line that begins with the update command
/// asks for one rebuild and changes nothing by itself. Once the rebuild is
/// completed the conversation has grown by exactly one message, the
/// system's confirmation, the context is the one just built, the line is
/// empty and the mode is Normal.
pub proof fn law_update_command(app: AppView, files: Seq<TrackedFileView>, now: i64)
    requires
        app.state.mode == Mode::Command,
        update_command().is_prefix_of(app.state.input),
    ensures
        app.request(Key::Enter) == KeyRequest::Rebuild,
        app.after_key(Key::Enter) == app,
        app.after_update(files, now).state.mode == Mode::Normal,
        app.after_update(files, now).state.input.len() == 0,
        app.after_update(files, now).state.repo_context == Some(context_of(files)),
        app.after_update(files, now).state.messages == app.state.messages.push(
            MessageView { role: Role::System, content: updated_text(), timestamp: now },
        ),
{
}

/// From Command mode, Enter leads to Normal mode whether or not the line is
/// a known command: at once when it is not, and with the completed rebuild
/// when it is.
pub proof fn law_enter_leaves_command_mode(app: AppView, files: Seq<TrackedFileView>, now: i64)
    requires
        app.state.mode == Mode::Command,
    ensures
        !app.asks_for_update() ==> app.after_key(Key::Enter).state.mode == Mode::Normal,
        app.asks_for_update() ==> app.after_key(Key::Enter).after_update(files, now).state.mode
            == Mode::Normal,
{
}

} // verus!
