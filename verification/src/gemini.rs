//! Talking to the model: what is asked of it, what is read from its answer,
//! and what a message on its way to the model does to the conversation.
//!
//! Sending a request and waiting for the answer is the caller's work. The
//! caller hands each received message and each answer to [`ChatHandler`],
//! which says what to do next.

use crate::models::{AppState, AppStateView, Message, MessageView, Role};
use vstd::prelude::*;

verus! {

/// The model that is asked when none is named.
pub open spec fn default_model() -> Seq<char> {
    "gemini-1.5-pro"@
}

/// Where a request for `model` is sent, with the key in the query.
pub open spec fn url_text(model: Seq<char>, api_key: Seq<char>) -> Seq<char> {
    "https://generativelanguage.googleapis.com/v1beta/models/"@ + model
        + ":generateContent?key="@ + api_key
}

/// One line of the history: the role's name, a colon, the text.
pub open spec fn history_line(message: MessageView) -> Seq<char> {
    message.role.label() + ": "@ + message.content + "\n"@
}

/// The history, one line per message, oldest first.
pub open spec fn history_text(history: Seq<MessageView>) -> Seq<char>
    decreases history.len(),
{
    if history.len() == 0 {
        Seq::empty()
    } else {
        history_text(history.drop_last()) + history_line(history.last())
    }
}

/// The prompt: the preamble, the repository context, the history, and the
/// new input.
pub open spec fn prompt_text(
    context: Seq<char>,
    history: Seq<MessageView>,
    input: Seq<char>,
) -> Seq<char> {
    "You are a code assistant with access to the following repository context:\n\n"@ + context
        + "\n\nChat history:\n"@ + history_text(history) + "\nUser: "@ + input
        + "\n\nAssistant:"@
}

/// The first text part of the first candidate, if the answer has both.
pub open spec fn first_reply(candidates: Seq<Seq<Seq<char>>>) -> Option<Seq<char>> {
    if candidates.len() > 0 && candidates[0].len() > 0 {
        Some(candidates[0][0])
    } else {
        None
    }
}

/// Why no reply could be had.
#[derive(Clone, Debug, PartialEq, Eq)]
pub enum ChatError {
    /// The answer held no candidate, or its first candidate no text part.
    NoResponse,
    /// The request could not be sent or the answer not read; the field says
    /// why.
    Transport(String),
}

pub ghost enum ChatErrorView {
    NoResponse,
    Transport(Seq<char>),
}

impl View for ChatError {
    type V = ChatErrorView;

    open spec fn view(&self) -> ChatErrorView {
        match self {
            ChatError::NoResponse => ChatErrorView::NoResponse,
            ChatError::Transport(why) => ChatErrorView::Transport(why@),
        }
    }
}

impl ChatErrorView {
    pub open spec fn description(self) -> Seq<char> {
        match self {
            ChatErrorView::NoResponse => "No response from Gemini API"@,
            ChatErrorView::Transport(why) => why,
        }
    }
}

impl ChatError {
    /// The error in words.
    pub fn message(&self) -> (r: String)
        ensures
            r@ == self@.description(),
    {
        match self {
            ChatError::NoResponse => String::from_str("No response from Gemini API"),
            ChatError::Transport(why) => why.clone(),
        }
    }
}

/// What is sent to the model: the address and the prompt.
#[derive(Clone, Debug, PartialEq, Eq)]
pub struct ModelRequest {
    pub url: String,
    pub prompt: String,
}

pub ghost struct ModelRequestView {
    pub url: Seq<char>,
    pub prompt: Seq<char>,
}

impl View for ModelRequest {
    type V = ModelRequestView;

    open spec fn view(&self) -> ModelRequestView {
        ModelRequestView { url: self.url@, prompt: self.prompt@ }
    }
}

/// The key and the model under which requests are made.
#[derive(Clone, Debug)]
pub struct GeminiClient {
    api_key: String,
    model: String,
}

pub ghost struct GeminiClientView {
    pub api_key: Seq<char>,
    pub model: Seq<char>,
}

impl View for GeminiClient {
    type V = GeminiClientView;

    closed spec fn view(&self) -> GeminiClientView {
        GeminiClientView { api_key: self.api_key@, model: self.model@ }
    }
}

impl GeminiClientView {
    /// The request for `input`, asked with `context` after `history`.
    pub open spec fn request(
        self,
        context: Seq<char>,
        history: Seq<MessageView>,
        input: Seq<char>,
    ) -> ModelRequestView {
        ModelRequestView {
            url: url_text(self.model, self.api_key),
            prompt: prompt_text(context, history, input),
        }
    }
}

impl GeminiClient {
    /// A client for `model`, or for the default model when none is named.
    pub fn new(api_key: String, model: Option<String>) -> (client: GeminiClient)
        ensures
            client@.api_key == api_key@,
            client@.model == match model {
                Some(name) => name@,
                None => default_model(),
            },
    {
        let model = match model {
            Some(name) => name,
            None => String::from_str("gemini-1.5-pro"),
        };
        GeminiClient { api_key, model }
    }

    /// The model that is asked.
    pub fn model(&self) -> (r: &String)
        ensures
            r@ == self@.model,
    {
        &self.model
    }

    /// The address that requests are sent to.
    pub fn request_url(&self) -> (url: String)
        ensures
            url@ == url_text(self@.model, self@.api_key),
    {
        let mut url = String::from_str("https://generativelanguage.googleapis.com/v1beta/models/");
        url.append(self.model.as_str());
        url.append(":generateContent?key=");
        url.append(self.api_key.as_str());
        url
    }

    /// The prompt for `input`, asked with `context` after `history`.
    pub fn build_prompt(&self, context: &str, history: &Vec<Message>, input: &str) -> (prompt:
        String)
        ensures
            prompt@ == prompt_text(context@, history.deep_view(), input@),
    {
        let ghost past = history.deep_view();
        let mut prompt = String::from_str(
            "You are a code assistant with access to the following repository context:\n\n",
        );
        prompt.append(context);
        prompt.append("\n\nChat history:\n");
        let ghost head = prompt@;
        proof {
            assert(prompt@ =~= head + history_text(past.take(0)));
        }
        let mut i: usize = 0;
        while i < history.len()
            invariant
                i <= history.len(),
                past == history.deep_view(),
                prompt@ == head + history_text(past.take(i as int)),
            decreases history.len() - i,
        {
            proof {
                assert(past.take(i + 1).drop_last() =~= past.take(i as int));
                assert(past.take(i + 1).last() == history[i as int]@);
            }
            prompt.append(history[i].role.name());
            prompt.append(": ");
            prompt.append(history[i].content.as_str());
            prompt.append("\n");
            proof {
                assert(prompt@ =~= head + history_text(past.take(i + 1)));
            }
            i = i + 1;
        }
        proof {
            assert(past.take(history.len() as int) =~= past);
        }
        prompt.append("\nUser: ");
        prompt.append(input);
        prompt.append("\n\nAssistant:");
        proof {
            assert(prompt@ =~= prompt_text(context@, past, input@));
        }
        prompt
    }

    /// The request for `input`, asked with `context` after `history`.
    pub fn prepare_request(&self, context: &str, history: &Vec<Message>, input: &str) -> (request:
        ModelRequest)
        ensures
            request@ == self@.request(context@, history.deep_view(), input@),
    {
        ModelRequest { url: self.request_url(), prompt: self.build_prompt(context, history, input) }
    }

    /// Reads the reply from an answer, given as the text parts of each of
    /// its candidates. The reply is the first part of the first candidate;
    /// an answer without one is an error.
    pub fn read_reply(candidates: &Vec<Vec<String>>) -> (reply: Result<String, ChatError>)
        ensures
            match first_reply(candidates.deep_view()) {
                Some(text) => reply matches Ok(got) && got@ == text,
                None => reply == Err::<String, ChatError>(ChatError::NoResponse),
            },
    {
        proof {
            assert(candidates.deep_view().len() == candidates.len());
        }
        if candidates.len() > 0 {
            proof {
                assert(candidates.deep_view()[0] == candidates[0].deep_view());
                assert(candidates[0].deep_view().len() == candidates[0].len());
            }
            if candidates[0].len() > 0 {
                proof {
                    assert(candidates[0].deep_view()[0] == candidates[0][0]@);
                }
                return Ok(candidates[0][0].clone());
            }
        }
        Err(ChatError::NoResponse)
    }
}

/// What reaches the dispatcher.
#[derive(Debug)]
pub enum DispatchEvent {
    /// A message was submitted.
    Received(Message),
    /// The request made for a message was answered, or failed.
    Replied(Message, Result<String, ChatError>),
}

/// What the dispatcher asks of its caller.
#[derive(Clone, Debug)]
pub enum DispatchAction {
    /// Send the request, then report the outcome together with the message.
    Send(Message, ModelRequest),
    /// Wait for the next message.
    Wait,
    /// Stop for good: the model could not be reached.
    Stop(ChatError),
}

/// The dispatcher: it takes submitted messages one at a time, has the model
/// asked, and enters question and reply into the conversation.
#[derive(Clone, Debug)]
pub struct ChatHandler {
    gemini: GeminiClient,
}

impl AppStateView {
    /// The conversation after an exchange: the message that was asked and
    /// then the reply of the assistant, stamped `asked_at` and `replied_at`.
    pub open spec fn after_exchange(
        self,
        message: MessageView,
        reply: Seq<char>,
        asked_at: i64,
        replied_at: i64,
    ) -> AppStateView {
        self.with_message(
            MessageView { role: message.role, content: message.content, timestamp: asked_at },
        ).with_message(
            MessageView { role: Role::Assistant, content: reply, timestamp: replied_at },
        )
    }
}

impl ChatHandler {
    pub closed spec fn client(&self) -> GeminiClientView {
        self.gemini@
    }

    pub fn new(api_key: String, model: Option<String>) -> (handler: ChatHandler)
        ensures
            handler.client().api_key == api_key@,
            handler.client().model == match model {
                Some(name) => name@,
                None => default_model(),
            },
    {
        ChatHandler { gemini: GeminiClient::new(api_key, model) }
    }

    /// Decides on a submitted message. With a repository context at hand the
    /// model is to be asked, with the conversation so far as history; without
    /// one the message is dropped.
    pub fn receive(&self, state: &AppState, message: &Message) -> (request: Option<ModelRequest>)
        ensures
            match state@.repo_context {
                Some(context) => request matches Some(asked) && asked@ == self.client().request(
                    context,
                    state@.messages,
                    message@.content,
                ),
                None => request is None,
            },
    {
        match &state.repo_context {
            Some(context) => Some(
                self.gemini.prepare_request(
                    context.as_str(),
                    &state.messages,
                    message.content.as_str(),
                ),
            ),
            None => None,
        }
    }

    /// Enters an exchange into the conversation: after a reply the message
    /// that was asked and then the reply, in that order and nothing else.
    /// After a failure the conversation stays as it is and the failure is
    /// handed back.
    pub fn complete(state: &mut AppState, message: Message, reply: Result<String, ChatError>) -> (r:
        Result<(), ChatError>)
        ensures
            match reply {
                Ok(text) => r is Ok && final(state)@.messages.len() == old(state)@.messages.len()
                    + 2 && final(state)@ == old(state)@.after_exchange(
                    message@,
                    text@,
                    final(state)@.messages[old(state)@.messages.len() as int].timestamp,
                    final(state)@.messages[old(state)@.messages.len() as int + 1].timestamp,
                ),
                Err(error) => r == Err::<(), ChatError>(error) && final(state)@ == old(state)@,
            },
    {
        match reply {
            Ok(text) => {
                state.add_message(message.role, message.content);
                state.add_message(Role::Assistant, text);
                Ok(())
            },
            Err(error) => Err(error),
        }
    }

    /// One step of the dispatcher: what an event does to the conversation,
    /// and what is to be done next.
    pub fn run(&self, state: &mut AppState, event: DispatchEvent) -> (action: DispatchAction)
        ensures
            match event {
                DispatchEvent::Received(message) => final(state)@ == old(state)@ && (match old(state)@.repo_context {
                    Some(context) => action matches DispatchAction::Send(pending, asked)
                        && pending@ == message@ && asked@ == self.client().request(
                        context,
                        old(state)@.messages,
                        message@.content,
                    ),
                    None => action is Wait,
                }),
                DispatchEvent::Replied(message, Ok(text)) => action is Wait && final(state)@.messages.len() == old(state)@.messages.len() + 2 && final(state)@ == old(state)@.after_exchange(
                    message@,
                    text@,
                    final(state)@.messages[old(state)@.messages.len() as int].timestamp,
                    final(state)@.messages[old(state)@.messages.len() as int + 1].timestamp,
                ),
                DispatchEvent::Replied(_, Err(error)) => action matches DispatchAction::Stop(why)
                    && why == error && final(state)@ == old(state)@,
            },
    {
        match event {
            DispatchEvent::Received(message) => {
                match self.receive(state, &message) {
                    Some(request) => DispatchAction::Send(message, request),
                    None => DispatchAction::Wait,
                }
            },
            DispatchEvent::Replied(message, reply) => {
                match Self::complete(state, message, reply) {
                    Ok(()) => DispatchAction::Wait,
                    Err(error) => DispatchAction::Stop(error),
                }
            },
        }
    }
}

} // verus!
