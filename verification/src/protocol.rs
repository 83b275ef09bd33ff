//! Wire-protocol data model and conversation history.
//!
//! A connection exchanges line-oriented JSON frames: inbound frames decode
//! to [`ClientMessage`], outbound frames encode a [`ServerMessage`].  The
//! conversation log is a [`ChatHistory`]: an append-only sequence of
//! [`Message`] values plus the identifier of the active model.

use vstd::prelude::*;

verus! {

/// Who produced a message of the conversation.
#[derive(Clone, Copy, Debug, PartialEq, Eq, Structural)]
pub enum Role {
    User,
    Assistant,
}

/// One entry of the conversation log.
#[derive(Debug)]
pub struct Message {
    pub role: Role,
    pub content: String,
}

/// Mathematical model of a [`Message`].
#[verifier::ext_equal]
pub struct MessageView {
    pub role: Role,
    pub content: Seq<char>,
}

impl View for Message {
    type V = MessageView;

    open spec fn view(&self) -> MessageView {
        MessageView { role: self.role, content: self.content@ }
    }
}

impl Clone for Message {
    fn clone(&self) -> (res: Self)
        ensures
            res@ == self@,
    {
        Message { role: self.role, content: self.content.clone() }
    }
}

/// The conversation log and the identifier of the active model.
#[derive(Debug)]
pub struct ChatHistory {
    pub messages: Vec<Message>,
    pub current_model: String,
}

/// Mathematical model of a [`ChatHistory`].
#[verifier::ext_equal]
pub struct HistoryView {
    pub messages: Seq<MessageView>,
    pub current_model: Seq<char>,
}

impl View for ChatHistory {
    type V = HistoryView;

    open spec fn view(&self) -> HistoryView {
        HistoryView {
            messages: self.messages@.map_values(|m: Message| m@),
            current_model: self.current_model@,
        }
    }
}

impl Clone for ChatHistory {
    fn clone(&self) -> (res: Self)
        ensures
            res@ == self@,
    {
        let messages = self.messages.clone();
        proof {
            assert forall|i: int| 0 <= i < self.messages@.len() implies messages@[i]@
                == self.messages@[i]@ by {
                assert(cloned::<Message>(self.messages@[i], messages@[i]));
            }
            assert(messages@.map_values(|m: Message| m@) =~= self.messages@.map_values(
                |m: Message| m@,
            ));
        }
        ChatHistory { messages, current_model: self.current_model.clone() }
    }
}

/// Inbound protocol frame.
#[derive(Debug)]
pub enum ClientMessage {
    Text(String),
    SetModel(String),
}

/// Mathematical model of a [`ClientMessage`].
#[verifier::ext_equal]
pub enum ClientMessageView {
    Text(Seq<char>),
    SetModel(Seq<char>),
}

impl View for ClientMessage {
    type V = ClientMessageView;

    open spec fn view(&self) -> ClientMessageView {
        match self {
            ClientMessage::Text(s) => ClientMessageView::Text(s@),
            ClientMessage::SetModel(s) => ClientMessageView::SetModel(s@),
        }
    }
}

/// Outbound protocol frame.
#[derive(Debug)]
pub enum ServerMessage {
    History(ChatHistory),
    Token(String),
    EndOfMessage,
    ModelChanged(String),
    AvailableModels(Vec<String>),
    Error(String),
}

/// Mathematical model of a [`ServerMessage`].
#[verifier::ext_equal]
pub enum ServerMessageView {
    History(HistoryView),
    Token(Seq<char>),
    EndOfMessage,
    ModelChanged(Seq<char>),
    AvailableModels(Seq<Seq<char>>),
    Error(Seq<char>),
}

impl View for ServerMessage {
    type V = ServerMessageView;

    open spec fn view(&self) -> ServerMessageView {
        match self {
            ServerMessage::History(h) => ServerMessageView::History(h@),
            ServerMessage::Token(s) => ServerMessageView::Token(s@),
            ServerMessage::EndOfMessage => ServerMessageView::EndOfMessage,
            ServerMessage::ModelChanged(s) => ServerMessageView::ModelChanged(s@),
            ServerMessage::AvailableModels(v) => ServerMessageView::AvailableModels(
                v@.map_values(|s: String| s@),
            ),
            ServerMessage::Error(s) => ServerMessageView::Error(s@),
        }
    }
}

impl ChatHistory {
    /// An empty conversation under the given model identifier.
    pub fn new(model: String) -> (h: ChatHistory)
        ensures
            h@.messages == Seq::<MessageView>::empty(),
            h@.current_model == model@,
    {
        let h = ChatHistory { messages: Vec::new(), current_model: model };
        proof {
            assert(h@.messages =~= Seq::<MessageView>::empty());
        }
        h
    }

    /// Appends one message; the log is append-only, so nothing else moves.
    pub fn push_message(&mut self, role: Role, content: String)
        ensures
            final(self)@.messages == old(self)@.messages.push(
                MessageView { role, content: content@ },
            ),
            final(self)@.current_model == old(self)@.current_model,
    {
        let ghost prev = self@.messages;
        let ghost c = content@;
        self.messages.push(Message { role, content });
        proof {
            assert(final(self)@.messages =~= prev.push(MessageView { role, content: c }));
        }
    }

    /// Replaces the active model identifier; the log is untouched.
    pub fn set_current_model(&mut self, model: String)
        ensures
            final(self)@.messages == old(self)@.messages,
            final(self)@.current_model == model@,
    {
        self.current_model = model;
    }
}

/// The history loaded at startup: the persisted one where the store held a
/// well-formed document, else an empty history under the default model.
pub fn history_or_default(loaded: Option<ChatHistory>, default_model: String) -> (h: ChatHistory)
    ensures
        match loaded {
            Some(l) => h@ == l@,
            None => h@.messages == Seq::<MessageView>::empty()
                && h@.current_model == default_model@,
        },
{
    match loaded {
        Some(l) => l,
        None => ChatHistory::new(default_model),
    }
}

} // verus!
