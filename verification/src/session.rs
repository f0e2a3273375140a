//! The simplified two-party transcript form used by session storage.
//!
//! A stored session keeps only who spoke and what was said; mapping in
//! either direction drops or defaults everything else.

use vstd::prelude::*;
use crate::dtos::{Message, MessageView, Role};

verus! {

/// One entry of the simplified transcript.
#[derive(Debug)]
pub enum MappedMessage {
    User(String),
    Agent(String),
}

pub ghost enum MappedMessageView {
    User(Seq<char>),
    Agent(Seq<char>),
}

impl View for MappedMessage {
    type V = MappedMessageView;

    open spec fn view(&self) -> MappedMessageView {
        match self {
            MappedMessage::User(s) => MappedMessageView::User(s@),
            MappedMessage::Agent(s) => MappedMessageView::Agent(s@),
        }
    }
}

/// The simplified form of one message: user and assistant turns keep their
/// string content, a missing content and every other role fall back to an
/// empty user entry.
pub open spec fn spec_map_message_to(m: MessageView) -> MappedMessageView {
    match m.role {
        Role::USER => MappedMessageView::User(
            match m.content {
                Some(c) => c,
                None => Seq::empty(),
            },
        ),
        Role::ASSISTANT => MappedMessageView::Agent(
            match m.content {
                Some(c) => c,
                None => Seq::empty(),
            },
        ),
        _ => MappedMessageView::User(Seq::empty()),
    }
}

pub fn map_message_to(message: &Message) -> (r: MappedMessage)
    ensures
        r@ == spec_map_message_to(message@),
{
    match message.role {
        Role::USER => {
            match &message.content {
                Some(c) => MappedMessage::User(c.clone()),
                None => MappedMessage::User(String::new()),
            }
        },
        Role::ASSISTANT => {
            match &message.content {
                Some(c) => MappedMessage::Agent(c.clone()),
                None => MappedMessage::Agent(String::new()),
            }
        },
        _ => MappedMessage::User(String::new()),
    }
}

/// The full message a simplified entry stands for: role and string content,
/// nothing else populated.
pub open spec fn spec_map_message_from(m: MappedMessageView) -> MessageView {
    match m {
        MappedMessageView::User(c) => MessageView {
            role: Role::USER,
            content: Some(c),
            multi_content: None,
            tool_calls: None,
            tool_call_id: None,
            name: None,
        },
        MappedMessageView::Agent(c) => MessageView {
            role: Role::ASSISTANT,
            content: Some(c),
            multi_content: None,
            tool_calls: None,
            tool_call_id: None,
            name: None,
        },
    }
}

pub fn map_message_from(message: &MappedMessage) -> (r: Message)
    ensures
        r@ == spec_map_message_from(message@),
{
    match message {
        MappedMessage::User(content) => Message {
            role: Role::USER,
            content: Some(content.clone()),
            multi_content: None,
            tool_calls: None,
            tool_call_id: None,
            name: None,
        },
        MappedMessage::Agent(content) => Message {
            role: Role::ASSISTANT,
            content: Some(content.clone()),
            multi_content: None,
            tool_calls: None,
            tool_call_id: None,
            name: None,
        },
    }
}

/// A user or assistant turn with string content survives the round trip
/// through the simplified form exactly.
pub proof fn lemma_session_round_trip(m: MessageView)
    requires
        m.role == Role::USER || m.role == Role::ASSISTANT,
        m.content is Some,
        m.multi_content is None,
        m.tool_calls is None,
        m.tool_call_id is None,
        m.name is None,
    ensures
        spec_map_message_from(spec_map_message_to(m)) == m,
{
}

} // verus!
