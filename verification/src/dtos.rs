//! Typed entries of the chat-completion wire protocol.
//!
//! A [`Message`] carries its content either as one plain string or as an
//! ordered sequence of multipart blocks; the two forms share the `content`
//! wire field and are mutually exclusive. Sampling parameters are carried in
//! thousandths (a temperature of `700` means `0.7` on the wire), which keeps
//! the protocol layer on plain integers.

use vstd::prelude::*;

verus! {

/// The speaker of a conversation entry.
#[derive(Debug, Clone, Copy, PartialEq, Eq, Structural)]
pub enum Role {
    SYSTEM,
    USER,
    ASSISTANT,
    TOOL,
}

/// One conversation entry.
#[derive(Debug)]
pub struct Message {
    pub role: Role,
    /// Plain string content. Mutually exclusive with `multi_content`.
    pub content: Option<String>,
    /// Multipart content; shares the `content` wire field with `content`.
    pub multi_content: Option<Vec<MultiContent>>,
    /// Present only on assistant turns that request capabilities.
    pub tool_calls: Option<Vec<ToolCall>>,
    /// Present only on tool turns reporting a result.
    pub tool_call_id: Option<String>,
    /// Capability name, present only on tool turns reporting a result.
    pub name: Option<String>,
}

/// One block of multipart content: a text block or an image-reference block.
#[derive(Debug)]
pub struct MultiContent {
    /// Block tag on the wire: `"text"` or `"image_url"`.
    pub type_: String,
    pub text: Option<String>,
    pub image_url: Option<ImageUrl>,
}

/// An image reference inside a multipart block.
#[derive(Debug)]
pub struct ImageUrl {
    pub url: String,
}

/// A capability invocation requested by the model.
#[derive(Debug)]
pub struct ToolCall {
    pub id: String,
    /// Tag on the wire, `"function"` in practice.
    pub type_: String,
    pub function: FunctionCall,
}

/// The function descriptor inside a [`ToolCall`].
#[derive(Debug)]
pub struct FunctionCall {
    pub name: String,
    /// A JSON document encoded as a string; parsed lazily by the dispatcher.
    pub arguments: String,
}

/// The schema form of a capability, as sent to the model.
#[derive(Debug)]
pub struct Tool {
    /// Tag on the wire, `"function"` in practice.
    pub type_: String,
    pub function: FunctionDefinition,
}

/// Name, description and parameter schema of a capability.
#[derive(Debug)]
pub struct FunctionDefinition {
    pub name: String,
    pub description: String,
    /// A JSON-Schema document, held as raw JSON text and emitted verbatim.
    pub parameters: String,
}

/// A full request to the completion endpoint.
#[derive(Debug)]
pub struct CompletionRequest {
    pub model: String,
    pub messages: Vec<Message>,
    pub tools: Option<Vec<Tool>>,
    /// Sampling temperature in thousandths.
    pub temperature: u32,
    /// Nucleus-sampling parameter in thousandths.
    pub top_p: Option<u32>,
    pub stream: Option<bool>,
}

/// A buffered (non-streaming) completion response.
#[derive(Debug)]
pub struct CompletionResponse {
    pub id: String,
    pub created: u64,
    pub model: String,
    pub choices: Vec<CompletionChoice>,
}

/// One choice of a buffered response.
#[derive(Debug)]
pub struct CompletionChoice {
    pub index: u32,
    pub message: Message,
}

/// One frame of a streaming response.
#[derive(Debug)]
pub struct CompletionStreamResponse {
    pub id: String,
    pub created: u64,
    pub model: String,
    pub choices: Vec<StreamChoice>,
}

/// One choice of a streaming frame.
#[derive(Debug)]
pub struct StreamChoice {
    pub index: u32,
    pub delta: StreamChunkMessage,
}

/// The incremental content of one streaming frame.
#[derive(Debug)]
pub struct StreamChunkMessage {
    pub role: Option<Role>,
    pub content: Option<String>,
}

// ---------------------------------------------------------------------------
// Mathematical views
// ---------------------------------------------------------------------------

pub ghost struct MessageView {
    pub role: Role,
    pub content: Option<Seq<char>>,
    pub multi_content: Option<Seq<MultiContentView>>,
    pub tool_calls: Option<Seq<ToolCallView>>,
    pub tool_call_id: Option<Seq<char>>,
    pub name: Option<Seq<char>>,
}

pub ghost struct MultiContentView {
    pub type_: Seq<char>,
    pub text: Option<Seq<char>>,
    pub image_url: Option<Seq<char>>,
}

pub ghost struct ToolCallView {
    pub id: Seq<char>,
    pub type_: Seq<char>,
    pub name: Seq<char>,
    pub arguments: Seq<char>,
}

pub ghost struct ToolView {
    pub type_: Seq<char>,
    pub name: Seq<char>,
    pub description: Seq<char>,
    pub parameters: Seq<char>,
}

pub ghost struct CompletionRequestView {
    pub model: Seq<char>,
    pub messages: Seq<MessageView>,
    pub tools: Option<Seq<ToolView>>,
    pub temperature: u32,
    pub top_p: Option<u32>,
    pub stream: Option<bool>,
}

pub ghost struct CompletionResponseView {
    pub id: Seq<char>,
    pub created: u64,
    pub model: Seq<char>,
    pub choices: Seq<CompletionChoiceView>,
}

pub ghost struct CompletionChoiceView {
    pub index: u32,
    pub message: MessageView,
}

pub ghost struct CompletionStreamResponseView {
    pub id: Seq<char>,
    pub created: u64,
    pub model: Seq<char>,
    pub choices: Seq<StreamChoiceView>,
}

pub ghost struct StreamChoiceView {
    pub index: u32,
    pub delta: StreamChunkMessageView,
}

pub ghost struct StreamChunkMessageView {
    pub role: Option<Role>,
    pub content: Option<Seq<char>>,
}

impl View for ImageUrl {
    type V = Seq<char>;

    open spec fn view(&self) -> Seq<char> {
        self.url@
    }
}

impl View for MultiContent {
    type V = MultiContentView;

    open spec fn view(&self) -> MultiContentView {
        MultiContentView {
            type_: self.type_@,
            text: match self.text {
                Some(t) => Some(t@),
                None => None,
            },
            image_url: match self.image_url {
                Some(u) => Some(u@),
                None => None,
            },
        }
    }
}

impl View for ToolCall {
    type V = ToolCallView;

    open spec fn view(&self) -> ToolCallView {
        ToolCallView {
            id: self.id@,
            type_: self.type_@,
            name: self.function.name@,
            arguments: self.function.arguments@,
        }
    }
}

impl View for Message {
    type V = MessageView;

    open spec fn view(&self) -> MessageView {
        MessageView {
            role: self.role,
            content: match self.content {
                Some(c) => Some(c@),
                None => None,
            },
            multi_content: match self.multi_content {
                Some(m) => Some(Seq::new(m@.len(), |i: int| m@[i]@)),
                None => None,
            },
            tool_calls: match self.tool_calls {
                Some(t) => Some(Seq::new(t@.len(), |i: int| t@[i]@)),
                None => None,
            },
            tool_call_id: match self.tool_call_id {
                Some(s) => Some(s@),
                None => None,
            },
            name: match self.name {
                Some(s) => Some(s@),
                None => None,
            },
        }
    }
}

impl View for Tool {
    type V = ToolView;

    open spec fn view(&self) -> ToolView {
        ToolView {
            type_: self.type_@,
            name: self.function.name@,
            description: self.function.description@,
            parameters: self.function.parameters@,
        }
    }
}

impl View for CompletionRequest {
    type V = CompletionRequestView;

    open spec fn view(&self) -> CompletionRequestView {
        CompletionRequestView {
            model: self.model@,
            messages: Seq::new(self.messages@.len(), |i: int| self.messages@[i]@),
            tools: match self.tools {
                Some(t) => Some(Seq::new(t@.len(), |i: int| t@[i]@)),
                None => None,
            },
            temperature: self.temperature,
            top_p: self.top_p,
            stream: self.stream,
        }
    }
}

impl View for CompletionChoice {
    type V = CompletionChoiceView;

    open spec fn view(&self) -> CompletionChoiceView {
        CompletionChoiceView { index: self.index, message: self.message@ }
    }
}

impl View for CompletionResponse {
    type V = CompletionResponseView;

    open spec fn view(&self) -> CompletionResponseView {
        CompletionResponseView {
            id: self.id@,
            created: self.created,
            model: self.model@,
            choices: Seq::new(self.choices@.len(), |i: int| self.choices@[i]@),
        }
    }
}

impl View for StreamChunkMessage {
    type V = StreamChunkMessageView;

    open spec fn view(&self) -> StreamChunkMessageView {
        StreamChunkMessageView {
            role: self.role,
            content: match self.content {
                Some(c) => Some(c@),
                None => None,
            },
        }
    }
}

impl View for StreamChoice {
    type V = StreamChoiceView;

    open spec fn view(&self) -> StreamChoiceView {
        StreamChoiceView { index: self.index, delta: self.delta@ }
    }
}

impl View for CompletionStreamResponse {
    type V = CompletionStreamResponseView;

    open spec fn view(&self) -> CompletionStreamResponseView {
        CompletionStreamResponseView {
            id: self.id@,
            created: self.created,
            model: self.model@,
            choices: Seq::new(self.choices@.len(), |i: int| self.choices@[i]@),
        }
    }
}

// ---------------------------------------------------------------------------
// Well-formedness
// ---------------------------------------------------------------------------

impl MessageView {
    /// String content and multipart content are mutually exclusive: at most
    /// one of the two is populated.
    pub open spec fn wf(&self) -> bool {
        !(self.content is Some && self.multi_content is Some)
    }
}

impl Message {
    pub open spec fn wf(&self) -> bool {
        self@.wf()
    }
}

// ---------------------------------------------------------------------------
// Clones that preserve the view
// ---------------------------------------------------------------------------

impl Clone for ImageUrl {
    fn clone(&self) -> (r: Self)
        ensures
            r@ == self@,
    {
        ImageUrl { url: self.url.clone() }
    }
}

impl Clone for MultiContent {
    fn clone(&self) -> (r: Self)
        ensures
            r@ == self@,
    {
        MultiContent {
            type_: self.type_.clone(),
            text: match &self.text {
                Some(t) => Some(t.clone()),
                None => None,
            },
            image_url: match &self.image_url {
                Some(u) => Some(u.clone()),
                None => None,
            },
        }
    }
}

impl Clone for FunctionCall {
    fn clone(&self) -> (r: Self)
        ensures
            r.name@ == self.name@,
            r.arguments@ == self.arguments@,
    {
        FunctionCall { name: self.name.clone(), arguments: self.arguments.clone() }
    }
}

impl Clone for ToolCall {
    fn clone(&self) -> (r: Self)
        ensures
            r@ == self@,
    {
        ToolCall { id: self.id.clone(), type_: self.type_.clone(), function: self.function.clone() }
    }
}

fn clone_multi_contents(v: &Vec<MultiContent>) -> (r: Vec<MultiContent>)
    ensures
        r@.len() == v@.len(),
        forall|i: int| 0 <= i < v@.len() ==> r@[i]@ == #[trigger] v@[i]@,
{
    let mut r: Vec<MultiContent> = Vec::new();
    let mut i: usize = 0;
    while i < v.len()
        invariant
            i <= v@.len(),
            r@.len() == i,
            forall|j: int| 0 <= j < i ==> r@[j]@ == #[trigger] v@[j]@,
        decreases v@.len() - i,
    {
        r.push(v[i].clone());
        i = i + 1;
    }
    r
}

pub(crate) fn clone_tool_calls(v: &Vec<ToolCall>) -> (r: Vec<ToolCall>)
    ensures
        r@.len() == v@.len(),
        forall|i: int| 0 <= i < v@.len() ==> r@[i]@ == #[trigger] v@[i]@,
{
    let mut r: Vec<ToolCall> = Vec::new();
    let mut i: usize = 0;
    while i < v.len()
        invariant
            i <= v@.len(),
            r@.len() == i,
            forall|j: int| 0 <= j < i ==> r@[j]@ == #[trigger] v@[j]@,
        decreases v@.len() - i,
    {
        r.push(v[i].clone());
        i = i + 1;
    }
    r
}

impl Clone for Message {
    fn clone(&self) -> (r: Self)
        ensures
            r@ == self@,
    {
        let r = Message {
            role: self.role,
            content: match &self.content {
                Some(c) => Some(c.clone()),
                None => None,
            },
            multi_content: match &self.multi_content {
                Some(m) => Some(clone_multi_contents(m)),
                None => None,
            },
            tool_calls: match &self.tool_calls {
                Some(t) => Some(clone_tool_calls(t)),
                None => None,
            },
            tool_call_id: match &self.tool_call_id {
                Some(s) => Some(s.clone()),
                None => None,
            },
            name: match &self.name {
                Some(s) => Some(s.clone()),
                None => None,
            },
        };
        proof {
            assert(r@.multi_content matches Some(m) ==> self@.multi_content matches Some(n) && m =~= n);
            assert(r@.tool_calls matches Some(m) ==> self@.tool_calls matches Some(n) && m =~= n);
        }
        r
    }
}

impl Clone for FunctionDefinition {
    fn clone(&self) -> (r: Self)
        ensures
            r.name@ == self.name@,
            r.description@ == self.description@,
            r.parameters@ == self.parameters@,
    {
        FunctionDefinition {
            name: self.name.clone(),
            description: self.description.clone(),
            parameters: self.parameters.clone(),
        }
    }
}

impl Clone for Tool {
    fn clone(&self) -> (r: Self)
        ensures
            r@ == self@,
    {
        Tool { type_: self.type_.clone(), function: self.function.clone() }
    }
}

} // verus!
