//! Agent configuration and the construction of completion requests.
//!
//! An [`Agent`] is immutable configuration: model identifier, endpoint base
//! URL, credential, system prompt, sampling parameters and an optional
//! capability registry. It is built once through [`AgentBuilder`], which
//! validates that the model identifier is present, and read-only thereafter.
//!
//! Every request built from an agent unconditionally prepends a system-role
//! message holding the agent's configured prompt — even when the supplied
//! history already contains one; callers are expected to supply
//! system-message-free history.

use vstd::prelude::*;
use crate::dtos::{
    CompletionRequest, CompletionRequestView, CompletionResponse, Message, MessageView, Role,
    ToolCall,
};
use crate::errors::AgentError;
use crate::tools_registry::{spec_definitions, RegisteredToolView, ToolRegistry};

verus! {

/// Immutable configuration of one agent. Sampling parameters are carried in
/// thousandths.
#[derive(Debug)]
pub struct Agent {
    pub model: String,
    pub url: String,
    pub api_key: String,
    pub system_prompt: String,
    /// Sampling temperature in thousandths.
    pub temperature: u32,
    pub tool_registry: Option<ToolRegistry>,
    /// Nucleus-sampling parameter in thousandths.
    pub top_p: u32,
}

pub ghost struct AgentView {
    pub model: Seq<char>,
    pub url: Seq<char>,
    pub api_key: Seq<char>,
    pub system_prompt: Seq<char>,
    pub temperature: u32,
    pub tool_registry: Option<Seq<RegisteredToolView>>,
    pub top_p: u32,
}

impl View for Agent {
    type V = AgentView;

    open spec fn view(&self) -> AgentView {
        AgentView {
            model: self.model@,
            url: self.url@,
            api_key: self.api_key@,
            system_prompt: self.system_prompt@,
            temperature: self.temperature,
            tool_registry: match self.tool_registry {
                Some(r) => Some(r@),
                None => None,
            },
            top_p: self.top_p,
        }
    }
}

impl Clone for Agent {
    fn clone(&self) -> (r: Self)
        ensures
            r@ == self@,
    {
        Agent {
            model: self.model.clone(),
            url: self.url.clone(),
            api_key: self.api_key.clone(),
            system_prompt: self.system_prompt.clone(),
            temperature: self.temperature,
            tool_registry: match &self.tool_registry {
                Some(reg) => Some(reg.clone()),
                None => None,
            },
            top_p: self.top_p,
        }
    }
}

/// Step-by-step construction of an [`Agent`]; only the model identifier is
/// required, every other field has a default.
#[derive(Debug)]
pub struct AgentBuilder {
    pub model: Option<String>,
    pub url: String,
    pub api_key: String,
    pub system_prompt: String,
    /// Sampling temperature in thousandths.
    pub temperature: u32,
    pub tool_registry: Option<ToolRegistry>,
    /// Nucleus-sampling parameter in thousandths.
    pub top_p: u32,
}

pub ghost struct AgentBuilderView {
    pub model: Option<Seq<char>>,
    pub url: Seq<char>,
    pub api_key: Seq<char>,
    pub system_prompt: Seq<char>,
    pub temperature: u32,
    pub tool_registry: Option<Seq<RegisteredToolView>>,
    pub top_p: u32,
}

impl View for AgentBuilder {
    type V = AgentBuilderView;

    open spec fn view(&self) -> AgentBuilderView {
        AgentBuilderView {
            model: match self.model {
                Some(m) => Some(m@),
                None => None,
            },
            url: self.url@,
            api_key: self.api_key@,
            system_prompt: self.system_prompt@,
            temperature: self.temperature,
            tool_registry: match self.tool_registry {
                Some(r) => Some(r@),
                None => None,
            },
            top_p: self.top_p,
        }
    }
}

impl Default for AgentBuilder {
    /// The defaults: a local endpoint, a placeholder credential, a generic
    /// system prompt, temperature 0.7 and nucleus parameter 0.9.
    fn default() -> (r: Self)
        ensures
            r@.model is None,
            r@.url == "http://localhost:1234/v1"@,
            r@.api_key == "local"@,
            r@.system_prompt == "You are a helpful assistant.\n Strict follow user instructions"@,
            r@.temperature == 700u32,
            r@.tool_registry is None,
            r@.top_p == 900u32,
    {
        AgentBuilder {
            model: None,
            url: String::from_str("http://localhost:1234/v1"),
            api_key: String::from_str("local"),
            system_prompt: String::from_str(
                "You are a helpful assistant.\n Strict follow user instructions",
            ),
            temperature: 700,
            tool_registry: None,
            top_p: 900,
        }
    }
}

impl AgentBuilder {
    pub fn new() -> (r: Self)
        ensures
            r@.model is None,
            r@.url == "http://localhost:1234/v1"@,
            r@.api_key == "local"@,
            r@.system_prompt == "You are a helpful assistant.\n Strict follow user instructions"@,
            r@.temperature == 700u32,
            r@.tool_registry is None,
            r@.top_p == 900u32,
    {
        Self::default()
    }

    /// The builder holding the configuration of an existing agent.
    pub fn convert_to_builder(agent: &Agent) -> (r: AgentBuilder)
        ensures
            r@.model == Some(agent@.model),
            r@.url == agent@.url,
            r@.api_key == agent@.api_key,
            r@.system_prompt == agent@.system_prompt,
            r@.temperature == agent@.temperature,
            r@.tool_registry == agent@.tool_registry,
            r@.top_p == agent@.top_p,
    {
        AgentBuilder {
            model: Some(agent.model.clone()),
            url: agent.url.clone(),
            api_key: agent.api_key.clone(),
            system_prompt: agent.system_prompt.clone(),
            temperature: agent.temperature,
            tool_registry: match &agent.tool_registry {
                Some(reg) => Some(reg.clone()),
                None => None,
            },
            top_p: agent.top_p,
        }
    }

    pub fn model(self, model: String) -> (r: Self)
        ensures
            r@ == (AgentBuilderView { model: Some(model@), ..self@ }),
    {
        AgentBuilder { model: Some(model), ..self }
    }

    pub fn url(self, url: &str) -> (r: Self)
        ensures
            r@ == (AgentBuilderView { url: url@, ..self@ }),
    {
        AgentBuilder { url: String::from_str(url), ..self }
    }

    pub fn api_key(self, api_key: &str) -> (r: Self)
        ensures
            r@ == (AgentBuilderView { api_key: api_key@, ..self@ }),
    {
        AgentBuilder { api_key: String::from_str(api_key), ..self }
    }

    pub fn system_prompt(self, prompt: &str) -> (r: Self)
        ensures
            r@ == (AgentBuilderView { system_prompt: prompt@, ..self@ }),
    {
        AgentBuilder { system_prompt: String::from_str(prompt), ..self }
    }

    pub fn tool_registry(self, registry: ToolRegistry) -> (r: Self)
        ensures
            r@ == (AgentBuilderView { tool_registry: Some(registry@), ..self@ }),
    {
        AgentBuilder { tool_registry: Some(registry), ..self }
    }

    /// Sampling temperature in thousandths.
    pub fn temperature(self, temp: u32) -> (r: Self)
        ensures
            r@ == (AgentBuilderView { temperature: temp, ..self@ }),
    {
        AgentBuilder { temperature: temp, ..self }
    }

    /// Nucleus-sampling parameter in thousandths.
    pub fn top_p(self, top_p: u32) -> (r: Self)
        ensures
            r@ == (AgentBuilderView { top_p: top_p, ..self@ }),
    {
        AgentBuilder { top_p: top_p, ..self }
    }

    /// Succeeds exactly when the model identifier was set; everything else
    /// has a default.
    pub fn build(self) -> (r: Result<Agent, AgentError>)
        ensures
            self@.model is None <==> r is Err,
            r matches Err(e) ==> e matches AgentError::Configuration(m) && m@
                == "Model is required"@,
            r matches Ok(a) ==> self@.model == Some(a@.model) && a@.url == self@.url && a@.api_key
                == self@.api_key && a@.system_prompt == self@.system_prompt && a@.temperature
                == self@.temperature && a@.tool_registry == self@.tool_registry && a@.top_p
                == self@.top_p,
    {
        match self.model {
            Some(model) => Ok(
                Agent {
                    model: model,
                    url: self.url,
                    api_key: self.api_key,
                    system_prompt: self.system_prompt,
                    temperature: self.temperature,
                    tool_registry: self.tool_registry,
                    top_p: self.top_p,
                },
            ),
            None => Err(AgentError::Configuration(String::from_str("Model is required"))),
        }
    }
}

// ---------------------------------------------------------------------------
// Request construction
// ---------------------------------------------------------------------------

/// The system-role message carrying the agent's configured prompt.
pub open spec fn spec_system_message(prompt: Seq<char>) -> MessageView {
    MessageView {
        role: Role::SYSTEM,
        content: Some(prompt),
        multi_content: None,
        tool_calls: None,
        tool_call_id: None,
        name: None,
    }
}

/// The request an agent issues for a history: the system message first,
/// then the history unchanged; capability definitions exactly when the
/// agent carries a registry; the agent's sampling parameters; and the given
/// streaming mode.
pub open spec fn spec_prompt_request(
    a: AgentView,
    history: Seq<MessageView>,
    stream: bool,
) -> CompletionRequestView {
    CompletionRequestView {
        model: a.model,
        messages: seq![spec_system_message(a.system_prompt)] + history,
        tools: match a.tool_registry {
            Some(ts) => Some(spec_definitions(ts)),
            None => None,
        },
        temperature: a.temperature,
        top_p: Some(a.top_p),
        stream: Some(stream),
    }
}

/// For any history, the request's first message has role `system` and the
/// agent's configured prompt as content — even when the history already
/// holds a system message — and the history follows it unchanged.
pub proof fn lemma_request_prepends_system(a: AgentView, history: Seq<MessageView>, stream: bool)
    ensures
        spec_prompt_request(a, history, stream).messages.len() == history.len() + 1,
        spec_prompt_request(a, history, stream).messages[0].role == Role::SYSTEM,
        spec_prompt_request(a, history, stream).messages[0].content == Some(a.system_prompt),
        spec_prompt_request(a, history, stream).messages.drop_first() == history,
{
    assert(spec_prompt_request(a, history, stream).messages.drop_first() =~= history);
}

/// Builds the wire request for one model query.
pub fn build_prompt_request(agent: &Agent, history: &Vec<Message>, stream: bool) -> (r:
    CompletionRequest)
    ensures
        r@ == spec_prompt_request(agent@, Seq::new(history@.len(), |i: int| history@[i]@), stream),
{
    let mut messages: Vec<Message> = Vec::new();
    messages.push(
        Message {
            role: Role::SYSTEM,
            content: Some(agent.system_prompt.clone()),
            multi_content: None,
            tool_calls: None,
            tool_call_id: None,
            name: None,
        },
    );
    let mut i: usize = 0;
    while i < history.len()
        invariant
            i <= history@.len(),
            messages@.len() == i + 1,
            messages@[0]@ == spec_system_message(agent@.system_prompt),
            forall|j: int| 0 <= j < i ==> messages@[j + 1]@ == #[trigger] history@[j]@,
        decreases history@.len() - i,
    {
        messages.push(history[i].clone());
        i = i + 1;
    }
    let tools = match &agent.tool_registry {
        Some(reg) => Some(reg.get_tool_definitions()),
        None => None,
    };
    let r = CompletionRequest {
        model: agent.model.clone(),
        messages: messages,
        tools: tools,
        temperature: agent.temperature,
        top_p: Some(agent.top_p),
        stream: Some(stream),
    };
    proof {
        assert(r@.messages =~= seq![spec_system_message(agent@.system_prompt)] + Seq::new(
            history@.len(),
            |i: int| history@[i]@,
        ));
        match &agent.tool_registry {
            Some(reg) => {
                assert(r@.tools == Some(spec_definitions(reg@)));
            },
            None => {},
        }
        assert(r@ =~= spec_prompt_request(
            agent@,
            Seq::new(history@.len(), |i: int| history@[i]@),
            stream,
        ));
    }
    r
}

// ---------------------------------------------------------------------------
// Response extraction
// ---------------------------------------------------------------------------

/// What one model query yields: the first choice's text (empty when the
/// choice has no string content) and its capability invocations, if any.
pub open spec fn spec_extracted_text(resp: crate::dtos::CompletionResponseView) -> Seq<char> {
    match resp.choices[0].message.content {
        Some(c) => c,
        None => Seq::empty(),
    }
}

/// Extracts the first choice of a buffered response; a response with no
/// choices is a protocol error.
pub fn extract_prompt_result(resp: &CompletionResponse) -> (r: Result<
    (String, Option<Vec<ToolCall>>),
    AgentError,
>)
    ensures
        resp@.choices.len() == 0 <==> r is Err,
        r matches Err(e) ==> e matches AgentError::Protocol(m) && m@ == "No choices in response"@,
        r matches Ok((text, calls)) ==> text@ == spec_extracted_text(resp@) && (match calls {
            Some(cs) => resp@.choices[0].message.tool_calls == Some(
                Seq::new(cs@.len(), |i: int| cs@[i]@),
            ),
            None => resp@.choices[0].message.tool_calls is None,
        }),
{
    if resp.choices.len() == 0 {
        return Err(AgentError::Protocol(String::from_str("No choices in response")));
    }
    let first = &resp.choices[0];
    let text = match &first.message.content {
        Some(c) => c.clone(),
        None => String::new(),
    };
    let calls = match &first.message.tool_calls {
        Some(cs) => {
            let mut out: Vec<ToolCall> = Vec::new();
            let mut i: usize = 0;
            while i < cs.len()
                invariant
                    i <= cs@.len(),
                    out@.len() == i,
                    forall|j: int| 0 <= j < i ==> out@[j]@ == #[trigger] cs@[j]@,
                decreases cs@.len() - i,
            {
                out.push(cs[i].clone());
                i = i + 1;
            }
            proof {
                assert(Seq::new(out@.len(), |i: int| out@[i]@) =~= Seq::new(
                    cs@.len(),
                    |i: int| cs@[i]@,
                ));
            }
            Some(out)
        },
        None => None,
    };
    Ok((text, calls))
}

} // verus!
