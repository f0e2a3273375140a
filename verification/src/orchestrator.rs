//! The orchestration loop: a bounded state machine that resolves
//! model-requested capability calls into a final answer.
//!
//! The machine owns the per-run message history and all decisions; the
//! embedding program performs the outside work. Each transition consumes one
//! event — a model response or a capability result — and returns the next
//! action: issue a request, run a capability, or finish. Capability calls of
//! one batch are handled strictly in the order the model issued them, and
//! the history grows only by appending.
//!
//! Termination is threefold: a response with no tool calls ends the run with
//! its text (a streaming driver re-issues the request instead); a capability
//! whose callback policy is off short-circuits with its own result; a
//! drained batch that required no callback falls back to the last assistant
//! text. A fixed iteration cap bounds the number of model queries; past it
//! the run fails with an Iteration-Limit error, the circuit breaker against
//! a model that never stops requesting tools.

use vstd::prelude::*;
use crate::agents::{
    build_prompt_request, spec_prompt_request, Agent, AgentView,
};
use crate::dtos::{
    clone_tool_calls, CompletionRequest, CompletionRequestView, Message, MessageView, Role,
    ToolCall, ToolCallView,
};
use crate::errors::{AgentError, AgentErrorView};
use crate::json_decode::ov_calls;
use crate::json_parse::{is_valid_json, spec_is_valid_json};
use crate::tools_registry::spec_callback_of;

verus! {

/// The fixed cap on model queries in one run.
pub const MAX_ITERATIONS: usize = 15;

/// Where the machine stands between events.
#[derive(Clone, Copy, Debug, PartialEq, Eq, Structural)]
pub enum Phase {
    /// A request was issued; the next event is the model's response.
    AwaitingModel,
    /// A capability run was requested; the next event is its result.
    Executing,
    /// A terminal action or an error was returned.
    Finished,
}

/// How a run ends.
#[derive(Debug)]
pub enum Termination {
    /// The model answered without tool calls: the text is final. A
    /// streaming driver issues `stream_request` afresh instead of using the
    /// text.
    NoToolCalls { text: String, stream_request: CompletionRequest },
    /// A capability with callback policy off ran: its result is the final
    /// answer; remaining calls of the batch are skipped.
    ShortCircuit { result: String },
    /// The batch was drained without any callback: the last assistant text
    /// is final.
    BatchDrained { text: String },
}

/// What the embedding program must do next.
#[derive(Debug)]
pub enum LoopAction {
    /// Send this request and feed back the model's response.
    Query(CompletionRequest),
    /// Run the named capability on the given argument text and feed back
    /// its result string.
    RunTool { name: String, arguments: String },
    /// The run is over.
    Done(Termination),
}

pub ghost enum TermView {
    NoToolCalls { text: Seq<char>, stream_request: CompletionRequestView },
    ShortCircuit { result: Seq<char> },
    BatchDrained { text: Seq<char> },
}

pub ghost enum ActionView {
    Query(CompletionRequestView),
    RunTool { name: Seq<char>, arguments: Seq<char> },
    Done(TermView),
}

impl View for Termination {
    type V = TermView;

    open spec fn view(&self) -> TermView {
        match self {
            Termination::NoToolCalls { text, stream_request } => TermView::NoToolCalls {
                text: text@,
                stream_request: stream_request@,
            },
            Termination::ShortCircuit { result } => TermView::ShortCircuit { result: result@ },
            Termination::BatchDrained { text } => TermView::BatchDrained { text: text@ },
        }
    }
}

impl View for LoopAction {
    type V = ActionView;

    open spec fn view(&self) -> ActionView {
        match self {
            LoopAction::Query(req) => ActionView::Query(req@),
            LoopAction::RunTool { name, arguments } => ActionView::RunTool {
                name: name@,
                arguments: arguments@,
            },
            LoopAction::Done(t) => ActionView::Done(t@),
        }
    }
}

/// One orchestration run: configuration, the growing history, the number of
/// model queries issued, and the batch of capability calls in flight.
#[derive(Debug)]
pub struct ToolLoop {
    pub agent: Agent,
    pub history: Vec<Message>,
    pub iterations: usize,
    pub phase: Phase,
    pub batch_text: String,
    pub batch_calls: Vec<ToolCall>,
    pub batch_idx: usize,
    pub callback_seen: bool,
    pub current_callback: bool,
}

pub ghost struct ToolLoopView {
    pub agent: AgentView,
    pub history: Seq<MessageView>,
    pub iterations: int,
    pub phase: Phase,
    pub batch_text: Seq<char>,
    pub batch_calls: Seq<ToolCallView>,
    pub batch_idx: int,
    pub callback_seen: bool,
    pub current_callback: bool,
}

impl View for ToolLoop {
    type V = ToolLoopView;

    open spec fn view(&self) -> ToolLoopView {
        ToolLoopView {
            agent: self.agent@,
            history: Seq::new(self.history@.len(), |i: int| self.history@[i]@),
            iterations: self.iterations as int,
            phase: self.phase,
            batch_text: self.batch_text@,
            batch_calls: Seq::new(self.batch_calls@.len(), |i: int| self.batch_calls@[i]@),
            batch_idx: self.batch_idx as int,
            callback_seen: self.callback_seen,
            current_callback: self.current_callback,
        }
    }
}

// ---------------------------------------------------------------------------
// The transition relation, as specification
// ---------------------------------------------------------------------------

/// The assistant-role message recording the model's own turn: its text and
/// the full call list, for context continuity.
pub open spec fn spec_assistant_message(text: Seq<char>, calls: Seq<ToolCallView>) -> MessageView {
    MessageView {
        role: Role::ASSISTANT,
        content: Some(text),
        multi_content: None,
        tool_calls: Some(calls),
        tool_call_id: None,
        name: None,
    }
}

/// The tool-role message carrying one capability result, tagged with the
/// originating call id and capability name.
pub open spec fn spec_tool_message(result: Seq<char>, id: Seq<char>, name: Seq<char>) -> MessageView {
    MessageView {
        role: Role::TOOL,
        content: Some(result),
        multi_content: None,
        tool_calls: None,
        tool_call_id: Some(id),
        name: Some(name),
    }
}

/// Admission of one capability call: the name must be registered and the
/// argument text must be one well-formed JSON document. An unknown name or
/// malformed arguments abort the entire run with a Capability error.
pub open spec fn spec_begin_call(
    ts: Seq<crate::tools_registry::RegisteredToolView>,
    call: ToolCallView,
) -> Result<bool, AgentErrorView> {
    match spec_callback_of(ts, call.name) {
        Some(cb) => if spec_is_valid_json(call.arguments) {
            Ok(cb)
        } else {
            Err(AgentErrorView::Capability("Invalid tool arguments"@))
        },
        None => Err(
            AgentErrorView::Capability("Tool '"@ + call.name + "' not found"@),
        ),
    }
}

/// The registry the loop runs against.
pub open spec fn spec_registry(lp: ToolLoopView) -> Seq<crate::tools_registry::RegisteredToolView> {
    lp.agent.tool_registry->0
}

/// One step of batch processing: admit the next call, finish the batch, or
/// fail. Issues the next model query when the drained batch saw a callback,
/// unless the iteration cap is already exhausted.
pub open spec fn spec_advance(lp: ToolLoopView) -> (ToolLoopView, Result<
    ActionView,
    AgentErrorView,
>) {
    if lp.batch_idx >= lp.batch_calls.len() {
        if lp.callback_seen {
            if lp.iterations >= MAX_ITERATIONS {
                (
                    ToolLoopView { phase: Phase::Finished, ..lp },
                    Err(AgentErrorView::IterationLimit("Max iterations (15) reached"@)),
                )
            } else {
                (
                    ToolLoopView { iterations: lp.iterations + 1, phase: Phase::AwaitingModel, ..lp },
                    Ok(ActionView::Query(spec_prompt_request(lp.agent, lp.history, false))),
                )
            }
        } else {
            (
                ToolLoopView { phase: Phase::Finished, ..lp },
                Ok(ActionView::Done(TermView::BatchDrained { text: lp.batch_text })),
            )
        }
    } else {
        let call = lp.batch_calls[lp.batch_idx];
        match spec_begin_call(spec_registry(lp), call) {
            Ok(cb) => (
                ToolLoopView { current_callback: cb, ..lp },
                Ok(ActionView::RunTool { name: call.name, arguments: call.arguments }),
            ),
            Err(e) => (ToolLoopView { phase: Phase::Finished, ..lp }, Err(e)),
        }
    }
}

/// The machine's reaction to one model response.
pub open spec fn spec_on_model_response(
    lp: ToolLoopView,
    text: Seq<char>,
    tool_calls: Option<Seq<ToolCallView>>,
) -> (ToolLoopView, Result<ActionView, AgentErrorView>) {
    match tool_calls {
        None => (
            ToolLoopView { phase: Phase::Finished, ..lp },
            Ok(
                ActionView::Done(
                    TermView::NoToolCalls {
                        text: text,
                        stream_request: spec_prompt_request(lp.agent, lp.history, true),
                    },
                ),
            ),
        ),
        Some(calls) => spec_advance(
            ToolLoopView {
                history: lp.history.push(spec_assistant_message(text, calls)),
                phase: Phase::Executing,
                batch_text: text,
                batch_calls: calls,
                batch_idx: 0,
                callback_seen: false,
                current_callback: false,
                ..lp
            },
        ),
    }
}

/// The machine's reaction to one capability result.
pub open spec fn spec_on_tool_result(lp: ToolLoopView, result: Seq<char>) -> (ToolLoopView, Result<
    ActionView,
    AgentErrorView,
>) {
    if !lp.current_callback {
        (
            ToolLoopView { phase: Phase::Finished, ..lp },
            Ok(ActionView::Done(TermView::ShortCircuit { result: result })),
        )
    } else {
        let call = lp.batch_calls[lp.batch_idx];
        spec_advance(
            ToolLoopView {
                history: lp.history.push(spec_tool_message(result, call.id, call.name)),
                callback_seen: true,
                batch_idx: lp.batch_idx + 1,
                ..lp
            },
        )
    }
}

/// Whether the executable outcome is the specified one.
pub open spec fn res_matches(
    r: Result<LoopAction, AgentError>,
    out: Result<ActionView, AgentErrorView>,
) -> bool {
    match r {
        Ok(a) => out matches Ok(av) && a@ == av,
        Err(e) => out matches Err(ev) && e@ == ev,
    }
}

// ---------------------------------------------------------------------------
// The executable machine
// ---------------------------------------------------------------------------

impl ToolLoop {
    /// Begins a run: fails with a configuration error when the agent
    /// carries no capability registry, otherwise issues the first request.
    pub fn start(agent: Agent, history: Vec<Message>) -> (r: Result<
        (ToolLoop, CompletionRequest),
        AgentError,
    >)
        ensures
            agent@.tool_registry is None <==> r is Err,
            r matches Err(e) ==> e@ == AgentErrorView::Configuration("No tool registry"@),
            r matches Ok((lp, req)) ==> lp@ == (ToolLoopView {
                agent: agent@,
                history: Seq::new(history@.len(), |i: int| history@[i]@),
                iterations: 1,
                phase: Phase::AwaitingModel,
                batch_text: Seq::<char>::empty(),
                batch_calls: Seq::<ToolCallView>::empty(),
                batch_idx: 0,
                callback_seen: false,
                current_callback: false,
            }) && req@ == spec_prompt_request(
                agent@,
                Seq::new(history@.len(), |i: int| history@[i]@),
                false,
            ),
    {
        if agent.tool_registry.is_none() {
            return Err(AgentError::Configuration(String::from_str("No tool registry")));
        }
        let req = build_prompt_request(&agent, &history, false);
        let lp = ToolLoop {
            agent: agent,
            history: history,
            iterations: 1,
            phase: Phase::AwaitingModel,
            batch_text: String::new(),
            batch_calls: Vec::new(),
            batch_idx: 0,
            callback_seen: false,
            current_callback: false,
        };
        proof {
            assert(Seq::new(lp.batch_calls@.len(), |i: int| lp.batch_calls@[i]@)
                =~= Seq::<ToolCallView>::empty());
        }
        Ok((lp, req))
    }

    /// One step of batch processing, after the batch fields were updated.
    fn advance(&mut self) -> (r: Result<LoopAction, AgentError>)
        requires
            old(self)@.agent.tool_registry is Some,
        ensures
            final(self)@ == spec_advance(old(self)@).0,
            res_matches(r, spec_advance(old(self)@).1),
            final(self)@.agent == old(self)@.agent,
            final(self)@.history == old(self)@.history,
    {
        if self.batch_idx >= self.batch_calls.len() {
            if self.callback_seen {
                if self.iterations >= MAX_ITERATIONS {
                    self.phase = Phase::Finished;
                    Err(
                        AgentError::IterationLimit(
                            String::from_str("Max iterations (15) reached"),
                        ),
                    )
                } else {
                    self.iterations = self.iterations + 1;
                    self.phase = Phase::AwaitingModel;
                    let req = build_prompt_request(&self.agent, &self.history, false);
                    Ok(LoopAction::Query(req))
                }
            } else {
                self.phase = Phase::Finished;
                Ok(LoopAction::Done(Termination::BatchDrained { text: self.batch_text.clone() }))
            }
        } else {
            let name = self.batch_calls[self.batch_idx].function.name.clone();
            let arguments = self.batch_calls[self.batch_idx].function.arguments.clone();
            let cb_res = match &self.agent.tool_registry {
                Some(reg) => reg.check_tool_callback(name.as_str()),
                None => Err(AgentError::Configuration(String::from_str("No tool registry"))),
            };
            match cb_res {
                Ok(cb) => {
                    if is_valid_json(arguments.as_str()) {
                        self.current_callback = cb;
                        Ok(LoopAction::RunTool { name: name, arguments: arguments })
                    } else {
                        self.phase = Phase::Finished;
                        Err(AgentError::Capability(String::from_str("Invalid tool arguments")))
                    }
                },
                Err(e) => {
                    self.phase = Phase::Finished;
                    Err(e)
                },
            }
        }
    }

    /// Feeds the model's response into the machine: either the run is over
    /// (no tool calls), or the assistant turn is recorded and the first
    /// call of the batch is admitted.
    pub fn on_model_response(&mut self, text: String, tool_calls: Option<Vec<ToolCall>>) -> (r:
        Result<LoopAction, AgentError>)
        requires
            old(self)@.phase == Phase::AwaitingModel,
            old(self)@.agent.tool_registry is Some,
        ensures
            final(self)@ == spec_on_model_response(old(self)@, text@, ov_calls(tool_calls)).0,
            res_matches(r, spec_on_model_response(old(self)@, text@, ov_calls(tool_calls)).1),
    {
        match tool_calls {
            None => {
                self.phase = Phase::Finished;
                let req = build_prompt_request(&self.agent, &self.history, true);
                Ok(
                    LoopAction::Done(
                        Termination::NoToolCalls { text: text, stream_request: req },
                    ),
                )
            },
            Some(calls) => {
                let recorded = clone_tool_calls(&calls);
                let msg = Message {
                    role: Role::ASSISTANT,
                    content: Some(text.clone()),
                    multi_content: None,
                    tool_calls: Some(recorded),
                    tool_call_id: None,
                    name: None,
                };
                proof {
                    assert(msg@ == spec_assistant_message(
                        text@,
                        Seq::new(calls@.len(), |i: int| calls@[i]@),
                    )) by {
                        assert(msg@.tool_calls matches Some(ts) && ts =~= Seq::new(
                            calls@.len(),
                            |i: int| calls@[i]@,
                        ));
                    }
                }
                self.history.push(msg);
                self.batch_text = text;
                self.batch_calls = calls;
                self.batch_idx = 0;
                self.callback_seen = false;
                self.current_callback = false;
                self.phase = Phase::Executing;
                proof {
                    assert(Seq::new(self.history@.len(), |i: int| self.history@[i]@) =~= Seq::new(
                        old(self).history@.len(),
                        |i: int| old(self).history@[i]@,
                    ).push(spec_assistant_message(
                        text@,
                        Seq::new(self.batch_calls@.len(), |i: int| self.batch_calls@[i]@),
                    )));
                }
                self.advance()
            },
        }
    }

    /// Feeds one capability result into the machine: a non-callback
    /// capability short-circuits the whole run with this result; otherwise
    /// the tool turn is recorded and the next call of the batch is
    /// admitted.
    pub fn on_tool_result(&mut self, result: String) -> (r: Result<LoopAction, AgentError>)
        requires
            old(self)@.phase == Phase::Executing,
            0 <= old(self)@.batch_idx < old(self)@.batch_calls.len(),
            old(self)@.agent.tool_registry is Some,
        ensures
            final(self)@ == spec_on_tool_result(old(self)@, result@).0,
            res_matches(r, spec_on_tool_result(old(self)@, result@).1),
    {
        if !self.current_callback {
            self.phase = Phase::Finished;
            Ok(LoopAction::Done(Termination::ShortCircuit { result: result }))
        } else {
            let id = self.batch_calls[self.batch_idx].id.clone();
            let name = self.batch_calls[self.batch_idx].function.name.clone();
            let msg = Message {
                role: Role::TOOL,
                content: Some(result),
                multi_content: None,
                tool_calls: None,
                tool_call_id: Some(id),
                name: Some(name),
            };
            self.history.push(msg);
            self.callback_seen = true;
            let n = self.batch_calls.len();
            proof {
                assert(self.batch_idx < n);
            }
            self.batch_idx = self.batch_idx + 1;
            proof {
                let call = old(self)@.batch_calls[old(self)@.batch_idx];
                assert(Seq::new(self.history@.len(), |i: int| self.history@[i]@) =~= old(
                    self,
                )@.history.push(spec_tool_message(result@, call.id, call.name)));
            }
            self.advance()
        }
    }
}

// ---------------------------------------------------------------------------
// Laws of the transition relation
// ---------------------------------------------------------------------------

/// A model response without tool calls is terminal: the machine finishes
/// with exactly that text, issues no further query, and leaves the history
/// unchanged. The terminal action carries the request a streaming driver
/// re-issues afresh.
pub proof fn lemma_no_tool_calls_terminal(lp: ToolLoopView, text: Seq<char>)
    ensures
        spec_on_model_response(lp, text, None).1 == Ok::<ActionView, AgentErrorView>(
            ActionView::Done(
                TermView::NoToolCalls {
                    text: text,
                    stream_request: spec_prompt_request(lp.agent, lp.history, true),
                },
            ),
        ),
        spec_on_model_response(lp, text, None).0.phase == Phase::Finished,
        spec_on_model_response(lp, text, None).0.history == lp.history,
        spec_on_model_response(lp, text, None).0.iterations == lp.iterations,
{
}

/// A capability whose callback policy is off short-circuits: the run
/// finishes with exactly that capability's result, no further capability of
/// the batch is admitted, and no tool-role message is appended.
pub proof fn lemma_short_circuit_terminal(lp: ToolLoopView, result: Seq<char>)
    requires
        !lp.current_callback,
    ensures
        spec_on_tool_result(lp, result).1 == Ok::<ActionView, AgentErrorView>(
            ActionView::Done(TermView::ShortCircuit { result: result }),
        ),
        spec_on_tool_result(lp, result).0.phase == Phase::Finished,
        spec_on_tool_result(lp, result).0.history == lp.history,
{
}

/// When the iteration cap is already exhausted and a drained batch asks for
/// another turn, the run fails with an Iteration-Limit error instead of
/// issuing one more query.
pub proof fn lemma_iteration_limit(lp: ToolLoopView, result: Seq<char>)
    requires
        lp.current_callback,
        lp.batch_idx == lp.batch_calls.len() - 1,
        lp.callback_seen || lp.current_callback,
        lp.iterations >= MAX_ITERATIONS,
    ensures
        spec_on_tool_result(lp, result).1 matches Err(e) && e matches AgentErrorView::IterationLimit(
            _,
        ),
        spec_on_tool_result(lp, result).0.phase == Phase::Finished,
{
}

/// Requesting an unregistered capability fails the whole run with a
/// Capability error and appends no tool-result message to the history.
pub proof fn lemma_unknown_capability(lp: ToolLoopView)
    requires
        0 <= lp.batch_idx < lp.batch_calls.len(),
        spec_callback_of(spec_registry(lp), lp.batch_calls[lp.batch_idx].name) is None,
    ensures
        spec_advance(lp).1 matches Err(e) && e == AgentErrorView::Capability(
            "Tool '"@ + lp.batch_calls[lp.batch_idx].name + "' not found"@,
        ),
        spec_advance(lp).0.history == lp.history,
        spec_advance(lp).0.phase == Phase::Finished,
{
}

/// The history only ever grows by appending: every transition leaves the
/// old history as a prefix of the new one.
pub proof fn lemma_history_append_only(
    lp: ToolLoopView,
    text: Seq<char>,
    tool_calls: Option<Seq<ToolCallView>>,
    result: Seq<char>,
)
    ensures
        lp.history.is_prefix_of(spec_on_model_response(lp, text, tool_calls).0.history),
        lp.history.is_prefix_of(spec_on_tool_result(lp, result).0.history),
{
    match tool_calls {
        None => {},
        Some(calls) => {
            assert(lp.history.is_prefix_of(
                lp.history.push(spec_assistant_message(text, calls)),
            ));
        },
    }
    if lp.current_callback {
        let call = lp.batch_calls[lp.batch_idx];
        assert(lp.history.is_prefix_of(
            lp.history.push(spec_tool_message(result, call.id, call.name)),
        ));
    }
}

/// The iteration count never passes the cap, and only a fresh model query
/// raises it.
pub proof fn lemma_iterations_bounded(
    lp: ToolLoopView,
    text: Seq<char>,
    tool_calls: Option<Seq<ToolCallView>>,
    result: Seq<char>,
)
    requires
        lp.iterations <= MAX_ITERATIONS,
    ensures
        spec_on_model_response(lp, text, tool_calls).0.iterations <= MAX_ITERATIONS,
        spec_on_tool_result(lp, result).0.iterations <= MAX_ITERATIONS,
{
}

} // verus!
