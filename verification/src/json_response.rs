//! Decoding of completion responses, streaming frames and capability
//! definitions from JSON wire text.
//!
//! The same conventions hold as for message decoding: members in any order,
//! unknown members skipped, duplicates rejected, required members enforced.
//! The parameter schema of a capability definition is captured as raw JSON
//! text, exactly as it stands in the document.

use vstd::prelude::*;
use crate::dtos::{
    CompletionChoice, CompletionChoiceView, CompletionResponse, CompletionResponseView,
    CompletionStreamResponse, CompletionStreamResponseView, FunctionDefinition, Message,
    MessageView, Role, StreamChoice, StreamChoiceView, StreamChunkMessage, StreamChunkMessageView,
    Tool, ToolView,
};
use crate::json_decode::{
    ov_str, spec_parse_message, spec_parse_role, parse_message, parse_role,
};
use crate::json_parse::{
    spec_parse_string, spec_parse_u64, spec_skip_value, spec_skip_ws, spec_try_null, parse_string,
    parse_u64, skip_value, skip_ws, try_null,
};
use crate::text::{push_char, str_eq};

verus! {

// ---------------------------------------------------------------------------
// Buffered-response choices
// ---------------------------------------------------------------------------

pub ghost struct ChoicePartial {
    pub index: Option<u32>,
    pub message: Option<MessageView>,
}

pub struct ChoicePartialExec {
    pub index: Option<u32>,
    pub message: Option<Message>,
}

impl View for ChoicePartialExec {
    type V = ChoicePartial;

    open spec fn view(&self) -> ChoicePartial {
        ChoicePartial {
            index: self.index,
            message: match self.message {
                Some(m) => Some(m@),
                None => None,
            },
        }
    }
}

/// An `index` member: an unsigned integer within `u32`.
pub open spec fn spec_parse_index(s: Seq<char>, i: int) -> Option<(u32, int)> {
    match spec_parse_u64(s, i) {
        Some((v, j)) => if v <= u32::MAX {
            Some((v as u32, j))
        } else {
            None
        },
        None => None,
    }
}

pub fn parse_index(s: &Vec<char>, i: usize) -> (r: Option<(u32, usize)>)
    requires
        i <= s@.len(),
    ensures
        r matches Some((v, j)) ==> spec_parse_index(s@, i as int) == Some((v, j as int)) && i < j
            <= s@.len(),
        r is None ==> spec_parse_index(s@, i as int) is None,
{
    match parse_u64(s, i) {
        Some((v, j)) => {
            if v <= u32::MAX as u64 {
                Some((v as u32, j))
            } else {
                None
            }
        },
        None => None,
    }
}

/// A finished choice requires `index` and `message`.
pub open spec fn spec_choice_finalize(acc: ChoicePartial) -> Option<CompletionChoiceView> {
    match (acc.index, acc.message) {
        (Some(ix), Some(m)) => Some(CompletionChoiceView { index: ix, message: m }),
        _ => None,
    }
}

/// Members of one buffered-response choice.
pub open spec fn spec_parse_choice_fields(s: Seq<char>, i: int, acc: ChoicePartial) -> Option<
    (CompletionChoiceView, int),
>
    decreases s.len() - i,
{
    match spec_parse_string(s, i) {
        Some((key, p)) => {
            let q = spec_skip_ws(s, p);
            if q < s.len() && s[q] == ':' {
                let r2 = spec_skip_ws(s, q + 1);
                let stepped = if key == "index"@ {
                    if acc.index is Some {
                        None
                    } else {
                        match spec_parse_index(s, r2) {
                            Some((ix, p2)) => Some((ChoicePartial { index: Some(ix), ..acc }, p2)),
                            None => None,
                        }
                    }
                } else if key == "message"@ {
                    if acc.message is Some {
                        None
                    } else {
                        match spec_parse_message(s, r2) {
                            Some((m, p2)) => Some((ChoicePartial { message: Some(m), ..acc }, p2)),
                            None => None,
                        }
                    }
                } else {
                    match spec_skip_value(s, r2) {
                        Some(p2) => Some((acc, p2)),
                        None => None,
                    }
                };
                match stepped {
                    Some((acc2, p2)) => {
                        let q2 = spec_skip_ws(s, p2);
                        if q2 < s.len() {
                            if s[q2] == '}' {
                                match spec_choice_finalize(acc2) {
                                    Some(c) => Some((c, q2 + 1)),
                                    None => None,
                                }
                            } else if s[q2] == ',' {
                                let r3 = spec_skip_ws(s, q2 + 1);
                                if i < r3 && r3 <= s.len() {
                                    spec_parse_choice_fields(s, r3, acc2)
                                } else {
                                    None
                                }
                            } else {
                                None
                            }
                        } else {
                            None
                        }
                    },
                    None => None,
                }
            } else {
                None
            }
        },
        None => None,
    }
}

/// One choice object at `i`.
pub open spec fn spec_parse_choice(s: Seq<char>, i: int) -> Option<(CompletionChoiceView, int)> {
    if 0 <= i && i < s.len() && s[i] == '{' {
        let j = spec_skip_ws(s, i + 1);
        if j < s.len() {
            if s[j] == '}' {
                None
            } else {
                spec_parse_choice_fields(s, j, ChoicePartial { index: None, message: None })
            }
        } else {
            None
        }
    } else {
        None
    }
}

fn parse_choice_fields(s: &Vec<char>, i: usize, acc: ChoicePartialExec) -> (r: Option<
    (CompletionChoice, usize),
>)
    requires
        i <= s@.len(),
    ensures
        r matches Some((c, j)) ==> spec_parse_choice_fields(s@, i as int, acc@) == Some(
            (c@, j as int),
        ) && i < j <= s@.len(),
        r is None ==> spec_parse_choice_fields(s@, i as int, acc@) is None,
    decreases s@.len() - i,
{
    match parse_string(s, i) {
        Some((key, p)) => {
            let q = skip_ws(s, p);
            if q < s.len() && s[q] == ':' {
                let r2 = skip_ws(s, q + 1);
                let stepped: Option<(ChoicePartialExec, usize)> = if str_eq(key.as_str(), "index") {
                    if acc.index.is_some() {
                        None
                    } else {
                        match parse_index(s, r2) {
                            Some((ix, p2)) => Some(
                                (ChoicePartialExec { index: Some(ix), ..acc }, p2),
                            ),
                            None => None,
                        }
                    }
                } else if str_eq(key.as_str(), "message") {
                    if acc.message.is_some() {
                        None
                    } else {
                        match parse_message(s, r2) {
                            Some((m, p2)) => Some(
                                (ChoicePartialExec { message: Some(m), ..acc }, p2),
                            ),
                            None => None,
                        }
                    }
                } else {
                    match skip_value(s, r2) {
                        Some(p2) => Some((acc, p2)),
                        None => None,
                    }
                };
                match stepped {
                    Some((acc2, p2)) => {
                        let q2 = skip_ws(s, p2);
                        if q2 < s.len() {
                            if s[q2] == '}' {
                                match (acc2.index, acc2.message) {
                                    (Some(ix), Some(m)) => Some(
                                        (CompletionChoice { index: ix, message: m }, q2 + 1),
                                    ),
                                    _ => None,
                                }
                            } else if s[q2] == ',' {
                                let r3 = skip_ws(s, q2 + 1);
                                parse_choice_fields(s, r3, acc2)
                            } else {
                                None
                            }
                        } else {
                            None
                        }
                    },
                    None => None,
                }
            } else {
                None
            }
        },
        None => None,
    }
}

/// One choice object at `i`.
pub fn parse_choice(s: &Vec<char>, i: usize) -> (r: Option<(CompletionChoice, usize)>)
    requires
        i <= s@.len(),
    ensures
        r matches Some((c, j)) ==> spec_parse_choice(s@, i as int) == Some((c@, j as int)) && i
            < j <= s@.len(),
        r is None ==> spec_parse_choice(s@, i as int) is None,
{
    if i < s.len() && s[i] == '{' {
        let j = skip_ws(s, i + 1);
        if j < s.len() {
            if s[j] == '}' {
                None
            } else {
                parse_choice_fields(s, j, ChoicePartialExec { index: None, message: None })
            }
        } else {
            None
        }
    } else {
        None
    }
}

/// The choices of an array whose first item starts at `i`.
pub open spec fn spec_parse_choice_items(s: Seq<char>, i: int) -> Option<
    (Seq<CompletionChoiceView>, int),
>
    decreases s.len() - i,
{
    match spec_parse_choice(s, i) {
        Some((c, p)) => {
            let q = spec_skip_ws(s, p);
            if i < q && q < s.len() {
                if s[q] == ']' {
                    Some((seq![c], q + 1))
                } else if s[q] == ',' {
                    let r2 = spec_skip_ws(s, q + 1);
                    if i < r2 && r2 <= s.len() {
                        match spec_parse_choice_items(s, r2) {
                            Some((rest, e)) => Some((seq![c] + rest, e)),
                            None => None,
                        }
                    } else {
                        None
                    }
                } else {
                    None
                }
            } else {
                None
            }
        },
        None => None,
    }
}

/// The choices of an array whose first item starts at `i`.
pub fn parse_choice_items(s: &Vec<char>, i: usize) -> (r: Option<(Vec<CompletionChoice>, usize)>)
    requires
        i <= s@.len(),
    ensures
        r matches Some((cs, j)) ==> spec_parse_choice_items(s@, i as int) == Some(
            (Seq::new(cs@.len(), |k: int| cs@[k]@), j as int),
        ) && i < j <= s@.len(),
        r is None ==> spec_parse_choice_items(s@, i as int) is None,
    decreases s@.len() - i,
{
    match parse_choice(s, i) {
        Some((c, p)) => {
            let q = skip_ws(s, p);
            if q < s.len() {
                if s[q] == ']' {
                    let mut out: Vec<CompletionChoice> = Vec::new();
                    out.push(c);
                    proof {
                        assert(Seq::new(out@.len(), |k: int| out@[k]@) =~= seq![c@]);
                    }
                    Some((out, q + 1))
                } else if s[q] == ',' {
                    let r2 = skip_ws(s, q + 1);
                    match parse_choice_items(s, r2) {
                        Some((rest, e)) => {
                            let ghost rv = rest@;
                            let mut out = rest;
                            out.insert(0, c);
                            proof {
                                assert(out@ =~= seq![c] + rv);
                                assert(Seq::new(out@.len(), |k: int| out@[k]@) =~= seq![c@]
                                    + Seq::new(rv.len(), |k: int| rv[k]@));
                            }
                            Some((out, e))
                        },
                        None => None,
                    }
                } else {
                    None
                }
            } else {
                None
            }
        },
        None => None,
    }
}

// ---------------------------------------------------------------------------
// Buffered responses
// ---------------------------------------------------------------------------

pub ghost struct ResponsePartial {
    pub id: Option<Seq<char>>,
    pub created: Option<u64>,
    pub model: Option<Seq<char>>,
    pub choices: Option<Seq<CompletionChoiceView>>,
}

pub struct ResponsePartialExec {
    pub id: Option<String>,
    pub created: Option<u64>,
    pub model: Option<String>,
    pub choices: Option<Vec<CompletionChoice>>,
}

impl View for ResponsePartialExec {
    type V = ResponsePartial;

    open spec fn view(&self) -> ResponsePartial {
        ResponsePartial {
            id: ov_str(self.id),
            created: self.created,
            model: ov_str(self.model),
            choices: match self.choices {
                Some(v) => Some(Seq::new(v@.len(), |k: int| v@[k]@)),
                None => None,
            },
        }
    }
}

/// A finished response requires `id`, `created`, `model` and `choices`.
pub open spec fn spec_response_finalize(acc: ResponsePartial) -> Option<CompletionResponseView> {
    match (acc.id, acc.created, acc.model, acc.choices) {
        (Some(id), Some(created), Some(model), Some(choices)) => Some(
            CompletionResponseView { id: id, created: created, model: model, choices: choices },
        ),
        _ => None,
    }
}

/// A `choices` member: an array of choice objects, possibly empty.
pub open spec fn spec_parse_choices_value(s: Seq<char>, i: int) -> Option<
    (Seq<CompletionChoiceView>, int),
> {
    if 0 <= i && i < s.len() && s[i] == '[' {
        let j2 = spec_skip_ws(s, i + 1);
        if j2 < s.len() {
            if s[j2] == ']' {
                Some((Seq::empty(), j2 + 1))
            } else {
                spec_parse_choice_items(s, j2)
            }
        } else {
            None
        }
    } else {
        None
    }
}

pub fn parse_choices_value(s: &Vec<char>, i: usize) -> (r: Option<(Vec<CompletionChoice>, usize)>)
    requires
        i <= s@.len(),
    ensures
        r matches Some((cs, j)) ==> spec_parse_choices_value(s@, i as int) == Some(
            (Seq::new(cs@.len(), |k: int| cs@[k]@), j as int),
        ) && i < j <= s@.len(),
        r is None ==> spec_parse_choices_value(s@, i as int) is None,
{
    if i < s.len() && s[i] == '[' {
        let j2 = skip_ws(s, i + 1);
        if j2 < s.len() {
            if s[j2] == ']' {
                let empty: Vec<CompletionChoice> = Vec::new();
                proof {
                    assert(Seq::new(empty@.len(), |k: int| empty@[k]@)
                        =~= Seq::<CompletionChoiceView>::empty());
                }
                Some((empty, j2 + 1))
            } else {
                parse_choice_items(s, j2)
            }
        } else {
            None
        }
    } else {
        None
    }
}

/// Members of a buffered response object.
pub open spec fn spec_parse_response_fields(s: Seq<char>, i: int, acc: ResponsePartial) -> Option<
    (CompletionResponseView, int),
>
    decreases s.len() - i,
{
    match spec_parse_string(s, i) {
        Some((key, p)) => {
            let q = spec_skip_ws(s, p);
            if q < s.len() && s[q] == ':' {
                let r2 = spec_skip_ws(s, q + 1);
                let stepped = if key == "id"@ {
                    if acc.id is Some {
                        None
                    } else {
                        match spec_parse_string(s, r2) {
                            Some((t, p2)) => Some((ResponsePartial { id: Some(t), ..acc }, p2)),
                            None => None,
                        }
                    }
                } else if key == "created"@ {
                    if acc.created is Some {
                        None
                    } else {
                        match spec_parse_u64(s, r2) {
                            Some((v, p2)) => Some((ResponsePartial { created: Some(v), ..acc }, p2)),
                            None => None,
                        }
                    }
                } else if key == "model"@ {
                    if acc.model is Some {
                        None
                    } else {
                        match spec_parse_string(s, r2) {
                            Some((t, p2)) => Some((ResponsePartial { model: Some(t), ..acc }, p2)),
                            None => None,
                        }
                    }
                } else if key == "choices"@ {
                    if acc.choices is Some {
                        None
                    } else {
                        match spec_parse_choices_value(s, r2) {
                            Some((cs, p2)) => Some((ResponsePartial { choices: Some(cs), ..acc }, p2)),
                            None => None,
                        }
                    }
                } else {
                    match spec_skip_value(s, r2) {
                        Some(p2) => Some((acc, p2)),
                        None => None,
                    }
                };
                match stepped {
                    Some((acc2, p2)) => {
                        let q2 = spec_skip_ws(s, p2);
                        if q2 < s.len() {
                            if s[q2] == '}' {
                                match spec_response_finalize(acc2) {
                                    Some(resp) => Some((resp, q2 + 1)),
                                    None => None,
                                }
                            } else if s[q2] == ',' {
                                let r3 = spec_skip_ws(s, q2 + 1);
                                if i < r3 && r3 <= s.len() {
                                    spec_parse_response_fields(s, r3, acc2)
                                } else {
                                    None
                                }
                            } else {
                                None
                            }
                        } else {
                            None
                        }
                    },
                    None => None,
                }
            } else {
                None
            }
        },
        None => None,
    }
}

/// One buffered response object at `i`.
pub open spec fn spec_parse_response(s: Seq<char>, i: int) -> Option<(CompletionResponseView, int)> {
    if 0 <= i && i < s.len() && s[i] == '{' {
        let j = spec_skip_ws(s, i + 1);
        if j < s.len() {
            if s[j] == '}' {
                None
            } else {
                spec_parse_response_fields(
                    s,
                    j,
                    ResponsePartial { id: None, created: None, model: None, choices: None },
                )
            }
        } else {
            None
        }
    } else {
        None
    }
}

/// A buffered response as a whole document.
pub open spec fn spec_parse_response_doc(s: Seq<char>) -> Option<CompletionResponseView> {
    let i = spec_skip_ws(s, 0);
    match spec_parse_response(s, i) {
        Some((resp, p)) => if spec_skip_ws(s, p) == s.len() {
            Some(resp)
        } else {
            None
        },
        None => None,
    }
}

fn parse_response_fields(s: &Vec<char>, i: usize, acc: ResponsePartialExec) -> (r: Option<
    (CompletionResponse, usize),
>)
    requires
        i <= s@.len(),
    ensures
        r matches Some((resp, j)) ==> spec_parse_response_fields(s@, i as int, acc@) == Some(
            (resp@, j as int),
        ) && i < j <= s@.len(),
        r is None ==> spec_parse_response_fields(s@, i as int, acc@) is None,
    decreases s@.len() - i,
{
    match parse_string(s, i) {
        Some((key, p)) => {
            let q = skip_ws(s, p);
            if q < s.len() && s[q] == ':' {
                let r2 = skip_ws(s, q + 1);
                let stepped: Option<(ResponsePartialExec, usize)> = if str_eq(key.as_str(), "id") {
                    if acc.id.is_some() {
                        None
                    } else {
                        match parse_string(s, r2) {
                            Some((t, p2)) => Some((ResponsePartialExec { id: Some(t), ..acc }, p2)),
                            None => None,
                        }
                    }
                } else if str_eq(key.as_str(), "created") {
                    if acc.created.is_some() {
                        None
                    } else {
                        match parse_u64(s, r2) {
                            Some((v, p2)) => Some(
                                (ResponsePartialExec { created: Some(v), ..acc }, p2),
                            ),
                            None => None,
                        }
                    }
                } else if str_eq(key.as_str(), "model") {
                    if acc.model.is_some() {
                        None
                    } else {
                        match parse_string(s, r2) {
                            Some((t, p2)) => Some(
                                (ResponsePartialExec { model: Some(t), ..acc }, p2),
                            ),
                            None => None,
                        }
                    }
                } else if str_eq(key.as_str(), "choices") {
                    if acc.choices.is_some() {
                        None
                    } else {
                        match parse_choices_value(s, r2) {
                            Some((cs, p2)) => Some(
                                (ResponsePartialExec { choices: Some(cs), ..acc }, p2),
                            ),
                            None => None,
                        }
                    }
                } else {
                    match skip_value(s, r2) {
                        Some(p2) => Some((acc, p2)),
                        None => None,
                    }
                };
                match stepped {
                    Some((acc2, p2)) => {
                        let q2 = skip_ws(s, p2);
                        if q2 < s.len() {
                            if s[q2] == '}' {
                                match (acc2.id, acc2.created, acc2.model, acc2.choices) {
                                    (Some(id), Some(created), Some(model), Some(choices)) => Some(
                                        (
                                            CompletionResponse {
                                                id: id,
                                                created: created,
                                                model: model,
                                                choices: choices,
                                            },
                                            q2 + 1,
                                        ),
                                    ),
                                    _ => None,
                                }
                            } else if s[q2] == ',' {
                                let r3 = skip_ws(s, q2 + 1);
                                parse_response_fields(s, r3, acc2)
                            } else {
                                None
                            }
                        } else {
                            None
                        }
                    },
                    None => None,
                }
            } else {
                None
            }
        },
        None => None,
    }
}

/// A buffered response as a whole document.
pub fn response_from_json(s: &str) -> (r: Option<CompletionResponse>)
    ensures
        r matches Some(resp) ==> spec_parse_response_doc(s@) == Some(resp@),
        r is None ==> spec_parse_response_doc(s@) is None,
{
    let chars = crate::text::string_to_chars(s);
    let i = skip_ws(&chars, 0);
    let parsed = if i < chars.len() && chars[i] == '{' {
        let j = skip_ws(&chars, i + 1);
        if j < chars.len() {
            if chars[j] == '}' {
                None
            } else {
                parse_response_fields(
                    &chars,
                    j,
                    ResponsePartialExec { id: None, created: None, model: None, choices: None },
                )
            }
        } else {
            None
        }
    } else {
        None
    };
    match parsed {
        Some((resp, p)) => {
            let e = skip_ws(&chars, p);
            if e == chars.len() {
                Some(resp)
            } else {
                None
            }
        },
        None => None,
    }
}

// ---------------------------------------------------------------------------
// Streaming frames
// ---------------------------------------------------------------------------

pub ghost struct DeltaPartial {
    pub role: Option<Role>,
    pub content: Option<Seq<char>>,
}

pub struct DeltaPartialExec {
    pub role: Option<Role>,
    pub content: Option<String>,
}

impl View for DeltaPartialExec {
    type V = DeltaPartial;

    open spec fn view(&self) -> DeltaPartial {
        DeltaPartial { role: self.role, content: ov_str(self.content) }
    }
}

pub open spec fn spec_delta_of(acc: DeltaPartial) -> StreamChunkMessageView {
    StreamChunkMessageView { role: acc.role, content: acc.content }
}

/// Members of an incremental delta; both members are optional, so the empty
/// object is a valid role-less, content-less delta.
pub open spec fn spec_parse_delta_fields(s: Seq<char>, i: int, acc: DeltaPartial) -> Option<
    (StreamChunkMessageView, int),
>
    decreases s.len() - i,
{
    match spec_parse_string(s, i) {
        Some((key, p)) => {
            let q = spec_skip_ws(s, p);
            if q < s.len() && s[q] == ':' {
                let r2 = spec_skip_ws(s, q + 1);
                let stepped = if key == "role"@ {
                    if acc.role is Some {
                        None
                    } else {
                        match spec_try_null(s, r2) {
                            Some(p2) => Some((acc, p2)),
                            None => match spec_parse_role(s, r2) {
                                Some((role, p2)) => Some((DeltaPartial { role: Some(role), ..acc }, p2)),
                                None => None,
                            },
                        }
                    }
                } else if key == "content"@ {
                    if acc.content is Some {
                        None
                    } else {
                        match spec_try_null(s, r2) {
                            Some(p2) => Some((acc, p2)),
                            None => match spec_parse_string(s, r2) {
                                Some((t, p2)) => Some((DeltaPartial { content: Some(t), ..acc }, p2)),
                                None => None,
                            },
                        }
                    }
                } else {
                    match spec_skip_value(s, r2) {
                        Some(p2) => Some((acc, p2)),
                        None => None,
                    }
                };
                match stepped {
                    Some((acc2, p2)) => {
                        let q2 = spec_skip_ws(s, p2);
                        if q2 < s.len() {
                            if s[q2] == '}' {
                                Some((spec_delta_of(acc2), q2 + 1))
                            } else if s[q2] == ',' {
                                let r3 = spec_skip_ws(s, q2 + 1);
                                if i < r3 && r3 <= s.len() {
                                    spec_parse_delta_fields(s, r3, acc2)
                                } else {
                                    None
                                }
                            } else {
                                None
                            }
                        } else {
                            None
                        }
                    },
                    None => None,
                }
            } else {
                None
            }
        },
        None => None,
    }
}

/// One delta object at `i`; the empty object is valid.
pub open spec fn spec_parse_delta(s: Seq<char>, i: int) -> Option<(StreamChunkMessageView, int)> {
    if 0 <= i && i < s.len() && s[i] == '{' {
        let j = spec_skip_ws(s, i + 1);
        if j < s.len() {
            if s[j] == '}' {
                Some((StreamChunkMessageView { role: None, content: None }, j + 1))
            } else {
                spec_parse_delta_fields(s, j, DeltaPartial { role: None, content: None })
            }
        } else {
            None
        }
    } else {
        None
    }
}

fn parse_delta_fields(s: &Vec<char>, i: usize, acc: DeltaPartialExec) -> (r: Option<
    (StreamChunkMessage, usize),
>)
    requires
        i <= s@.len(),
    ensures
        r matches Some((d, j)) ==> spec_parse_delta_fields(s@, i as int, acc@) == Some(
            (d@, j as int),
        ) && i < j <= s@.len(),
        r is None ==> spec_parse_delta_fields(s@, i as int, acc@) is None,
    decreases s@.len() - i,
{
    match parse_string(s, i) {
        Some((key, p)) => {
            let q = skip_ws(s, p);
            if q < s.len() && s[q] == ':' {
                let r2 = skip_ws(s, q + 1);
                let stepped: Option<(DeltaPartialExec, usize)> = if str_eq(key.as_str(), "role") {
                    if acc.role.is_some() {
                        None
                    } else {
                        match try_null(s, r2) {
                            Some(p2) => Some((acc, p2)),
                            None => match parse_role(s, r2) {
                                Some((role, p2)) => Some(
                                    (DeltaPartialExec { role: Some(role), ..acc }, p2),
                                ),
                                None => None,
                            },
                        }
                    }
                } else if str_eq(key.as_str(), "content") {
                    if acc.content.is_some() {
                        None
                    } else {
                        match try_null(s, r2) {
                            Some(p2) => Some((acc, p2)),
                            None => match parse_string(s, r2) {
                                Some((t, p2)) => Some(
                                    (DeltaPartialExec { content: Some(t), ..acc }, p2),
                                ),
                                None => None,
                            },
                        }
                    }
                } else {
                    match skip_value(s, r2) {
                        Some(p2) => Some((acc, p2)),
                        None => None,
                    }
                };
                match stepped {
                    Some((acc2, p2)) => {
                        let q2 = skip_ws(s, p2);
                        if q2 < s.len() {
                            if s[q2] == '}' {
                                Some(
                                    (
                                        StreamChunkMessage { role: acc2.role, content: acc2.content },
                                        q2 + 1,
                                    ),
                                )
                            } else if s[q2] == ',' {
                                let r3 = skip_ws(s, q2 + 1);
                                parse_delta_fields(s, r3, acc2)
                            } else {
                                None
                            }
                        } else {
                            None
                        }
                    },
                    None => None,
                }
            } else {
                None
            }
        },
        None => None,
    }
}

/// One delta object at `i`.
pub fn parse_delta(s: &Vec<char>, i: usize) -> (r: Option<(StreamChunkMessage, usize)>)
    requires
        i <= s@.len(),
    ensures
        r matches Some((d, j)) ==> spec_parse_delta(s@, i as int) == Some((d@, j as int)) && i < j
            <= s@.len(),
        r is None ==> spec_parse_delta(s@, i as int) is None,
{
    if i < s.len() && s[i] == '{' {
        let j = skip_ws(s, i + 1);
        if j < s.len() {
            if s[j] == '}' {
                Some((StreamChunkMessage { role: None, content: None }, j + 1))
            } else {
                parse_delta_fields(s, j, DeltaPartialExec { role: None, content: None })
            }
        } else {
            None
        }
    } else {
        None
    }
}

pub ghost struct StreamChoicePartial {
    pub index: Option<u32>,
    pub delta: Option<StreamChunkMessageView>,
}

pub struct StreamChoicePartialExec {
    pub index: Option<u32>,
    pub delta: Option<StreamChunkMessage>,
}

impl View for StreamChoicePartialExec {
    type V = StreamChoicePartial;

    open spec fn view(&self) -> StreamChoicePartial {
        StreamChoicePartial {
            index: self.index,
            delta: match self.delta {
                Some(d) => Some(d@),
                None => None,
            },
        }
    }
}

/// A finished streaming choice requires `index` and `delta`.
pub open spec fn spec_stream_choice_finalize(acc: StreamChoicePartial) -> Option<StreamChoiceView> {
    match (acc.index, acc.delta) {
        (Some(ix), Some(d)) => Some(StreamChoiceView { index: ix, delta: d }),
        _ => None,
    }
}

/// Members of one streaming choice.
pub open spec fn spec_parse_stream_choice_fields(
    s: Seq<char>,
    i: int,
    acc: StreamChoicePartial,
) -> Option<(StreamChoiceView, int)>
    decreases s.len() - i,
{
    match spec_parse_string(s, i) {
        Some((key, p)) => {
            let q = spec_skip_ws(s, p);
            if q < s.len() && s[q] == ':' {
                let r2 = spec_skip_ws(s, q + 1);
                let stepped = if key == "index"@ {
                    if acc.index is Some {
                        None
                    } else {
                        match spec_parse_index(s, r2) {
                            Some((ix, p2)) => Some(
                                (StreamChoicePartial { index: Some(ix), ..acc }, p2),
                            ),
                            None => None,
                        }
                    }
                } else if key == "delta"@ {
                    if acc.delta is Some {
                        None
                    } else {
                        match spec_parse_delta(s, r2) {
                            Some((d, p2)) => Some(
                                (StreamChoicePartial { delta: Some(d), ..acc }, p2),
                            ),
                            None => None,
                        }
                    }
                } else {
                    match spec_skip_value(s, r2) {
                        Some(p2) => Some((acc, p2)),
                        None => None,
                    }
                };
                match stepped {
                    Some((acc2, p2)) => {
                        let q2 = spec_skip_ws(s, p2);
                        if q2 < s.len() {
                            if s[q2] == '}' {
                                match spec_stream_choice_finalize(acc2) {
                                    Some(c) => Some((c, q2 + 1)),
                                    None => None,
                                }
                            } else if s[q2] == ',' {
                                let r3 = spec_skip_ws(s, q2 + 1);
                                if i < r3 && r3 <= s.len() {
                                    spec_parse_stream_choice_fields(s, r3, acc2)
                                } else {
                                    None
                                }
                            } else {
                                None
                            }
                        } else {
                            None
                        }
                    },
                    None => None,
                }
            } else {
                None
            }
        },
        None => None,
    }
}

/// One streaming choice object at `i`.
pub open spec fn spec_parse_stream_choice(s: Seq<char>, i: int) -> Option<(StreamChoiceView, int)> {
    if 0 <= i && i < s.len() && s[i] == '{' {
        let j = spec_skip_ws(s, i + 1);
        if j < s.len() {
            if s[j] == '}' {
                None
            } else {
                spec_parse_stream_choice_fields(
                    s,
                    j,
                    StreamChoicePartial { index: None, delta: None },
                )
            }
        } else {
            None
        }
    } else {
        None
    }
}

fn parse_stream_choice_fields(s: &Vec<char>, i: usize, acc: StreamChoicePartialExec) -> (r: Option<
    (StreamChoice, usize),
>)
    requires
        i <= s@.len(),
    ensures
        r matches Some((c, j)) ==> spec_parse_stream_choice_fields(s@, i as int, acc@) == Some(
            (c@, j as int),
        ) && i < j <= s@.len(),
        r is None ==> spec_parse_stream_choice_fields(s@, i as int, acc@) is None,
    decreases s@.len() - i,
{
    match parse_string(s, i) {
        Some((key, p)) => {
            let q = skip_ws(s, p);
            if q < s.len() && s[q] == ':' {
                let r2 = skip_ws(s, q + 1);
                let stepped: Option<(StreamChoicePartialExec, usize)> = if str_eq(
                    key.as_str(),
                    "index",
                ) {
                    if acc.index.is_some() {
                        None
                    } else {
                        match parse_index(s, r2) {
                            Some((ix, p2)) => Some(
                                (StreamChoicePartialExec { index: Some(ix), ..acc }, p2),
                            ),
                            None => None,
                        }
                    }
                } else if str_eq(key.as_str(), "delta") {
                    if acc.delta.is_some() {
                        None
                    } else {
                        match parse_delta(s, r2) {
                            Some((d, p2)) => Some(
                                (StreamChoicePartialExec { delta: Some(d), ..acc }, p2),
                            ),
                            None => None,
                        }
                    }
                } else {
                    match skip_value(s, r2) {
                        Some(p2) => Some((acc, p2)),
                        None => None,
                    }
                };
                match stepped {
                    Some((acc2, p2)) => {
                        let q2 = skip_ws(s, p2);
                        if q2 < s.len() {
                            if s[q2] == '}' {
                                match (acc2.index, acc2.delta) {
                                    (Some(ix), Some(d)) => Some(
                                        (StreamChoice { index: ix, delta: d }, q2 + 1),
                                    ),
                                    _ => None,
                                }
                            } else if s[q2] == ',' {
                                let r3 = skip_ws(s, q2 + 1);
                                parse_stream_choice_fields(s, r3, acc2)
                            } else {
                                None
                            }
                        } else {
                            None
                        }
                    },
                    None => None,
                }
            } else {
                None
            }
        },
        None => None,
    }
}

/// One streaming choice object at `i`.
pub fn parse_stream_choice(s: &Vec<char>, i: usize) -> (r: Option<(StreamChoice, usize)>)
    requires
        i <= s@.len(),
    ensures
        r matches Some((c, j)) ==> spec_parse_stream_choice(s@, i as int) == Some((c@, j as int))
            && i < j <= s@.len(),
        r is None ==> spec_parse_stream_choice(s@, i as int) is None,
{
    if i < s.len() && s[i] == '{' {
        let j = skip_ws(s, i + 1);
        if j < s.len() {
            if s[j] == '}' {
                None
            } else {
                parse_stream_choice_fields(
                    s,
                    j,
                    StreamChoicePartialExec { index: None, delta: None },
                )
            }
        } else {
            None
        }
    } else {
        None
    }
}

/// The streaming choices of an array whose first item starts at `i`.
pub open spec fn spec_parse_stream_choice_items(s: Seq<char>, i: int) -> Option<
    (Seq<StreamChoiceView>, int),
>
    decreases s.len() - i,
{
    match spec_parse_stream_choice(s, i) {
        Some((c, p)) => {
            let q = spec_skip_ws(s, p);
            if i < q && q < s.len() {
                if s[q] == ']' {
                    Some((seq![c], q + 1))
                } else if s[q] == ',' {
                    let r2 = spec_skip_ws(s, q + 1);
                    if i < r2 && r2 <= s.len() {
                        match spec_parse_stream_choice_items(s, r2) {
                            Some((rest, e)) => Some((seq![c] + rest, e)),
                            None => None,
                        }
                    } else {
                        None
                    }
                } else {
                    None
                }
            } else {
                None
            }
        },
        None => None,
    }
}

/// The streaming choices of an array whose first item starts at `i`.
pub fn parse_stream_choice_items(s: &Vec<char>, i: usize) -> (r: Option<(Vec<StreamChoice>, usize)>)
    requires
        i <= s@.len(),
    ensures
        r matches Some((cs, j)) ==> spec_parse_stream_choice_items(s@, i as int) == Some(
            (Seq::new(cs@.len(), |k: int| cs@[k]@), j as int),
        ) && i < j <= s@.len(),
        r is None ==> spec_parse_stream_choice_items(s@, i as int) is None,
    decreases s@.len() - i,
{
    match parse_stream_choice(s, i) {
        Some((c, p)) => {
            let q = skip_ws(s, p);
            if q < s.len() {
                if s[q] == ']' {
                    let mut out: Vec<StreamChoice> = Vec::new();
                    out.push(c);
                    proof {
                        assert(Seq::new(out@.len(), |k: int| out@[k]@) =~= seq![c@]);
                    }
                    Some((out, q + 1))
                } else if s[q] == ',' {
                    let r2 = skip_ws(s, q + 1);
                    match parse_stream_choice_items(s, r2) {
                        Some((rest, e)) => {
                            let ghost rv = rest@;
                            let mut out = rest;
                            out.insert(0, c);
                            proof {
                                assert(out@ =~= seq![c] + rv);
                                assert(Seq::new(out@.len(), |k: int| out@[k]@) =~= seq![c@]
                                    + Seq::new(rv.len(), |k: int| rv[k]@));
                            }
                            Some((out, e))
                        },
                        None => None,
                    }
                } else {
                    None
                }
            } else {
                None
            }
        },
        None => None,
    }
}

pub ghost struct StreamResponsePartial {
    pub id: Option<Seq<char>>,
    pub created: Option<u64>,
    pub model: Option<Seq<char>>,
    pub choices: Option<Seq<StreamChoiceView>>,
}

pub struct StreamResponsePartialExec {
    pub id: Option<String>,
    pub created: Option<u64>,
    pub model: Option<String>,
    pub choices: Option<Vec<StreamChoice>>,
}

impl View for StreamResponsePartialExec {
    type V = StreamResponsePartial;

    open spec fn view(&self) -> StreamResponsePartial {
        StreamResponsePartial {
            id: ov_str(self.id),
            created: self.created,
            model: ov_str(self.model),
            choices: match self.choices {
                Some(v) => Some(Seq::new(v@.len(), |k: int| v@[k]@)),
                None => None,
            },
        }
    }
}

/// A finished streaming frame requires `id`, `created`, `model`, `choices`.
pub open spec fn spec_stream_response_finalize(acc: StreamResponsePartial) -> Option<
    CompletionStreamResponseView,
> {
    match (acc.id, acc.created, acc.model, acc.choices) {
        (Some(id), Some(created), Some(model), Some(choices)) => Some(
            CompletionStreamResponseView {
                id: id,
                created: created,
                model: model,
                choices: choices,
            },
        ),
        _ => None,
    }
}

/// A `choices` member of a streaming frame.
pub open spec fn spec_parse_stream_choices_value(s: Seq<char>, i: int) -> Option<
    (Seq<StreamChoiceView>, int),
> {
    if 0 <= i && i < s.len() && s[i] == '[' {
        let j2 = spec_skip_ws(s, i + 1);
        if j2 < s.len() {
            if s[j2] == ']' {
                Some((Seq::empty(), j2 + 1))
            } else {
                spec_parse_stream_choice_items(s, j2)
            }
        } else {
            None
        }
    } else {
        None
    }
}

pub fn parse_stream_choices_value(s: &Vec<char>, i: usize) -> (r: Option<(Vec<StreamChoice>, usize)>)
    requires
        i <= s@.len(),
    ensures
        r matches Some((cs, j)) ==> spec_parse_stream_choices_value(s@, i as int) == Some(
            (Seq::new(cs@.len(), |k: int| cs@[k]@), j as int),
        ) && i < j <= s@.len(),
        r is None ==> spec_parse_stream_choices_value(s@, i as int) is None,
{
    if i < s.len() && s[i] == '[' {
        let j2 = skip_ws(s, i + 1);
        if j2 < s.len() {
            if s[j2] == ']' {
                let empty: Vec<StreamChoice> = Vec::new();
                proof {
                    assert(Seq::new(empty@.len(), |k: int| empty@[k]@)
                        =~= Seq::<StreamChoiceView>::empty());
                }
                Some((empty, j2 + 1))
            } else {
                parse_stream_choice_items(s, j2)
            }
        } else {
            None
        }
    } else {
        None
    }
}

/// Members of a streaming frame object.
pub open spec fn spec_parse_stream_response_fields(
    s: Seq<char>,
    i: int,
    acc: StreamResponsePartial,
) -> Option<(CompletionStreamResponseView, int)>
    decreases s.len() - i,
{
    match spec_parse_string(s, i) {
        Some((key, p)) => {
            let q = spec_skip_ws(s, p);
            if q < s.len() && s[q] == ':' {
                let r2 = spec_skip_ws(s, q + 1);
                let stepped = if key == "id"@ {
                    if acc.id is Some {
                        None
                    } else {
                        match spec_parse_string(s, r2) {
                            Some((t, p2)) => Some((StreamResponsePartial { id: Some(t), ..acc }, p2)),
                            None => None,
                        }
                    }
                } else if key == "created"@ {
                    if acc.created is Some {
                        None
                    } else {
                        match spec_parse_u64(s, r2) {
                            Some((v, p2)) => Some(
                                (StreamResponsePartial { created: Some(v), ..acc }, p2),
                            ),
                            None => None,
                        }
                    }
                } else if key == "model"@ {
                    if acc.model is Some {
                        None
                    } else {
                        match spec_parse_string(s, r2) {
                            Some((t, p2)) => Some(
                                (StreamResponsePartial { model: Some(t), ..acc }, p2),
                            ),
                            None => None,
                        }
                    }
                } else if key == "choices"@ {
                    if acc.choices is Some {
                        None
                    } else {
                        match spec_parse_stream_choices_value(s, r2) {
                            Some((cs, p2)) => Some(
                                (StreamResponsePartial { choices: Some(cs), ..acc }, p2),
                            ),
                            None => None,
                        }
                    }
                } else {
                    match spec_skip_value(s, r2) {
                        Some(p2) => Some((acc, p2)),
                        None => None,
                    }
                };
                match stepped {
                    Some((acc2, p2)) => {
                        let q2 = spec_skip_ws(s, p2);
                        if q2 < s.len() {
                            if s[q2] == '}' {
                                match spec_stream_response_finalize(acc2) {
                                    Some(resp) => Some((resp, q2 + 1)),
                                    None => None,
                                }
                            } else if s[q2] == ',' {
                                let r3 = spec_skip_ws(s, q2 + 1);
                                if i < r3 && r3 <= s.len() {
                                    spec_parse_stream_response_fields(s, r3, acc2)
                                } else {
                                    None
                                }
                            } else {
                                None
                            }
                        } else {
                            None
                        }
                    },
                    None => None,
                }
            } else {
                None
            }
        },
        None => None,
    }
}

/// A streaming frame as a whole document.
pub open spec fn spec_parse_stream_response_doc(s: Seq<char>) -> Option<
    CompletionStreamResponseView,
> {
    let i = spec_skip_ws(s, 0);
    if 0 <= i && i < s.len() && s[i] == '{' {
        let j = spec_skip_ws(s, i + 1);
        if j < s.len() {
            if s[j] == '}' {
                None
            } else {
                match spec_parse_stream_response_fields(
                    s,
                    j,
                    StreamResponsePartial { id: None, created: None, model: None, choices: None },
                ) {
                    Some((resp, p)) => if spec_skip_ws(s, p) == s.len() {
                        Some(resp)
                    } else {
                        None
                    },
                    None => None,
                }
            }
        } else {
            None
        }
    } else {
        None
    }
}

fn parse_stream_response_fields(s: &Vec<char>, i: usize, acc: StreamResponsePartialExec) -> (r:
    Option<(CompletionStreamResponse, usize)>)
    requires
        i <= s@.len(),
    ensures
        r matches Some((resp, j)) ==> spec_parse_stream_response_fields(s@, i as int, acc@)
            == Some((resp@, j as int)) && i < j <= s@.len(),
        r is None ==> spec_parse_stream_response_fields(s@, i as int, acc@) is None,
    decreases s@.len() - i,
{
    match parse_string(s, i) {
        Some((key, p)) => {
            let q = skip_ws(s, p);
            if q < s.len() && s[q] == ':' {
                let r2 = skip_ws(s, q + 1);
                let stepped: Option<(StreamResponsePartialExec, usize)> = if str_eq(
                    key.as_str(),
                    "id",
                ) {
                    if acc.id.is_some() {
                        None
                    } else {
                        match parse_string(s, r2) {
                            Some((t, p2)) => Some(
                                (StreamResponsePartialExec { id: Some(t), ..acc }, p2),
                            ),
                            None => None,
                        }
                    }
                } else if str_eq(key.as_str(), "created") {
                    if acc.created.is_some() {
                        None
                    } else {
                        match parse_u64(s, r2) {
                            Some((v, p2)) => Some(
                                (StreamResponsePartialExec { created: Some(v), ..acc }, p2),
                            ),
                            None => None,
                        }
                    }
                } else if str_eq(key.as_str(), "model") {
                    if acc.model.is_some() {
                        None
                    } else {
                        match parse_string(s, r2) {
                            Some((t, p2)) => Some(
                                (StreamResponsePartialExec { model: Some(t), ..acc }, p2),
                            ),
                            None => None,
                        }
                    }
                } else if str_eq(key.as_str(), "choices") {
                    if acc.choices.is_some() {
                        None
                    } else {
                        match parse_stream_choices_value(s, r2) {
                            Some((cs, p2)) => Some(
                                (StreamResponsePartialExec { choices: Some(cs), ..acc }, p2),
                            ),
                            None => None,
                        }
                    }
                } else {
                    match skip_value(s, r2) {
                        Some(p2) => Some((acc, p2)),
                        None => None,
                    }
                };
                match stepped {
                    Some((acc2, p2)) => {
                        let q2 = skip_ws(s, p2);
                        if q2 < s.len() {
                            if s[q2] == '}' {
                                match (acc2.id, acc2.created, acc2.model, acc2.choices) {
                                    (Some(id), Some(created), Some(model), Some(choices)) => Some(
                                        (
                                            CompletionStreamResponse {
                                                id: id,
                                                created: created,
                                                model: model,
                                                choices: choices,
                                            },
                                            q2 + 1,
                                        ),
                                    ),
                                    _ => None,
                                }
                            } else if s[q2] == ',' {
                                let r3 = skip_ws(s, q2 + 1);
                                parse_stream_response_fields(s, r3, acc2)
                            } else {
                                None
                            }
                        } else {
                            None
                        }
                    },
                    None => None,
                }
            } else {
                None
            }
        },
        None => None,
    }
}

/// A streaming frame as a whole document.
pub fn stream_response_from_json(s: &str) -> (r: Option<CompletionStreamResponse>)
    ensures
        r matches Some(resp) ==> spec_parse_stream_response_doc(s@) == Some(resp@),
        r is None ==> spec_parse_stream_response_doc(s@) is None,
{
    let chars = crate::text::string_to_chars(s);
    let i = skip_ws(&chars, 0);
    let parsed = if i < chars.len() && chars[i] == '{' {
        let j = skip_ws(&chars, i + 1);
        if j < chars.len() {
            if chars[j] == '}' {
                None
            } else {
                parse_stream_response_fields(
                    &chars,
                    j,
                    StreamResponsePartialExec {
                        id: None,
                        created: None,
                        model: None,
                        choices: None,
                    },
                )
            }
        } else {
            None
        }
    } else {
        None
    };
    match parsed {
        Some((resp, p)) => {
            let e = skip_ws(&chars, p);
            if e == chars.len() {
                Some(resp)
            } else {
                None
            }
        },
        None => None,
    }
}

// ---------------------------------------------------------------------------
// Capability definitions
// ---------------------------------------------------------------------------

/// The characters of `s` between `a` and `b`, as a string.
fn chars_range_to_string(s: &Vec<char>, a: usize, b: usize) -> (r: String)
    requires
        a <= b <= s@.len(),
    ensures
        r@ == s@.subrange(a as int, b as int),
{
    let mut r = String::new();
    let mut k: usize = a;
    while k < b
        invariant
            a <= k <= b <= s@.len(),
            r@ == s@.subrange(a as int, k as int),
        decreases b - k,
    {
        push_char(&mut r, s[k]);
        k = k + 1;
        proof {
            assert(r@ =~= s@.subrange(a as int, k as int));
        }
    }
    r
}

pub ghost struct FunctionDefPartial {
    pub name: Option<Seq<char>>,
    pub description: Option<Seq<char>>,
    pub parameters: Option<Seq<char>>,
}

pub struct FunctionDefPartialExec {
    pub name: Option<String>,
    pub description: Option<String>,
    pub parameters: Option<String>,
}

impl View for FunctionDefPartialExec {
    type V = FunctionDefPartial;

    open spec fn view(&self) -> FunctionDefPartial {
        FunctionDefPartial {
            name: ov_str(self.name),
            description: ov_str(self.description),
            parameters: ov_str(self.parameters),
        }
    }
}

/// A finished function definition requires `name`, `description` and
/// `parameters`; the parameter schema is kept as the raw text of the value.
pub open spec fn spec_function_def_finalize(acc: FunctionDefPartial) -> Option<
    (Seq<char>, Seq<char>, Seq<char>),
> {
    match (acc.name, acc.description, acc.parameters) {
        (Some(n), Some(d), Some(p)) => Some((n, d, p)),
        _ => None,
    }
}

/// Members of a capability's function definition.
pub open spec fn spec_parse_function_def_fields(
    s: Seq<char>,
    i: int,
    acc: FunctionDefPartial,
) -> Option<((Seq<char>, Seq<char>, Seq<char>), int)>
    decreases s.len() - i,
{
    match spec_parse_string(s, i) {
        Some((key, p)) => {
            let q = spec_skip_ws(s, p);
            if q < s.len() && s[q] == ':' {
                let r2 = spec_skip_ws(s, q + 1);
                let stepped = if key == "name"@ {
                    if acc.name is Some {
                        None
                    } else {
                        match spec_parse_string(s, r2) {
                            Some((t, p2)) => Some((FunctionDefPartial { name: Some(t), ..acc }, p2)),
                            None => None,
                        }
                    }
                } else if key == "description"@ {
                    if acc.description is Some {
                        None
                    } else {
                        match spec_parse_string(s, r2) {
                            Some((t, p2)) => Some(
                                (FunctionDefPartial { description: Some(t), ..acc }, p2),
                            ),
                            None => None,
                        }
                    }
                } else if key == "parameters"@ {
                    if acc.parameters is Some {
                        None
                    } else {
                        match spec_skip_value(s, r2) {
                            Some(p2) => Some(
                                (
                                    FunctionDefPartial {
                                        parameters: Some(s.subrange(r2, p2)),
                                        ..acc
                                    },
                                    p2,
                                ),
                            ),
                            None => None,
                        }
                    }
                } else {
                    match spec_skip_value(s, r2) {
                        Some(p2) => Some((acc, p2)),
                        None => None,
                    }
                };
                match stepped {
                    Some((acc2, p2)) => {
                        let q2 = spec_skip_ws(s, p2);
                        if q2 < s.len() {
                            if s[q2] == '}' {
                                match spec_function_def_finalize(acc2) {
                                    Some(f) => Some((f, q2 + 1)),
                                    None => None,
                                }
                            } else if s[q2] == ',' {
                                let r3 = spec_skip_ws(s, q2 + 1);
                                if i < r3 && r3 <= s.len() {
                                    spec_parse_function_def_fields(s, r3, acc2)
                                } else {
                                    None
                                }
                            } else {
                                None
                            }
                        } else {
                            None
                        }
                    },
                    None => None,
                }
            } else {
                None
            }
        },
        None => None,
    }
}

/// The function definition object at `i`.
pub open spec fn spec_parse_function_def(s: Seq<char>, i: int) -> Option<
    ((Seq<char>, Seq<char>, Seq<char>), int),
> {
    if 0 <= i && i < s.len() && s[i] == '{' {
        let j = spec_skip_ws(s, i + 1);
        if j < s.len() {
            if s[j] == '}' {
                None
            } else {
                spec_parse_function_def_fields(
                    s,
                    j,
                    FunctionDefPartial { name: None, description: None, parameters: None },
                )
            }
        } else {
            None
        }
    } else {
        None
    }
}

fn parse_function_def_fields(s: &Vec<char>, i: usize, acc: FunctionDefPartialExec) -> (r: Option<
    (FunctionDefinition, usize),
>)
    requires
        i <= s@.len(),
    ensures
        r matches Some((f, j)) ==> spec_parse_function_def_fields(s@, i as int, acc@) == Some(
            ((f.name@, f.description@, f.parameters@), j as int),
        ) && i < j <= s@.len(),
        r is None ==> spec_parse_function_def_fields(s@, i as int, acc@) is None,
    decreases s@.len() - i,
{
    match parse_string(s, i) {
        Some((key, p)) => {
            let q = skip_ws(s, p);
            if q < s.len() && s[q] == ':' {
                let r2 = skip_ws(s, q + 1);
                let stepped: Option<(FunctionDefPartialExec, usize)> = if str_eq(
                    key.as_str(),
                    "name",
                ) {
                    if acc.name.is_some() {
                        None
                    } else {
                        match parse_string(s, r2) {
                            Some((t, p2)) => Some(
                                (FunctionDefPartialExec { name: Some(t), ..acc }, p2),
                            ),
                            None => None,
                        }
                    }
                } else if str_eq(key.as_str(), "description") {
                    if acc.description.is_some() {
                        None
                    } else {
                        match parse_string(s, r2) {
                            Some((t, p2)) => Some(
                                (FunctionDefPartialExec { description: Some(t), ..acc }, p2),
                            ),
                            None => None,
                        }
                    }
                } else if str_eq(key.as_str(), "parameters") {
                    if acc.parameters.is_some() {
                        None
                    } else {
                        match skip_value(s, r2) {
                            Some(p2) => {
                                let raw = chars_range_to_string(s, r2, p2);
                                Some((FunctionDefPartialExec { parameters: Some(raw), ..acc }, p2))
                            },
                            None => None,
                        }
                    }
                } else {
                    match skip_value(s, r2) {
                        Some(p2) => Some((acc, p2)),
                        None => None,
                    }
                };
                match stepped {
                    Some((acc2, p2)) => {
                        let q2 = skip_ws(s, p2);
                        if q2 < s.len() {
                            if s[q2] == '}' {
                                match (acc2.name, acc2.description, acc2.parameters) {
                                    (Some(n), Some(d), Some(pr)) => Some(
                                        (
                                            FunctionDefinition {
                                                name: n,
                                                description: d,
                                                parameters: pr,
                                            },
                                            q2 + 1,
                                        ),
                                    ),
                                    _ => None,
                                }
                            } else if s[q2] == ',' {
                                let r3 = skip_ws(s, q2 + 1);
                                parse_function_def_fields(s, r3, acc2)
                            } else {
                                None
                            }
                        } else {
                            None
                        }
                    },
                    None => None,
                }
            } else {
                None
            }
        },
        None => None,
    }
}

pub ghost struct ToolDefPartial {
    pub type_: Option<Seq<char>>,
    pub function: Option<(Seq<char>, Seq<char>, Seq<char>)>,
}

pub struct ToolDefPartialExec {
    pub type_: Option<String>,
    pub function: Option<FunctionDefinition>,
}

impl View for ToolDefPartialExec {
    type V = ToolDefPartial;

    open spec fn view(&self) -> ToolDefPartial {
        ToolDefPartial {
            type_: ov_str(self.type_),
            function: match self.function {
                Some(f) => Some((f.name@, f.description@, f.parameters@)),
                None => None,
            },
        }
    }
}

/// A finished capability definition requires `type` and `function`.
pub open spec fn spec_tool_def_finalize(acc: ToolDefPartial) -> Option<ToolView> {
    match (acc.type_, acc.function) {
        (Some(t), Some((n, d, p))) => Some(
            ToolView { type_: t, name: n, description: d, parameters: p },
        ),
        _ => None,
    }
}

/// Members of a capability definition object.
pub open spec fn spec_parse_tool_def_fields(s: Seq<char>, i: int, acc: ToolDefPartial) -> Option<
    (ToolView, int),
>
    decreases s.len() - i,
{
    match spec_parse_string(s, i) {
        Some((key, p)) => {
            let q = spec_skip_ws(s, p);
            if q < s.len() && s[q] == ':' {
                let r2 = spec_skip_ws(s, q + 1);
                let stepped = if key == "type"@ {
                    if acc.type_ is Some {
                        None
                    } else {
                        match spec_parse_string(s, r2) {
                            Some((t, p2)) => Some((ToolDefPartial { type_: Some(t), ..acc }, p2)),
                            None => None,
                        }
                    }
                } else if key == "function"@ {
                    if acc.function is Some {
                        None
                    } else {
                        match spec_parse_function_def(s, r2) {
                            Some((f, p2)) => Some((ToolDefPartial { function: Some(f), ..acc }, p2)),
                            None => None,
                        }
                    }
                } else {
                    match spec_skip_value(s, r2) {
                        Some(p2) => Some((acc, p2)),
                        None => None,
                    }
                };
                match stepped {
                    Some((acc2, p2)) => {
                        let q2 = spec_skip_ws(s, p2);
                        if q2 < s.len() {
                            if s[q2] == '}' {
                                match spec_tool_def_finalize(acc2) {
                                    Some(t) => Some((t, q2 + 1)),
                                    None => None,
                                }
                            } else if s[q2] == ',' {
                                let r3 = spec_skip_ws(s, q2 + 1);
                                if i < r3 && r3 <= s.len() {
                                    spec_parse_tool_def_fields(s, r3, acc2)
                                } else {
                                    None
                                }
                            } else {
                                None
                            }
                        } else {
                            None
                        }
                    },
                    None => None,
                }
            } else {
                None
            }
        },
        None => None,
    }
}

/// A capability definition as a whole document.
pub open spec fn spec_parse_tool_doc(s: Seq<char>) -> Option<ToolView> {
    let i = spec_skip_ws(s, 0);
    if 0 <= i && i < s.len() && s[i] == '{' {
        let j = spec_skip_ws(s, i + 1);
        if j < s.len() {
            if s[j] == '}' {
                None
            } else {
                match spec_parse_tool_def_fields(
                    s,
                    j,
                    ToolDefPartial { type_: None, function: None },
                ) {
                    Some((t, p)) => if spec_skip_ws(s, p) == s.len() {
                        Some(t)
                    } else {
                        None
                    },
                    None => None,
                }
            }
        } else {
            None
        }
    } else {
        None
    }
}

fn parse_tool_def_fields(s: &Vec<char>, i: usize, acc: ToolDefPartialExec) -> (r: Option<
    (Tool, usize),
>)
    requires
        i <= s@.len(),
    ensures
        r matches Some((t, j)) ==> spec_parse_tool_def_fields(s@, i as int, acc@) == Some(
            (t@, j as int),
        ) && i < j <= s@.len(),
        r is None ==> spec_parse_tool_def_fields(s@, i as int, acc@) is None,
    decreases s@.len() - i,
{
    match parse_string(s, i) {
        Some((key, p)) => {
            let q = skip_ws(s, p);
            if q < s.len() && s[q] == ':' {
                let r2 = skip_ws(s, q + 1);
                let stepped: Option<(ToolDefPartialExec, usize)> = if str_eq(key.as_str(), "type") {
                    if acc.type_.is_some() {
                        None
                    } else {
                        match parse_string(s, r2) {
                            Some((t, p2)) => Some(
                                (ToolDefPartialExec { type_: Some(t), ..acc }, p2),
                            ),
                            None => None,
                        }
                    }
                } else if str_eq(key.as_str(), "function") {
                    if acc.function.is_some() {
                        None
                    } else {
                        if r2 < s.len() && s[r2] == '{' {
                            let j2 = skip_ws(s, r2 + 1);
                            if j2 < s.len() {
                                if s[j2] == '}' {
                                    None
                                } else {
                                    match parse_function_def_fields(
                                        s,
                                        j2,
                                        FunctionDefPartialExec {
                                            name: None,
                                            description: None,
                                            parameters: None,
                                        },
                                    ) {
                                        Some((f, p2)) => Some(
                                            (ToolDefPartialExec { function: Some(f), ..acc }, p2),
                                        ),
                                        None => None,
                                    }
                                }
                            } else {
                                None
                            }
                        } else {
                            None
                        }
                    }
                } else {
                    match skip_value(s, r2) {
                        Some(p2) => Some((acc, p2)),
                        None => None,
                    }
                };
                match stepped {
                    Some((acc2, p2)) => {
                        let q2 = skip_ws(s, p2);
                        if q2 < s.len() {
                            if s[q2] == '}' {
                                match (acc2.type_, acc2.function) {
                                    (Some(t), Some(f)) => Some(
                                        (Tool { type_: t, function: f }, q2 + 1),
                                    ),
                                    _ => None,
                                }
                            } else if s[q2] == ',' {
                                let r3 = skip_ws(s, q2 + 1);
                                parse_tool_def_fields(s, r3, acc2)
                            } else {
                                None
                            }
                        } else {
                            None
                        }
                    },
                    None => None,
                }
            } else {
                None
            }
        },
        None => None,
    }
}

/// A capability definition as a whole document. This is the shape check
/// applied to a capability's self-reported description.
pub fn tool_from_json(s: &str) -> (r: Option<Tool>)
    ensures
        r matches Some(t) ==> spec_parse_tool_doc(s@) == Some(t@),
        r is None ==> spec_parse_tool_doc(s@) is None,
{
    let chars = crate::text::string_to_chars(s);
    let i = skip_ws(&chars, 0);
    let parsed = if i < chars.len() && chars[i] == '{' {
        let j = skip_ws(&chars, i + 1);
        if j < chars.len() {
            if chars[j] == '}' {
                None
            } else {
                parse_tool_def_fields(&chars, j, ToolDefPartialExec { type_: None, function: None })
            }
        } else {
            None
        }
    } else {
        None
    };
    match parsed {
        Some((t, p)) => {
            let e = skip_ws(&chars, p);
            if e == chars.len() {
                Some(t)
            } else {
                None
            }
        },
        None => None,
    }
}

} // verus!
