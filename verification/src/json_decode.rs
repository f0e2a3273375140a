//! Typed decoding of protocol objects from JSON wire text.
//!
//! Object parsers accept their members in any order, skip unknown members
//! as serde-style decoders do, reject duplicated members, and fail when a
//! required member is missing. Each executable decoder is proved to return
//! exactly what its `spec` counterpart defines.

use vstd::prelude::*;
use crate::dtos::{
    FunctionCall, ImageUrl, Message, MessageView, MultiContent, MultiContentView, Role, ToolCall,
    ToolCallView,
};
use crate::json_parse::{
    spec_parse_string, spec_skip_value, spec_skip_ws, spec_try_null, parse_string, skip_value,
    skip_ws, try_null,
};
use crate::text::str_eq;

verus! {

pub open spec fn ov_str(o: Option<String>) -> Option<Seq<char>> {
    match o {
        Some(s) => Some(s@),
        None => None,
    }
}

// ---------------------------------------------------------------------------
// Roles
// ---------------------------------------------------------------------------

pub open spec fn spec_role_of(t: Seq<char>) -> Option<Role> {
    if t == "system"@ {
        Some(Role::SYSTEM)
    } else if t == "user"@ {
        Some(Role::USER)
    } else if t == "assistant"@ {
        Some(Role::ASSISTANT)
    } else if t == "tool"@ {
        Some(Role::TOOL)
    } else {
        None
    }
}

/// A role is a string member holding one of the four role names.
pub open spec fn spec_parse_role(s: Seq<char>, i: int) -> Option<(Role, int)> {
    match spec_parse_string(s, i) {
        Some((t, j)) => match spec_role_of(t) {
            Some(r) => Some((r, j)),
            None => None,
        },
        None => None,
    }
}

fn role_of(t: &str) -> (r: Option<Role>)
    ensures
        r == spec_role_of(t@),
{
    if str_eq(t, "system") {
        Some(Role::SYSTEM)
    } else if str_eq(t, "user") {
        Some(Role::USER)
    } else if str_eq(t, "assistant") {
        Some(Role::ASSISTANT)
    } else if str_eq(t, "tool") {
        Some(Role::TOOL)
    } else {
        None
    }
}

pub fn parse_role(s: &Vec<char>, i: usize) -> (r: Option<(Role, usize)>)
    requires
        i <= s@.len(),
    ensures
        r matches Some((v, j)) ==> spec_parse_role(s@, i as int) == Some((v, j as int)) && i < j
            <= s@.len(),
        r is None ==> spec_parse_role(s@, i as int) is None,
{
    match parse_string(s, i) {
        Some((t, j)) => match role_of(t.as_str()) {
            Some(v) => Some((v, j)),
            None => None,
        },
        None => None,
    }
}

// ---------------------------------------------------------------------------
// Image references
// ---------------------------------------------------------------------------

/// Members of an image-reference object; `url` is required.
pub open spec fn spec_parse_image_url_fields(s: Seq<char>, i: int, acc: Option<Seq<char>>) -> Option<
    (Seq<char>, int),
>
    decreases s.len() - i,
{
    match spec_parse_string(s, i) {
        Some((key, p)) => {
            let q = spec_skip_ws(s, p);
            if q < s.len() && s[q] == ':' {
                let r2 = spec_skip_ws(s, q + 1);
                let stepped = if key == "url"@ {
                    if acc is Some {
                        None
                    } else {
                        match spec_parse_string(s, r2) {
                            Some((u, p2)) => Some((Some(u), p2)),
                            None => None,
                        }
                    }
                } else {
                    match spec_skip_value(s, r2) {
                        Some(p2) => Some((acc, p2)),
                        None => None,
                    }
                };
                match stepped {
                    Some((acc2, p2)) => {
                        let q2 = spec_skip_ws(s, p2);
                        if q2 < s.len() {
                            if s[q2] == '}' {
                                match acc2 {
                                    Some(u) => Some((u, q2 + 1)),
                                    None => None,
                                }
                            } else if s[q2] == ',' {
                                let r3 = spec_skip_ws(s, q2 + 1);
                                if i < r3 && r3 <= s.len() {
                                    spec_parse_image_url_fields(s, r3, acc2)
                                } else {
                                    None
                                }
                            } else {
                                None
                            }
                        } else {
                            None
                        }
                    },
                    None => None,
                }
            } else {
                None
            }
        },
        None => None,
    }
}

/// An image-reference object at `i`.
pub open spec fn spec_parse_image_url(s: Seq<char>, i: int) -> Option<(Seq<char>, int)> {
    if 0 <= i && i < s.len() && s[i] == '{' {
        let j = spec_skip_ws(s, i + 1);
        if j < s.len() {
            if s[j] == '}' {
                None
            } else {
                spec_parse_image_url_fields(s, j, None)
            }
        } else {
            None
        }
    } else {
        None
    }
}

fn parse_image_url_fields(s: &Vec<char>, i: usize, acc: Option<String>) -> (r: Option<
    (String, usize),
>)
    requires
        i <= s@.len(),
    ensures
        r matches Some((u, j)) ==> spec_parse_image_url_fields(s@, i as int, ov_str(acc)) == Some(
            (u@, j as int),
        ) && i < j <= s@.len(),
        r is None ==> spec_parse_image_url_fields(s@, i as int, ov_str(acc)) is None,
    decreases s@.len() - i,
{
    match parse_string(s, i) {
        Some((key, p)) => {
            let q = skip_ws(s, p);
            if q < s.len() && s[q] == ':' {
                let r2 = skip_ws(s, q + 1);
                let stepped: Option<(Option<String>, usize)> = if str_eq(key.as_str(), "url") {
                    if acc.is_some() {
                        None
                    } else {
                        match parse_string(s, r2) {
                            Some((u, p2)) => Some((Some(u), p2)),
                            None => None,
                        }
                    }
                } else {
                    match skip_value(s, r2) {
                        Some(p2) => Some((acc, p2)),
                        None => None,
                    }
                };
                match stepped {
                    Some((acc2, p2)) => {
                        let q2 = skip_ws(s, p2);
                        if q2 < s.len() {
                            if s[q2] == '}' {
                                match acc2 {
                                    Some(u) => Some((u, q2 + 1)),
                                    None => None,
                                }
                            } else if s[q2] == ',' {
                                let r3 = skip_ws(s, q2 + 1);
                                parse_image_url_fields(s, r3, acc2)
                            } else {
                                None
                            }
                        } else {
                            None
                        }
                    },
                    None => None,
                }
            } else {
                None
            }
        },
        None => None,
    }
}

/// An image-reference object at `i`.
pub fn parse_image_url(s: &Vec<char>, i: usize) -> (r: Option<(ImageUrl, usize)>)
    requires
        i <= s@.len(),
    ensures
        r matches Some((u, j)) ==> spec_parse_image_url(s@, i as int) == Some((u@, j as int)) && i
            < j <= s@.len(),
        r is None ==> spec_parse_image_url(s@, i as int) is None,
{
    if i < s.len() && s[i] == '{' {
        let j = skip_ws(s, i + 1);
        if j < s.len() {
            if s[j] == '}' {
                None
            } else {
                match parse_image_url_fields(s, j, None) {
                    Some((u, p)) => Some((ImageUrl { url: u }, p)),
                    None => None,
                }
            }
        } else {
            None
        }
    } else {
        None
    }
}

// ---------------------------------------------------------------------------
// Multipart blocks
// ---------------------------------------------------------------------------

pub ghost struct MultiPartial {
    pub type_: Option<Seq<char>>,
    pub text: Option<Seq<char>>,
    pub image_url: Option<Seq<char>>,
}

pub struct MultiPartialExec {
    pub type_: Option<String>,
    pub text: Option<String>,
    pub image_url: Option<String>,
}

impl View for MultiPartialExec {
    type V = MultiPartial;

    open spec fn view(&self) -> MultiPartial {
        MultiPartial {
            type_: ov_str(self.type_),
            text: ov_str(self.text),
            image_url: ov_str(self.image_url),
        }
    }
}

/// A finished multipart block requires its `type` member.
pub open spec fn spec_multi_finalize(acc: MultiPartial) -> Option<MultiContentView> {
    match acc.type_ {
        Some(t) => Some(
            MultiContentView { type_: t, text: acc.text, image_url: acc.image_url },
        ),
        None => None,
    }
}

/// Members of a multipart block: `type`, `text`, an image reference, and
/// anything else skipped.
pub open spec fn spec_parse_multi_fields(s: Seq<char>, i: int, acc: MultiPartial) -> Option<
    (MultiContentView, int),
>
    decreases s.len() - i,
{
    match spec_parse_string(s, i) {
        Some((key, p)) => {
            let q = spec_skip_ws(s, p);
            if q < s.len() && s[q] == ':' {
                let r2 = spec_skip_ws(s, q + 1);
                let stepped = if key == "type"@ {
                    if acc.type_ is Some {
                        None
                    } else {
                        match spec_parse_string(s, r2) {
                            Some((t, p2)) => Some((MultiPartial { type_: Some(t), ..acc }, p2)),
                            None => None,
                        }
                    }
                } else if key == "text"@ {
                    if acc.text is Some {
                        None
                    } else {
                        match spec_parse_string(s, r2) {
                            Some((t, p2)) => Some((MultiPartial { text: Some(t), ..acc }, p2)),
                            None => None,
                        }
                    }
                } else if key == "image_url"@ {
                    if acc.image_url is Some {
                        None
                    } else {
                        match spec_parse_image_url(s, r2) {
                            Some((u, p2)) => Some(
                                (MultiPartial { image_url: Some(u), ..acc }, p2),
                            ),
                            None => None,
                        }
                    }
                } else {
                    match spec_skip_value(s, r2) {
                        Some(p2) => Some((acc, p2)),
                        None => None,
                    }
                };
                match stepped {
                    Some((acc2, p2)) => {
                        let q2 = spec_skip_ws(s, p2);
                        if q2 < s.len() {
                            if s[q2] == '}' {
                                match spec_multi_finalize(acc2) {
                                    Some(b) => Some((b, q2 + 1)),
                                    None => None,
                                }
                            } else if s[q2] == ',' {
                                let r3 = spec_skip_ws(s, q2 + 1);
                                if i < r3 && r3 <= s.len() {
                                    spec_parse_multi_fields(s, r3, acc2)
                                } else {
                                    None
                                }
                            } else {
                                None
                            }
                        } else {
                            None
                        }
                    },
                    None => None,
                }
            } else {
                None
            }
        },
        None => None,
    }
}

/// One multipart block object at `i`.
pub open spec fn spec_parse_multi_content(s: Seq<char>, i: int) -> Option<(MultiContentView, int)> {
    if 0 <= i && i < s.len() && s[i] == '{' {
        let j = spec_skip_ws(s, i + 1);
        if j < s.len() {
            if s[j] == '}' {
                None
            } else {
                spec_parse_multi_fields(
                    s,
                    j,
                    MultiPartial { type_: None, text: None, image_url: None },
                )
            }
        } else {
            None
        }
    } else {
        None
    }
}

fn multi_finalize(acc: MultiPartialExec) -> (r: Option<MultiContent>)
    ensures
        r matches Some(b) ==> spec_multi_finalize(acc@) == Some(b@),
        r is None ==> spec_multi_finalize(acc@) is None,
{
    match acc.type_ {
        Some(t) => Some(
            MultiContent {
                type_: t,
                text: acc.text,
                image_url: match acc.image_url {
                    Some(u) => Some(ImageUrl { url: u }),
                    None => None,
                },
            },
        ),
        None => None,
    }
}

fn parse_multi_fields(s: &Vec<char>, i: usize, acc: MultiPartialExec) -> (r: Option<
    (MultiContent, usize),
>)
    requires
        i <= s@.len(),
    ensures
        r matches Some((b, j)) ==> spec_parse_multi_fields(s@, i as int, acc@) == Some(
            (b@, j as int),
        ) && i < j <= s@.len(),
        r is None ==> spec_parse_multi_fields(s@, i as int, acc@) is None,
    decreases s@.len() - i,
{
    match parse_string(s, i) {
        Some((key, p)) => {
            let q = skip_ws(s, p);
            if q < s.len() && s[q] == ':' {
                let r2 = skip_ws(s, q + 1);
                let stepped: Option<(MultiPartialExec, usize)> = if str_eq(key.as_str(), "type") {
                    if acc.type_.is_some() {
                        None
                    } else {
                        match parse_string(s, r2) {
                            Some((t, p2)) => Some(
                                (MultiPartialExec { type_: Some(t), ..acc }, p2),
                            ),
                            None => None,
                        }
                    }
                } else if str_eq(key.as_str(), "text") {
                    if acc.text.is_some() {
                        None
                    } else {
                        match parse_string(s, r2) {
                            Some((t, p2)) => Some((MultiPartialExec { text: Some(t), ..acc }, p2)),
                            None => None,
                        }
                    }
                } else if str_eq(key.as_str(), "image_url") {
                    if acc.image_url.is_some() {
                        None
                    } else {
                        match parse_image_url(s, r2) {
                            Some((u, p2)) => Some(
                                (MultiPartialExec { image_url: Some(u.url), ..acc }, p2),
                            ),
                            None => None,
                        }
                    }
                } else {
                    match skip_value(s, r2) {
                        Some(p2) => Some((acc, p2)),
                        None => None,
                    }
                };
                match stepped {
                    Some((acc2, p2)) => {
                        let q2 = skip_ws(s, p2);
                        if q2 < s.len() {
                            if s[q2] == '}' {
                                match multi_finalize(acc2) {
                                    Some(b) => Some((b, q2 + 1)),
                                    None => None,
                                }
                            } else if s[q2] == ',' {
                                let r3 = skip_ws(s, q2 + 1);
                                parse_multi_fields(s, r3, acc2)
                            } else {
                                None
                            }
                        } else {
                            None
                        }
                    },
                    None => None,
                }
            } else {
                None
            }
        },
        None => None,
    }
}

/// One multipart block object at `i`.
pub fn parse_multi_content(s: &Vec<char>, i: usize) -> (r: Option<(MultiContent, usize)>)
    requires
        i <= s@.len(),
    ensures
        r matches Some((b, j)) ==> spec_parse_multi_content(s@, i as int) == Some((b@, j as int))
            && i < j <= s@.len(),
        r is None ==> spec_parse_multi_content(s@, i as int) is None,
{
    if i < s.len() && s[i] == '{' {
        let j = skip_ws(s, i + 1);
        if j < s.len() {
            if s[j] == '}' {
                None
            } else {
                parse_multi_fields(
                    s,
                    j,
                    MultiPartialExec { type_: None, text: None, image_url: None },
                )
            }
        } else {
            None
        }
    } else {
        None
    }
}

/// The multipart blocks of an array whose first item starts at `i`,
/// together with the position after the closing bracket.
pub open spec fn spec_parse_multi_items(s: Seq<char>, i: int) -> Option<
    (Seq<MultiContentView>, int),
>
    decreases s.len() - i,
{
    match spec_parse_multi_content(s, i) {
        Some((b, p)) => {
            let q = spec_skip_ws(s, p);
            if i < q && q < s.len() {
                if s[q] == ']' {
                    Some((seq![b], q + 1))
                } else if s[q] == ',' {
                    let r2 = spec_skip_ws(s, q + 1);
                    if i < r2 && r2 <= s.len() {
                        match spec_parse_multi_items(s, r2) {
                            Some((rest, e)) => Some((seq![b] + rest, e)),
                            None => None,
                        }
                    } else {
                        None
                    }
                } else {
                    None
                }
            } else {
                None
            }
        },
        None => None,
    }
}

/// The multipart blocks of an array whose first item starts at `i`.
pub fn parse_multi_items(s: &Vec<char>, i: usize) -> (r: Option<(Vec<MultiContent>, usize)>)
    requires
        i <= s@.len(),
    ensures
        r matches Some((bs, j)) ==> spec_parse_multi_items(s@, i as int) == Some(
            (Seq::new(bs@.len(), |k: int| bs@[k]@), j as int),
        ) && i < j <= s@.len(),
        r is None ==> spec_parse_multi_items(s@, i as int) is None,
    decreases s@.len() - i,
{
    match parse_multi_content(s, i) {
        Some((b, p)) => {
            let q = skip_ws(s, p);
            if q < s.len() {
                if s[q] == ']' {
                    let mut out: Vec<MultiContent> = Vec::new();
                    out.push(b);
                    proof {
                        assert(Seq::new(out@.len(), |k: int| out@[k]@) =~= seq![b@]);
                    }
                    Some((out, q + 1))
                } else if s[q] == ',' {
                    let r2 = skip_ws(s, q + 1);
                    match parse_multi_items(s, r2) {
                        Some((rest, e)) => {
                            let ghost rv = rest@;
                            let mut out = rest;
                            out.insert(0, b);
                            proof {
                                assert(out@ =~= seq![b] + rv);
                                assert(Seq::new(out@.len(), |k: int| out@[k]@) =~= seq![b@]
                                    + Seq::new(rv.len(), |k: int| rv[k]@));
                            }
                            Some((out, e))
                        },
                        None => None,
                    }
                } else {
                    None
                }
            } else {
                None
            }
        },
        None => None,
    }
}

// ---------------------------------------------------------------------------
// Capability invocations
// ---------------------------------------------------------------------------

pub ghost struct FunctionCallPartial {
    pub name: Option<Seq<char>>,
    pub arguments: Option<Seq<char>>,
}

pub struct FunctionCallPartialExec {
    pub name: Option<String>,
    pub arguments: Option<String>,
}

impl View for FunctionCallPartialExec {
    type V = FunctionCallPartial;

    open spec fn view(&self) -> FunctionCallPartial {
        FunctionCallPartial { name: ov_str(self.name), arguments: ov_str(self.arguments) }
    }
}

/// A finished function descriptor requires `name` and `arguments`.
pub open spec fn spec_function_call_finalize(acc: FunctionCallPartial) -> Option<
    (Seq<char>, Seq<char>),
> {
    match (acc.name, acc.arguments) {
        (Some(n), Some(a)) => Some((n, a)),
        _ => None,
    }
}

/// Members of the function descriptor inside a capability invocation.
pub open spec fn spec_parse_function_call_fields(
    s: Seq<char>,
    i: int,
    acc: FunctionCallPartial,
) -> Option<((Seq<char>, Seq<char>), int)>
    decreases s.len() - i,
{
    match spec_parse_string(s, i) {
        Some((key, p)) => {
            let q = spec_skip_ws(s, p);
            if q < s.len() && s[q] == ':' {
                let r2 = spec_skip_ws(s, q + 1);
                let stepped = if key == "name"@ {
                    if acc.name is Some {
                        None
                    } else {
                        match spec_parse_string(s, r2) {
                            Some((t, p2)) => Some(
                                (FunctionCallPartial { name: Some(t), ..acc }, p2),
                            ),
                            None => None,
                        }
                    }
                } else if key == "arguments"@ {
                    if acc.arguments is Some {
                        None
                    } else {
                        match spec_parse_string(s, r2) {
                            Some((t, p2)) => Some(
                                (FunctionCallPartial { arguments: Some(t), ..acc }, p2),
                            ),
                            None => None,
                        }
                    }
                } else {
                    match spec_skip_value(s, r2) {
                        Some(p2) => Some((acc, p2)),
                        None => None,
                    }
                };
                match stepped {
                    Some((acc2, p2)) => {
                        let q2 = spec_skip_ws(s, p2);
                        if q2 < s.len() {
                            if s[q2] == '}' {
                                match spec_function_call_finalize(acc2) {
                                    Some(f) => Some((f, q2 + 1)),
                                    None => None,
                                }
                            } else if s[q2] == ',' {
                                let r3 = spec_skip_ws(s, q2 + 1);
                                if i < r3 && r3 <= s.len() {
                                    spec_parse_function_call_fields(s, r3, acc2)
                                } else {
                                    None
                                }
                            } else {
                                None
                            }
                        } else {
                            None
                        }
                    },
                    None => None,
                }
            } else {
                None
            }
        },
        None => None,
    }
}

/// The function descriptor object at `i`: name and argument text.
pub open spec fn spec_parse_function_call(s: Seq<char>, i: int) -> Option<
    ((Seq<char>, Seq<char>), int),
> {
    if 0 <= i && i < s.len() && s[i] == '{' {
        let j = spec_skip_ws(s, i + 1);
        if j < s.len() {
            if s[j] == '}' {
                None
            } else {
                spec_parse_function_call_fields(
                    s,
                    j,
                    FunctionCallPartial { name: None, arguments: None },
                )
            }
        } else {
            None
        }
    } else {
        None
    }
}

fn parse_function_call_fields(s: &Vec<char>, i: usize, acc: FunctionCallPartialExec) -> (r: Option<
    (FunctionCall, usize),
>)
    requires
        i <= s@.len(),
    ensures
        r matches Some((f, j)) ==> spec_parse_function_call_fields(s@, i as int, acc@) == Some(
            ((f.name@, f.arguments@), j as int),
        ) && i < j <= s@.len(),
        r is None ==> spec_parse_function_call_fields(s@, i as int, acc@) is None,
    decreases s@.len() - i,
{
    match parse_string(s, i) {
        Some((key, p)) => {
            let q = skip_ws(s, p);
            if q < s.len() && s[q] == ':' {
                let r2 = skip_ws(s, q + 1);
                let stepped: Option<(FunctionCallPartialExec, usize)> = if str_eq(
                    key.as_str(),
                    "name",
                ) {
                    if acc.name.is_some() {
                        None
                    } else {
                        match parse_string(s, r2) {
                            Some((t, p2)) => Some(
                                (FunctionCallPartialExec { name: Some(t), ..acc }, p2),
                            ),
                            None => None,
                        }
                    }
                } else if str_eq(key.as_str(), "arguments") {
                    if acc.arguments.is_some() {
                        None
                    } else {
                        match parse_string(s, r2) {
                            Some((t, p2)) => Some(
                                (FunctionCallPartialExec { arguments: Some(t), ..acc }, p2),
                            ),
                            None => None,
                        }
                    }
                } else {
                    match skip_value(s, r2) {
                        Some(p2) => Some((acc, p2)),
                        None => None,
                    }
                };
                match stepped {
                    Some((acc2, p2)) => {
                        let q2 = skip_ws(s, p2);
                        if q2 < s.len() {
                            if s[q2] == '}' {
                                match (acc2.name, acc2.arguments) {
                                    (Some(n), Some(a)) => Some(
                                        (FunctionCall { name: n, arguments: a }, q2 + 1),
                                    ),
                                    _ => None,
                                }
                            } else if s[q2] == ',' {
                                let r3 = skip_ws(s, q2 + 1);
                                parse_function_call_fields(s, r3, acc2)
                            } else {
                                None
                            }
                        } else {
                            None
                        }
                    },
                    None => None,
                }
            } else {
                None
            }
        },
        None => None,
    }
}

/// The function descriptor object at `i`.
pub fn parse_function_call(s: &Vec<char>, i: usize) -> (r: Option<(FunctionCall, usize)>)
    requires
        i <= s@.len(),
    ensures
        r matches Some((f, j)) ==> spec_parse_function_call(s@, i as int) == Some(
            ((f.name@, f.arguments@), j as int),
        ) && i < j <= s@.len(),
        r is None ==> spec_parse_function_call(s@, i as int) is None,
{
    if i < s.len() && s[i] == '{' {
        let j = skip_ws(s, i + 1);
        if j < s.len() {
            if s[j] == '}' {
                None
            } else {
                parse_function_call_fields(
                    s,
                    j,
                    FunctionCallPartialExec { name: None, arguments: None },
                )
            }
        } else {
            None
        }
    } else {
        None
    }
}

pub ghost struct ToolCallPartial {
    pub id: Option<Seq<char>>,
    pub type_: Option<Seq<char>>,
    pub function: Option<(Seq<char>, Seq<char>)>,
}

pub struct ToolCallPartialExec {
    pub id: Option<String>,
    pub type_: Option<String>,
    pub function: Option<FunctionCall>,
}

impl View for ToolCallPartialExec {
    type V = ToolCallPartial;

    open spec fn view(&self) -> ToolCallPartial {
        ToolCallPartial {
            id: ov_str(self.id),
            type_: ov_str(self.type_),
            function: match self.function {
                Some(f) => Some((f.name@, f.arguments@)),
                None => None,
            },
        }
    }
}

/// A finished capability invocation requires `id`, `type` and `function`.
pub open spec fn spec_tool_call_finalize(acc: ToolCallPartial) -> Option<ToolCallView> {
    match (acc.id, acc.type_, acc.function) {
        (Some(id), Some(t), Some((n, a))) => Some(
            ToolCallView { id: id, type_: t, name: n, arguments: a },
        ),
        _ => None,
    }
}

/// Members of a capability invocation object.
pub open spec fn spec_parse_tool_call_fields(s: Seq<char>, i: int, acc: ToolCallPartial) -> Option<
    (ToolCallView, int),
>
    decreases s.len() - i,
{
    match spec_parse_string(s, i) {
        Some((key, p)) => {
            let q = spec_skip_ws(s, p);
            if q < s.len() && s[q] == ':' {
                let r2 = spec_skip_ws(s, q + 1);
                let stepped = if key == "id"@ {
                    if acc.id is Some {
                        None
                    } else {
                        match spec_parse_string(s, r2) {
                            Some((t, p2)) => Some((ToolCallPartial { id: Some(t), ..acc }, p2)),
                            None => None,
                        }
                    }
                } else if key == "type"@ {
                    if acc.type_ is Some {
                        None
                    } else {
                        match spec_parse_string(s, r2) {
                            Some((t, p2)) => Some((ToolCallPartial { type_: Some(t), ..acc }, p2)),
                            None => None,
                        }
                    }
                } else if key == "function"@ {
                    if acc.function is Some {
                        None
                    } else {
                        match spec_parse_function_call(s, r2) {
                            Some((f, p2)) => Some(
                                (ToolCallPartial { function: Some(f), ..acc }, p2),
                            ),
                            None => None,
                        }
                    }
                } else {
                    match spec_skip_value(s, r2) {
                        Some(p2) => Some((acc, p2)),
                        None => None,
                    }
                };
                match stepped {
                    Some((acc2, p2)) => {
                        let q2 = spec_skip_ws(s, p2);
                        if q2 < s.len() {
                            if s[q2] == '}' {
                                match spec_tool_call_finalize(acc2) {
                                    Some(t) => Some((t, q2 + 1)),
                                    None => None,
                                }
                            } else if s[q2] == ',' {
                                let r3 = spec_skip_ws(s, q2 + 1);
                                if i < r3 && r3 <= s.len() {
                                    spec_parse_tool_call_fields(s, r3, acc2)
                                } else {
                                    None
                                }
                            } else {
                                None
                            }
                        } else {
                            None
                        }
                    },
                    None => None,
                }
            } else {
                None
            }
        },
        None => None,
    }
}

/// One capability invocation object at `i`.
pub open spec fn spec_parse_tool_call(s: Seq<char>, i: int) -> Option<(ToolCallView, int)> {
    if 0 <= i && i < s.len() && s[i] == '{' {
        let j = spec_skip_ws(s, i + 1);
        if j < s.len() {
            if s[j] == '}' {
                None
            } else {
                spec_parse_tool_call_fields(
                    s,
                    j,
                    ToolCallPartial { id: None, type_: None, function: None },
                )
            }
        } else {
            None
        }
    } else {
        None
    }
}

fn parse_tool_call_fields(s: &Vec<char>, i: usize, acc: ToolCallPartialExec) -> (r: Option<
    (ToolCall, usize),
>)
    requires
        i <= s@.len(),
    ensures
        r matches Some((t, j)) ==> spec_parse_tool_call_fields(s@, i as int, acc@) == Some(
            (t@, j as int),
        ) && i < j <= s@.len(),
        r is None ==> spec_parse_tool_call_fields(s@, i as int, acc@) is None,
    decreases s@.len() - i,
{
    match parse_string(s, i) {
        Some((key, p)) => {
            let q = skip_ws(s, p);
            if q < s.len() && s[q] == ':' {
                let r2 = skip_ws(s, q + 1);
                let stepped: Option<(ToolCallPartialExec, usize)> = if str_eq(key.as_str(), "id") {
                    if acc.id.is_some() {
                        None
                    } else {
                        match parse_string(s, r2) {
                            Some((t, p2)) => Some((ToolCallPartialExec { id: Some(t), ..acc }, p2)),
                            None => None,
                        }
                    }
                } else if str_eq(key.as_str(), "type") {
                    if acc.type_.is_some() {
                        None
                    } else {
                        match parse_string(s, r2) {
                            Some((t, p2)) => Some(
                                (ToolCallPartialExec { type_: Some(t), ..acc }, p2),
                            ),
                            None => None,
                        }
                    }
                } else if str_eq(key.as_str(), "function") {
                    if acc.function.is_some() {
                        None
                    } else {
                        match parse_function_call(s, r2) {
                            Some((f, p2)) => Some(
                                (ToolCallPartialExec { function: Some(f), ..acc }, p2),
                            ),
                            None => None,
                        }
                    }
                } else {
                    match skip_value(s, r2) {
                        Some(p2) => Some((acc, p2)),
                        None => None,
                    }
                };
                match stepped {
                    Some((acc2, p2)) => {
                        let q2 = skip_ws(s, p2);
                        if q2 < s.len() {
                            if s[q2] == '}' {
                                match (acc2.id, acc2.type_, acc2.function) {
                                    (Some(id), Some(t), Some(f)) => Some(
                                        (ToolCall { id: id, type_: t, function: f }, q2 + 1),
                                    ),
                                    _ => None,
                                }
                            } else if s[q2] == ',' {
                                let r3 = skip_ws(s, q2 + 1);
                                parse_tool_call_fields(s, r3, acc2)
                            } else {
                                None
                            }
                        } else {
                            None
                        }
                    },
                    None => None,
                }
            } else {
                None
            }
        },
        None => None,
    }
}

/// One capability invocation object at `i`.
pub fn parse_tool_call(s: &Vec<char>, i: usize) -> (r: Option<(ToolCall, usize)>)
    requires
        i <= s@.len(),
    ensures
        r matches Some((t, j)) ==> spec_parse_tool_call(s@, i as int) == Some((t@, j as int)) && i
            < j <= s@.len(),
        r is None ==> spec_parse_tool_call(s@, i as int) is None,
{
    if i < s.len() && s[i] == '{' {
        let j = skip_ws(s, i + 1);
        if j < s.len() {
            if s[j] == '}' {
                None
            } else {
                parse_tool_call_fields(
                    s,
                    j,
                    ToolCallPartialExec { id: None, type_: None, function: None },
                )
            }
        } else {
            None
        }
    } else {
        None
    }
}

/// The capability invocations of an array whose first item starts at `i`.
pub open spec fn spec_parse_tool_call_items(s: Seq<char>, i: int) -> Option<
    (Seq<ToolCallView>, int),
>
    decreases s.len() - i,
{
    match spec_parse_tool_call(s, i) {
        Some((t, p)) => {
            let q = spec_skip_ws(s, p);
            if i < q && q < s.len() {
                if s[q] == ']' {
                    Some((seq![t], q + 1))
                } else if s[q] == ',' {
                    let r2 = spec_skip_ws(s, q + 1);
                    if i < r2 && r2 <= s.len() {
                        match spec_parse_tool_call_items(s, r2) {
                            Some((rest, e)) => Some((seq![t] + rest, e)),
                            None => None,
                        }
                    } else {
                        None
                    }
                } else {
                    None
                }
            } else {
                None
            }
        },
        None => None,
    }
}

/// The capability invocations of an array whose first item starts at `i`.
pub fn parse_tool_call_items(s: &Vec<char>, i: usize) -> (r: Option<(Vec<ToolCall>, usize)>)
    requires
        i <= s@.len(),
    ensures
        r matches Some((ts, j)) ==> spec_parse_tool_call_items(s@, i as int) == Some(
            (Seq::new(ts@.len(), |k: int| ts@[k]@), j as int),
        ) && i < j <= s@.len(),
        r is None ==> spec_parse_tool_call_items(s@, i as int) is None,
    decreases s@.len() - i,
{
    match parse_tool_call(s, i) {
        Some((t, p)) => {
            let q = skip_ws(s, p);
            if q < s.len() {
                if s[q] == ']' {
                    let mut out: Vec<ToolCall> = Vec::new();
                    out.push(t);
                    proof {
                        assert(Seq::new(out@.len(), |k: int| out@[k]@) =~= seq![t@]);
                    }
                    Some((out, q + 1))
                } else if s[q] == ',' {
                    let r2 = skip_ws(s, q + 1);
                    match parse_tool_call_items(s, r2) {
                        Some((rest, e)) => {
                            let ghost rv = rest@;
                            let mut out = rest;
                            out.insert(0, t);
                            proof {
                                assert(out@ =~= seq![t] + rv);
                                assert(Seq::new(out@.len(), |k: int| out@[k]@) =~= seq![t@]
                                    + Seq::new(rv.len(), |k: int| rv[k]@));
                            }
                            Some((out, e))
                        },
                        None => None,
                    }
                } else {
                    None
                }
            } else {
                None
            }
        },
        None => None,
    }
}

// ---------------------------------------------------------------------------
// Messages
// ---------------------------------------------------------------------------

pub open spec fn ov_multis(o: Option<Vec<MultiContent>>) -> Option<Seq<MultiContentView>> {
    match o {
        Some(v) => Some(Seq::new(v@.len(), |k: int| v@[k]@)),
        None => None,
    }
}

pub open spec fn ov_calls(o: Option<Vec<ToolCall>>) -> Option<Seq<ToolCallView>> {
    match o {
        Some(v) => Some(Seq::new(v@.len(), |k: int| v@[k]@)),
        None => None,
    }
}

pub ghost struct MessagePartial {
    pub role: Option<Role>,
    pub content: Option<Seq<char>>,
    pub multi_content: Option<Seq<MultiContentView>>,
    pub tool_calls: Option<Seq<ToolCallView>>,
    pub tool_call_id: Option<Seq<char>>,
    pub name: Option<Seq<char>>,
}

pub struct MessagePartialExec {
    pub role: Option<Role>,
    pub content: Option<String>,
    pub multi_content: Option<Vec<MultiContent>>,
    pub tool_calls: Option<Vec<ToolCall>>,
    pub tool_call_id: Option<String>,
    pub name: Option<String>,
}

impl View for MessagePartialExec {
    type V = MessagePartial;

    open spec fn view(&self) -> MessagePartial {
        MessagePartial {
            role: self.role,
            content: ov_str(self.content),
            multi_content: ov_multis(self.multi_content),
            tool_calls: ov_calls(self.tool_calls),
            tool_call_id: ov_str(self.tool_call_id),
            name: ov_str(self.name),
        }
    }
}

/// A finished message requires its `role` member.
pub open spec fn spec_message_finalize(acc: MessagePartial) -> Option<MessageView> {
    match acc.role {
        Some(role) => Some(
            MessageView {
                role: role,
                content: acc.content,
                multi_content: acc.multi_content,
                tool_calls: acc.tool_calls,
                tool_call_id: acc.tool_call_id,
                name: acc.name,
            },
        ),
        None => None,
    }
}

/// The value of a `content` member: a string yields string content, an
/// array yields multipart content, `null` leaves both empty.
pub open spec fn spec_parse_content_value(s: Seq<char>, i: int, acc: MessagePartial) -> Option<
    (MessagePartial, int),
> {
    if acc.content is Some || acc.multi_content is Some {
        None
    } else {
        match spec_try_null(s, i) {
            Some(p2) => Some((acc, p2)),
            None => if 0 <= i && i < s.len() && s[i] == '"' {
                match spec_parse_string(s, i) {
                    Some((t, p2)) => Some((MessagePartial { content: Some(t), ..acc }, p2)),
                    None => None,
                }
            } else if 0 <= i && i < s.len() && s[i] == '[' {
                let j2 = spec_skip_ws(s, i + 1);
                if j2 < s.len() {
                    if s[j2] == ']' {
                        Some((MessagePartial { multi_content: Some(Seq::empty()), ..acc }, j2 + 1))
                    } else {
                        match spec_parse_multi_items(s, j2) {
                            Some((bs, p2)) => Some(
                                (MessagePartial { multi_content: Some(bs), ..acc }, p2),
                            ),
                            None => None,
                        }
                    }
                } else {
                    None
                }
            } else {
                None
            },
        }
    }
}

/// The value of a `tool_calls` member: an array of capability invocations,
/// or `null` for none.
pub open spec fn spec_parse_tool_calls_value(s: Seq<char>, i: int, acc: MessagePartial) -> Option<
    (MessagePartial, int),
> {
    if acc.tool_calls is Some {
        None
    } else {
        match spec_try_null(s, i) {
            Some(p2) => Some((acc, p2)),
            None => if 0 <= i && i < s.len() && s[i] == '[' {
                let j2 = spec_skip_ws(s, i + 1);
                if j2 < s.len() {
                    if s[j2] == ']' {
                        Some((MessagePartial { tool_calls: Some(Seq::empty()), ..acc }, j2 + 1))
                    } else {
                        match spec_parse_tool_call_items(s, j2) {
                            Some((ts, p2)) => Some(
                                (MessagePartial { tool_calls: Some(ts), ..acc }, p2),
                            ),
                            None => None,
                        }
                    }
                } else {
                    None
                }
            } else {
                None
            },
        }
    }
}

/// Members of a message object.
pub open spec fn spec_parse_message_fields(s: Seq<char>, i: int, acc: MessagePartial) -> Option<
    (MessageView, int),
>
    decreases s.len() - i,
{
    match spec_parse_string(s, i) {
        Some((key, p)) => {
            let q = spec_skip_ws(s, p);
            if q < s.len() && s[q] == ':' {
                let r2 = spec_skip_ws(s, q + 1);
                let stepped = if key == "role"@ {
                    if acc.role is Some {
                        None
                    } else {
                        match spec_parse_role(s, r2) {
                            Some((role, p2)) => Some((MessagePartial { role: Some(role), ..acc }, p2)),
                            None => None,
                        }
                    }
                } else if key == "content"@ {
                    spec_parse_content_value(s, r2, acc)
                } else if key == "tool_calls"@ {
                    spec_parse_tool_calls_value(s, r2, acc)
                } else if key == "tool_call_id"@ {
                    if acc.tool_call_id is Some {
                        None
                    } else {
                        match spec_try_null(s, r2) {
                            Some(p2) => Some((acc, p2)),
                            None => match spec_parse_string(s, r2) {
                                Some((t, p2)) => Some(
                                    (MessagePartial { tool_call_id: Some(t), ..acc }, p2),
                                ),
                                None => None,
                            },
                        }
                    }
                } else if key == "name"@ {
                    if acc.name is Some {
                        None
                    } else {
                        match spec_try_null(s, r2) {
                            Some(p2) => Some((acc, p2)),
                            None => match spec_parse_string(s, r2) {
                                Some((t, p2)) => Some((MessagePartial { name: Some(t), ..acc }, p2)),
                                None => None,
                            },
                        }
                    }
                } else {
                    match spec_skip_value(s, r2) {
                        Some(p2) => Some((acc, p2)),
                        None => None,
                    }
                };
                match stepped {
                    Some((acc2, p2)) => {
                        let q2 = spec_skip_ws(s, p2);
                        if q2 < s.len() {
                            if s[q2] == '}' {
                                match spec_message_finalize(acc2) {
                                    Some(m) => Some((m, q2 + 1)),
                                    None => None,
                                }
                            } else if s[q2] == ',' {
                                let r3 = spec_skip_ws(s, q2 + 1);
                                if i < r3 && r3 <= s.len() {
                                    spec_parse_message_fields(s, r3, acc2)
                                } else {
                                    None
                                }
                            } else {
                                None
                            }
                        } else {
                            None
                        }
                    },
                    None => None,
                }
            } else {
                None
            }
        },
        None => None,
    }
}

/// One message object at `i`.
pub open spec fn spec_parse_message(s: Seq<char>, i: int) -> Option<(MessageView, int)> {
    if 0 <= i && i < s.len() && s[i] == '{' {
        let j = spec_skip_ws(s, i + 1);
        if j < s.len() {
            if s[j] == '}' {
                None
            } else {
                spec_parse_message_fields(
                    s,
                    j,
                    MessagePartial {
                        role: None,
                        content: None,
                        multi_content: None,
                        tool_calls: None,
                        tool_call_id: None,
                        name: None,
                    },
                )
            }
        } else {
            None
        }
    } else {
        None
    }
}

/// One message as a whole document, with surrounding whitespace.
pub open spec fn spec_parse_message_doc(s: Seq<char>) -> Option<MessageView> {
    let i = spec_skip_ws(s, 0);
    match spec_parse_message(s, i) {
        Some((m, p)) => if spec_skip_ws(s, p) == s.len() {
            Some(m)
        } else {
            None
        },
        None => None,
    }
}

fn parse_content_value(s: &Vec<char>, i: usize, acc: MessagePartialExec) -> (r: Option<
    (MessagePartialExec, usize),
>)
    requires
        i <= s@.len(),
    ensures
        r matches Some((a, j)) ==> spec_parse_content_value(s@, i as int, acc@) == Some(
            (a@, j as int),
        ) && i < j <= s@.len(),
        r is None ==> spec_parse_content_value(s@, i as int, acc@) is None,
{
    if acc.content.is_some() || acc.multi_content.is_some() {
        return None;
    }
    match try_null(s, i) {
        Some(p2) => Some((acc, p2)),
        None => {
            if i < s.len() && s[i] == '"' {
                match parse_string(s, i) {
                    Some((t, p2)) => Some((MessagePartialExec { content: Some(t), ..acc }, p2)),
                    None => None,
                }
            } else if i < s.len() && s[i] == '[' {
                let j2 = skip_ws(s, i + 1);
                if j2 < s.len() {
                    if s[j2] == ']' {
                        let empty: Vec<MultiContent> = Vec::new();
                        proof {
                            assert(Seq::new(empty@.len(), |k: int| empty@[k]@)
                                =~= Seq::<MultiContentView>::empty());
                        }
                        Some((MessagePartialExec { multi_content: Some(empty), ..acc }, j2 + 1))
                    } else {
                        match parse_multi_items(s, j2) {
                            Some((bs, p2)) => Some(
                                (MessagePartialExec { multi_content: Some(bs), ..acc }, p2),
                            ),
                            None => None,
                        }
                    }
                } else {
                    None
                }
            } else {
                None
            }
        },
    }
}

fn parse_tool_calls_value(s: &Vec<char>, i: usize, acc: MessagePartialExec) -> (r: Option<
    (MessagePartialExec, usize),
>)
    requires
        i <= s@.len(),
    ensures
        r matches Some((a, j)) ==> spec_parse_tool_calls_value(s@, i as int, acc@) == Some(
            (a@, j as int),
        ) && i < j <= s@.len(),
        r is None ==> spec_parse_tool_calls_value(s@, i as int, acc@) is None,
{
    if acc.tool_calls.is_some() {
        return None;
    }
    match try_null(s, i) {
        Some(p2) => Some((acc, p2)),
        None => {
            if i < s.len() && s[i] == '[' {
                let j2 = skip_ws(s, i + 1);
                if j2 < s.len() {
                    if s[j2] == ']' {
                        let empty: Vec<ToolCall> = Vec::new();
                        proof {
                            assert(Seq::new(empty@.len(), |k: int| empty@[k]@)
                                =~= Seq::<ToolCallView>::empty());
                        }
                        Some((MessagePartialExec { tool_calls: Some(empty), ..acc }, j2 + 1))
                    } else {
                        match parse_tool_call_items(s, j2) {
                            Some((ts, p2)) => Some(
                                (MessagePartialExec { tool_calls: Some(ts), ..acc }, p2),
                            ),
                            None => None,
                        }
                    }
                } else {
                    None
                }
            } else {
                None
            }
        },
    }
}

fn message_finalize(acc: MessagePartialExec) -> (r: Option<Message>)
    ensures
        r matches Some(m) ==> spec_message_finalize(acc@) == Some(m@),
        r is None ==> spec_message_finalize(acc@) is None,
{
    match acc.role {
        Some(role) => Some(
            Message {
                role: role,
                content: acc.content,
                multi_content: acc.multi_content,
                tool_calls: acc.tool_calls,
                tool_call_id: acc.tool_call_id,
                name: acc.name,
            },
        ),
        None => None,
    }
}

fn parse_message_fields(s: &Vec<char>, i: usize, acc: MessagePartialExec) -> (r: Option<
    (Message, usize),
>)
    requires
        i <= s@.len(),
    ensures
        r matches Some((m, j)) ==> spec_parse_message_fields(s@, i as int, acc@) == Some(
            (m@, j as int),
        ) && i < j <= s@.len(),
        r is None ==> spec_parse_message_fields(s@, i as int, acc@) is None,
    decreases s@.len() - i,
{
    match parse_string(s, i) {
        Some((key, p)) => {
            let q = skip_ws(s, p);
            if q < s.len() && s[q] == ':' {
                let r2 = skip_ws(s, q + 1);
                let stepped: Option<(MessagePartialExec, usize)> = if str_eq(key.as_str(), "role") {
                    if acc.role.is_some() {
                        None
                    } else {
                        match parse_role(s, r2) {
                            Some((role, p2)) => Some(
                                (MessagePartialExec { role: Some(role), ..acc }, p2),
                            ),
                            None => None,
                        }
                    }
                } else if str_eq(key.as_str(), "content") {
                    parse_content_value(s, r2, acc)
                } else if str_eq(key.as_str(), "tool_calls") {
                    parse_tool_calls_value(s, r2, acc)
                } else if str_eq(key.as_str(), "tool_call_id") {
                    if acc.tool_call_id.is_some() {
                        None
                    } else {
                        match try_null(s, r2) {
                            Some(p2) => Some((acc, p2)),
                            None => match parse_string(s, r2) {
                                Some((t, p2)) => Some(
                                    (MessagePartialExec { tool_call_id: Some(t), ..acc }, p2),
                                ),
                                None => None,
                            },
                        }
                    }
                } else if str_eq(key.as_str(), "name") {
                    if acc.name.is_some() {
                        None
                    } else {
                        match try_null(s, r2) {
                            Some(p2) => Some((acc, p2)),
                            None => match parse_string(s, r2) {
                                Some((t, p2)) => Some(
                                    (MessagePartialExec { name: Some(t), ..acc }, p2),
                                ),
                                None => None,
                            },
                        }
                    }
                } else {
                    match skip_value(s, r2) {
                        Some(p2) => Some((acc, p2)),
                        None => None,
                    }
                };
                match stepped {
                    Some((acc2, p2)) => {
                        let q2 = skip_ws(s, p2);
                        if q2 < s.len() {
                            if s[q2] == '}' {
                                match message_finalize(acc2) {
                                    Some(m) => Some((m, q2 + 1)),
                                    None => None,
                                }
                            } else if s[q2] == ',' {
                                let r3 = skip_ws(s, q2 + 1);
                                parse_message_fields(s, r3, acc2)
                            } else {
                                None
                            }
                        } else {
                            None
                        }
                    },
                    None => None,
                }
            } else {
                None
            }
        },
        None => None,
    }
}

/// One message object at `i`.
pub fn parse_message(s: &Vec<char>, i: usize) -> (r: Option<(Message, usize)>)
    requires
        i <= s@.len(),
    ensures
        r matches Some((m, j)) ==> spec_parse_message(s@, i as int) == Some((m@, j as int)) && i
            < j <= s@.len(),
        r is None ==> spec_parse_message(s@, i as int) is None,
{
    if i < s.len() && s[i] == '{' {
        let j = skip_ws(s, i + 1);
        if j < s.len() {
            if s[j] == '}' {
                None
            } else {
                parse_message_fields(
                    s,
                    j,
                    MessagePartialExec {
                        role: None,
                        content: None,
                        multi_content: None,
                        tool_calls: None,
                        tool_call_id: None,
                        name: None,
                    },
                )
            }
        } else {
            None
        }
    } else {
        None
    }
}

/// One message as a whole document, with surrounding whitespace.
pub fn message_from_json(s: &str) -> (r: Option<Message>)
    ensures
        r matches Some(m) ==> spec_parse_message_doc(s@) == Some(m@),
        r is None ==> spec_parse_message_doc(s@) is None,
{
    let chars = crate::text::string_to_chars(s);
    let i = skip_ws(&chars, 0);
    match parse_message(&chars, i) {
        Some((m, p)) => {
            let e = skip_ws(&chars, p);
            if e == chars.len() {
                Some(m)
            } else {
                None
            }
        },
        None => None,
    }
}

} // verus!
