//! Serialization of protocol values to JSON wire text.
//!
//! Each `spec` function gives the exact character sequence produced; each
//! executable emitter is proved to produce it. Messages emit their string
//! content when it is present and their multipart content otherwise, so the
//! two forms can never appear together on the wire.

use vstd::prelude::*;
use crate::dtos::{
    CompletionRequest, CompletionRequestView, ImageUrl, Message, MessageView, MultiContent,
    MultiContentView, Role, Tool, ToolCall, ToolCallView, ToolView,
};
use crate::text::push_char;

verus! {

// ---------------------------------------------------------------------------
// Specification: characters and strings
// ---------------------------------------------------------------------------

/// Hexadecimal digit for a value below 16, lower case.
pub open spec fn hex_digit(n: int) -> char {
    if n == 0 { '0' } else if n == 1 { '1' } else if n == 2 { '2' } else if n == 3 { '3' }
    else if n == 4 { '4' } else if n == 5 { '5' } else if n == 6 { '6' } else if n == 7 { '7' }
    else if n == 8 { '8' } else if n == 9 { '9' } else if n == 10 { 'a' } else if n == 11 { 'b' }
    else if n == 12 { 'c' } else if n == 13 { 'd' } else if n == 14 { 'e' } else { 'f' }
}

/// JSON escape of a single character: quote, backslash and the common control
/// characters get two-character escapes, other control characters get a
/// `\u00XX` escape, everything else stands for itself.
pub open spec fn escape_char(c: char) -> Seq<char> {
    if c == '"' {
        seq!['\\', '"']
    } else if c == '\\' {
        seq!['\\', '\\']
    } else if c == '\n' {
        seq!['\\', 'n']
    } else if c == '\r' {
        seq!['\\', 'r']
    } else if c == '\t' {
        seq!['\\', 't']
    } else if (c as u32) < 0x20 {
        seq!['\\', 'u', '0', '0', hex_digit((c as u32) as int / 16), hex_digit((c as u32) as int % 16)]
    } else {
        seq![c]
    }
}

pub open spec fn escape_string(s: Seq<char>) -> Seq<char>
    decreases s.len(),
{
    if s.len() == 0 {
        Seq::empty()
    } else {
        escape_char(s[0]) + escape_string(s.drop_first())
    }
}

/// A JSON string literal: quoted and escaped.
pub open spec fn write_string(s: Seq<char>) -> Seq<char> {
    seq!['"'] + escape_string(s) + seq!['"']
}

pub proof fn lemma_escape_push(s: Seq<char>, c: char)
    ensures
        escape_string(s.push(c)) == escape_string(s) + escape_char(c),
    decreases s.len(),
{
    if s.len() == 0 {
        assert(s.push(c)[0] == c);
        assert(s.push(c).drop_first() =~= Seq::<char>::empty());
        assert(escape_string(Seq::<char>::empty()) =~= Seq::<char>::empty());
        assert(escape_string(s.push(c)) =~= escape_char(c) + Seq::<char>::empty());
        assert(escape_char(c) + Seq::<char>::empty() =~= escape_char(c));
        assert(escape_string(s) + escape_char(c) =~= escape_char(c));
    } else {
        assert(s.push(c)[0] == s[0]);
        assert(s.push(c).drop_first() =~= s.drop_first().push(c));
        lemma_escape_push(s.drop_first(), c);
        assert(escape_string(s.push(c)) =~= escape_string(s) + escape_char(c));
    }
}

// ---------------------------------------------------------------------------
// Specification: numbers
// ---------------------------------------------------------------------------

pub open spec fn digit_of(n: int) -> char {
    hex_digit(if 0 <= n < 10 { n } else { 0 })
}

/// Decimal digits of `n`, most significant first.
pub open spec fn write_u64(n: u64) -> Seq<char>
    decreases n,
{
    if n < 10 {
        seq![digit_of(n as int)]
    } else {
        write_u64((n / 10) as u64) + seq![digit_of((n % 10) as int)]
    }
}

/// A quantity in thousandths written as a decimal number with trailing
/// zeros of the fraction removed: `700` is `0.7`, `1000` is `1`, `50` is
/// `0.05`.
pub open spec fn write_milli(m: u32) -> Seq<char> {
    let whole = (m / 1000) as u64;
    let frac = m % 1000;
    if frac == 0 {
        write_u64(whole)
    } else {
        let d1 = digit_of((frac / 100) as int);
        let d2 = digit_of(((frac / 10) % 10) as int);
        let d3 = digit_of((frac % 10) as int);
        if frac % 10 != 0 {
            write_u64(whole) + seq!['.', d1, d2, d3]
        } else if (frac / 10) % 10 != 0 {
            write_u64(whole) + seq!['.', d1, d2]
        } else {
            write_u64(whole) + seq!['.', d1]
        }
    }
}

pub open spec fn write_bool(b: bool) -> Seq<char> {
    if b {
        "true"@
    } else {
        "false"@
    }
}

// ---------------------------------------------------------------------------
// Specification: protocol values
// ---------------------------------------------------------------------------

pub open spec fn write_role(r: Role) -> Seq<char> {
    match r {
        Role::SYSTEM => "\"system\""@,
        Role::USER => "\"user\""@,
        Role::ASSISTANT => "\"assistant\""@,
        Role::TOOL => "\"tool\""@,
    }
}

/// Comma-separated concatenation of already-written segments.
pub open spec fn join_comma(segs: Seq<Seq<char>>) -> Seq<char>
    decreases segs.len(),
{
    if segs.len() == 0 {
        Seq::empty()
    } else if segs.len() == 1 {
        segs[0]
    } else {
        segs[0] + seq![','] + join_comma(segs.drop_first())
    }
}

pub proof fn lemma_join_comma_push(segs: Seq<Seq<char>>, x: Seq<char>)
    ensures
        join_comma(segs.push(x)) == if segs.len() == 0 {
            x
        } else {
            join_comma(segs) + seq![','] + x
        },
    decreases segs.len(),
{
    if segs.len() == 0 {
        assert(segs.push(x).len() == 1);
        assert(segs.push(x)[0] == x);
    } else if segs.len() == 1 {
        assert(segs.push(x)[0] == segs[0]);
        assert(segs.push(x).drop_first() =~= segs.drop_first().push(x));
        assert(segs.push(x).drop_first() =~= seq![x]);
        assert(seq![x][0] == x);
        assert(join_comma(seq![x]) == x);
        assert(join_comma(segs.push(x)) =~= segs[0] + seq![','] + x);
        assert(join_comma(segs) + seq![','] + x =~= segs[0] + seq![','] + x);
    } else {
        assert(segs.push(x)[0] == segs[0]);
        assert(segs.push(x).drop_first() =~= segs.drop_first().push(x));
        lemma_join_comma_push(segs.drop_first(), x);
        assert(join_comma(segs.push(x)) =~= join_comma(segs) + seq![','] + x);
    }
}

pub open spec fn write_image_url(u: Seq<char>) -> Seq<char> {
    "{\"url\":"@ + write_string(u) + "}"@
}

pub open spec fn write_multi_content(b: MultiContentView) -> Seq<char> {
    "{\"type\":"@ + write_string(b.type_) + (match b.text {
        Some(t) => ",\"text\":"@ + write_string(t),
        None => Seq::<char>::empty(),
    }) + (match b.image_url {
        Some(u) => ",\"image_url\":"@ + write_image_url(u),
        None => Seq::<char>::empty(),
    }) + "}"@
}

pub open spec fn write_tool_call(t: ToolCallView) -> Seq<char> {
    "{\"id\":"@ + write_string(t.id) + ",\"type\":"@ + write_string(t.type_)
        + ",\"function\":{\"name\":"@ + write_string(t.name) + ",\"arguments\":"@
        + write_string(t.arguments) + "}}"@
}

pub open spec fn write_multi_contents(bs: Seq<MultiContentView>) -> Seq<char> {
    join_comma(Seq::new(bs.len(), |i: int| write_multi_content(bs[i])))
}

pub open spec fn write_tool_calls(ts: Seq<ToolCallView>) -> Seq<char> {
    join_comma(Seq::new(ts.len(), |i: int| write_tool_call(ts[i])))
}

/// The `content` field of a message: the plain string when it is present,
/// the multipart array otherwise, nothing when neither is populated. The
/// multipart form never reaches the wire while string content is present.
pub open spec fn write_content_part(m: MessageView) -> Seq<char> {
    match m.content {
        Some(c) => ",\"content\":"@ + write_string(c),
        None => match m.multi_content {
            Some(bs) => ",\"content\":["@ + write_multi_contents(bs) + "]"@,
            None => Seq::<char>::empty(),
        },
    }
}

pub open spec fn write_message(m: MessageView) -> Seq<char> {
    "{\"role\":"@ + write_role(m.role) + write_content_part(m) + (match m.tool_calls {
        Some(ts) => ",\"tool_calls\":["@ + write_tool_calls(ts) + "]"@,
        None => Seq::<char>::empty(),
    }) + (match m.tool_call_id {
        Some(s) => ",\"tool_call_id\":"@ + write_string(s),
        None => Seq::<char>::empty(),
    }) + (match m.name {
        Some(s) => ",\"name\":"@ + write_string(s),
        None => Seq::<char>::empty(),
    }) + "}"@
}

/// A capability definition; the parameter schema is raw JSON text and is
/// emitted verbatim.
pub open spec fn write_tool(t: ToolView) -> Seq<char> {
    "{\"type\":"@ + write_string(t.type_) + ",\"function\":{\"name\":"@ + write_string(t.name)
        + ",\"description\":"@ + write_string(t.description) + ",\"parameters\":"@ + t.parameters
        + "}}"@
}

pub open spec fn write_messages(ms: Seq<MessageView>) -> Seq<char> {
    join_comma(Seq::new(ms.len(), |i: int| write_message(ms[i])))
}

pub open spec fn write_tools(ts: Seq<ToolView>) -> Seq<char> {
    join_comma(Seq::new(ts.len(), |i: int| write_tool(ts[i])))
}

pub open spec fn write_request(r: CompletionRequestView) -> Seq<char> {
    "{\"model\":"@ + write_string(r.model) + ",\"messages\":["@ + write_messages(r.messages)
        + "]"@ + (match r.tools {
        Some(ts) => ",\"tools\":["@ + write_tools(ts) + "]"@,
        None => Seq::<char>::empty(),
    }) + ",\"temperature\":"@ + write_milli(r.temperature) + (match r.top_p {
        Some(p) => ",\"top_p\":"@ + write_milli(p),
        None => Seq::<char>::empty(),
    }) + (match r.stream {
        Some(b) => ",\"stream\":"@ + write_bool(b),
        None => Seq::<char>::empty(),
    }) + "}"@
}

// ---------------------------------------------------------------------------
// The serialized forms are mutually exclusive
// ---------------------------------------------------------------------------

/// A message is never serialized with both its string content and its
/// multipart content: whenever the string content is populated, the wire
/// text is the same as if the multipart content were absent.
pub proof fn lemma_serialization_exclusive(m: MessageView)
    requires
        m.content is Some,
    ensures
        write_message(m) == write_message(MessageView { multi_content: None, ..m }),
{
}

// ---------------------------------------------------------------------------
// Executable emitters
// ---------------------------------------------------------------------------

fn hex_digit_exec(n: u32) -> (c: char)
    requires
        n < 16,
    ensures
        c == hex_digit(n as int),
{
    match n {
        0 => '0', 1 => '1', 2 => '2', 3 => '3', 4 => '4', 5 => '5', 6 => '6', 7 => '7',
        8 => '8', 9 => '9', 10 => 'a', 11 => 'b', 12 => 'c', 13 => 'd', 14 => 'e', _ => 'f',
    }
}

fn emit_escaped_char(out: &mut String, c: char)
    ensures
        final(out)@ == old(out)@ + escape_char(c),
{
    if c == '"' {
        out.append("\\\"");
        proof { reveal_strlit("\\\""); assert(old(out)@ + "\\\""@ =~= old(out)@ + escape_char(c)); }
    } else if c == '\\' {
        out.append("\\\\");
        proof { reveal_strlit("\\\\"); assert(old(out)@ + "\\\\"@ =~= old(out)@ + escape_char(c)); }
    } else if c == '\n' {
        out.append("\\n");
        proof { reveal_strlit("\\n"); assert(old(out)@ + "\\n"@ =~= old(out)@ + escape_char(c)); }
    } else if c == '\r' {
        out.append("\\r");
        proof { reveal_strlit("\\r"); assert(old(out)@ + "\\r"@ =~= old(out)@ + escape_char(c)); }
    } else if c == '\t' {
        out.append("\\t");
        proof { reveal_strlit("\\t"); assert(old(out)@ + "\\t"@ =~= old(out)@ + escape_char(c)); }
    } else if (c as u32) < 0x20 {
        out.append("\\u00");
        push_char(out, hex_digit_exec((c as u32) / 16));
        push_char(out, hex_digit_exec((c as u32) % 16));
        proof {
            reveal_strlit("\\u00");
            assert(old(out)@ + "\\u00"@ + seq![hex_digit(((c as u32) / 16) as int)]
                + seq![hex_digit(((c as u32) % 16) as int)] =~= old(out)@ + escape_char(c));
        }
    } else {
        push_char(out, c);
        proof {
            assert(old(out)@.push(c) =~= old(out)@ + escape_char(c));
        }
    }
}

/// Appends the quoted, escaped form of `s`.
pub fn emit_string(out: &mut String, s: &str)
    ensures
        final(out)@ == old(out)@ + write_string(s@),
{
    push_char(out, '"');
    let n = s.unicode_len();
    let mut i: usize = 0;
    while i < n
        invariant
            n == s@.len(),
            i <= n,
            out@ == old(out)@.push('"') + escape_string(s@.subrange(0, i as int)),
        decreases n - i,
    {
        let c = s.get_char(i);
        proof {
            lemma_escape_push(s@.subrange(0, i as int), s@[i as int]);
            assert(s@.subrange(0, i as int + 1) =~= s@.subrange(0, i as int).push(s@[i as int]));
        }
        emit_escaped_char(out, c);
        i = i + 1;
    }
    push_char(out, '"');
    proof {
        assert(s@.subrange(0, s@.len() as int) =~= s@);
        assert(out@ =~= old(out)@ + write_string(s@));
    }
}

fn digit_char(n: u64) -> (c: char)
    requires
        n < 10,
    ensures
        c == digit_of(n as int),
{
    hex_digit_exec(n as u32)
}

/// Appends the decimal form of `n`.
pub fn emit_u64(out: &mut String, n: u64)
    ensures
        final(out)@ == old(out)@ + write_u64(n),
    decreases n,
{
    if n < 10 {
        push_char(out, digit_char(n));
        proof {
            assert(old(out)@.push(digit_of(n as int)) =~= old(out)@ + write_u64(n));
        }
    } else {
        emit_u64(out, n / 10);
        push_char(out, digit_char(n % 10));
        proof {
            assert(old(out)@ + write_u64((n / 10) as u64) + seq![digit_of((n % 10) as int)] =~= old(
                out,
            )@ + write_u64(n));
        }
    }
}

/// Appends the decimal form of a quantity in thousandths.
pub fn emit_milli(out: &mut String, m: u32)
    ensures
        final(out)@ == old(out)@ + write_milli(m),
{
    let whole = (m / 1000) as u64;
    let frac = m % 1000;
    emit_u64(out, whole);
    if frac != 0 {
        push_char(out, '.');
        push_char(out, digit_char((frac / 100) as u64));
        if (frac / 10) % 10 != 0 || frac % 10 != 0 {
            push_char(out, digit_char(((frac / 10) % 10) as u64));
        }
        if frac % 10 != 0 {
            push_char(out, digit_char((frac % 10) as u64));
        }
        proof {
            assert(out@ =~= old(out)@ + write_milli(m));
        }
    } else {
        proof {
            assert(out@ =~= old(out)@ + write_milli(m));
        }
    }
}

fn emit_bool(out: &mut String, b: bool)
    ensures
        final(out)@ == old(out)@ + write_bool(b),
{
    if b {
        out.append("true");
    } else {
        out.append("false");
    }
}

fn emit_role(out: &mut String, r: Role)
    ensures
        final(out)@ == old(out)@ + write_role(r),
{
    match r {
        Role::SYSTEM => out.append("\"system\""),
        Role::USER => out.append("\"user\""),
        Role::ASSISTANT => out.append("\"assistant\""),
        Role::TOOL => out.append("\"tool\""),
    }
}

fn emit_image_url(out: &mut String, u: &ImageUrl)
    ensures
        final(out)@ == old(out)@ + write_image_url(u@),
{
    out.append("{\"url\":");
    emit_string(out, u.url.as_str());
    out.append("}");
    proof {
        assert(out@ =~= old(out)@ + write_image_url(u@));
    }
}

fn emit_multi_content(out: &mut String, b: &MultiContent)
    ensures
        final(out)@ == old(out)@ + write_multi_content(b@),
{
    out.append("{\"type\":");
    emit_string(out, b.type_.as_str());
    match &b.text {
        Some(t) => {
            out.append(",\"text\":");
            emit_string(out, t.as_str());
        },
        None => {},
    }
    match &b.image_url {
        Some(u) => {
            out.append(",\"image_url\":");
            emit_image_url(out, u);
        },
        None => {},
    }
    out.append("}");
    proof {
        assert(out@ =~= old(out)@ + write_multi_content(b@));
    }
}

fn emit_tool_call(out: &mut String, t: &ToolCall)
    ensures
        final(out)@ == old(out)@ + write_tool_call(t@),
{
    out.append("{\"id\":");
    emit_string(out, t.id.as_str());
    out.append(",\"type\":");
    emit_string(out, t.type_.as_str());
    out.append(",\"function\":{\"name\":");
    emit_string(out, t.function.name.as_str());
    out.append(",\"arguments\":");
    emit_string(out, t.function.arguments.as_str());
    out.append("}}");
    proof {
        assert(out@ =~= old(out)@ + write_tool_call(t@));
    }
}

fn emit_multi_contents(out: &mut String, bs: &Vec<MultiContent>)
    ensures
        final(out)@ == old(out)@ + write_multi_contents(Seq::new(bs@.len(), |i: int| bs@[i]@)),
{
    let ghost segs = Seq::new(bs@.len(), |i: int| write_multi_content(bs@[i]@));
    let mut i: usize = 0;
    while i < bs.len()
        invariant
            i <= bs@.len(),
            segs == Seq::new(bs@.len(), |k: int| write_multi_content(bs@[k]@)),
            out@ == old(out)@ + join_comma(segs.subrange(0, i as int)),
        decreases bs@.len() - i,
    {
        if i > 0 {
            push_char(out, ',');
        }
        emit_multi_content(out, &bs[i]);
        proof {
            lemma_join_comma_push(segs.subrange(0, i as int), segs[i as int]);
            assert(segs.subrange(0, i as int + 1) =~= segs.subrange(0, i as int).push(
                segs[i as int],
            ));
            if i == 0 {
                assert(out@ =~= old(out)@ + join_comma(segs.subrange(0, i as int + 1)));
            } else {
                assert(out@ =~= old(out)@ + join_comma(segs.subrange(0, i as int + 1)));
            }
        }
        i = i + 1;
    }
    proof {
        assert(segs.subrange(0, segs.len() as int) =~= segs);
        assert(Seq::new(bs@.len(), |i: int| write_multi_content(bs@[i]@)) =~= Seq::new(
            Seq::new(bs@.len(), |i: int| bs@[i]@).len(),
            |i: int| write_multi_content(Seq::new(bs@.len(), |k: int| bs@[k]@)[i]),
        ));
    }
}

fn emit_tool_calls(out: &mut String, ts: &Vec<ToolCall>)
    ensures
        final(out)@ == old(out)@ + write_tool_calls(Seq::new(ts@.len(), |i: int| ts@[i]@)),
{
    let ghost segs = Seq::new(ts@.len(), |i: int| write_tool_call(ts@[i]@));
    let mut i: usize = 0;
    while i < ts.len()
        invariant
            i <= ts@.len(),
            segs == Seq::new(ts@.len(), |k: int| write_tool_call(ts@[k]@)),
            out@ == old(out)@ + join_comma(segs.subrange(0, i as int)),
        decreases ts@.len() - i,
    {
        if i > 0 {
            push_char(out, ',');
        }
        emit_tool_call(out, &ts[i]);
        proof {
            lemma_join_comma_push(segs.subrange(0, i as int), segs[i as int]);
            assert(segs.subrange(0, i as int + 1) =~= segs.subrange(0, i as int).push(
                segs[i as int],
            ));
            assert(out@ =~= old(out)@ + join_comma(segs.subrange(0, i as int + 1)));
        }
        i = i + 1;
    }
    proof {
        assert(segs.subrange(0, segs.len() as int) =~= segs);
        assert(Seq::new(ts@.len(), |i: int| write_tool_call(ts@[i]@)) =~= Seq::new(
            Seq::new(ts@.len(), |i: int| ts@[i]@).len(),
            |i: int| write_tool_call(Seq::new(ts@.len(), |k: int| ts@[k]@)[i]),
        ));
    }
}

fn emit_content_part(out: &mut String, m: &Message)
    ensures
        final(out)@ == old(out)@ + write_content_part(m@),
{
    match &m.content {
        Some(c) => {
            out.append(",\"content\":");
            emit_string(out, c.as_str());
            proof {
                assert(out@ =~= old(out)@ + write_content_part(m@));
            }
        },
        None => {
            match &m.multi_content {
                Some(bs) => {
                    out.append(",\"content\":[");
                    emit_multi_contents(out, bs);
                    out.append("]");
                    proof {
                        assert(out@ =~= old(out)@ + write_content_part(m@));
                    }
                },
                None => {
                    proof {
                        assert(out@ =~= old(out)@ + write_content_part(m@));
                    }
                },
            }
        },
    }
}

fn emit_tool_calls_part(out: &mut String, ts_opt: &Option<Vec<ToolCall>>)
    ensures
        final(out)@ == old(out)@ + (match *ts_opt {
            Some(ts) => ",\"tool_calls\":["@ + write_tool_calls(
                Seq::new(ts@.len(), |i: int| ts@[i]@),
            ) + "]"@,
            None => Seq::<char>::empty(),
        }),
{
    match ts_opt {
        Some(ts) => {
            out.append(",\"tool_calls\":[");
            emit_tool_calls(out, ts);
            out.append("]");
            proof {
                assert(out@ =~= old(out)@ + (",\"tool_calls\":["@ + write_tool_calls(
                    Seq::new(ts@.len(), |i: int| ts@[i]@),
                ) + "]"@));
            }
        },
        None => {
            proof {
                assert(out@ =~= old(out)@ + Seq::<char>::empty());
            }
        },
    }
}

fn emit_opt_tool_call_id(out: &mut String, o: &Option<String>)
    ensures
        final(out)@ == old(out)@ + (match *o {
            Some(s) => ",\"tool_call_id\":"@ + write_string(s@),
            None => Seq::<char>::empty(),
        }),
{
    match o {
        Some(s) => {
            out.append(",\"tool_call_id\":");
            emit_string(out, s.as_str());
            proof {
                assert(out@ =~= old(out)@ + (",\"tool_call_id\":"@ + write_string(s@)));
            }
        },
        None => {
            proof {
                assert(out@ =~= old(out)@ + Seq::<char>::empty());
            }
        },
    }
}

fn emit_opt_name(out: &mut String, o: &Option<String>)
    ensures
        final(out)@ == old(out)@ + (match *o {
            Some(s) => ",\"name\":"@ + write_string(s@),
            None => Seq::<char>::empty(),
        }),
{
    match o {
        Some(s) => {
            out.append(",\"name\":");
            emit_string(out, s.as_str());
            proof {
                assert(out@ =~= old(out)@ + (",\"name\":"@ + write_string(s@)));
            }
        },
        None => {
            proof {
                assert(out@ =~= old(out)@ + Seq::<char>::empty());
            }
        },
    }
}

/// Appends the wire form of one message.
#[verifier::rlimit(60)]
pub fn emit_message(out: &mut String, m: &Message)
    ensures
        final(out)@ == old(out)@ + write_message(m@),
{
    out.append("{\"role\":");
    emit_role(out, m.role);
    emit_content_part(out, m);
    emit_tool_calls_part(out, &m.tool_calls);
    emit_opt_tool_call_id(out, &m.tool_call_id);
    emit_opt_name(out, &m.name);
    out.append("}");
    proof {
        assert(out@ =~= old(out)@ + write_message(m@));
    }
}

fn emit_tool(out: &mut String, t: &Tool)
    ensures
        final(out)@ == old(out)@ + write_tool(t@),
{
    out.append("{\"type\":");
    emit_string(out, t.type_.as_str());
    out.append(",\"function\":{\"name\":");
    emit_string(out, t.function.name.as_str());
    out.append(",\"description\":");
    emit_string(out, t.function.description.as_str());
    out.append(",\"parameters\":");
    out.append(t.function.parameters.as_str());
    out.append("}}");
    proof {
        assert(out@ =~= old(out)@ + write_tool(t@));
    }
}

fn emit_messages(out: &mut String, ms: &Vec<Message>)
    ensures
        final(out)@ == old(out)@ + write_messages(Seq::new(ms@.len(), |i: int| ms@[i]@)),
{
    let ghost segs = Seq::new(ms@.len(), |i: int| write_message(ms@[i]@));
    let mut i: usize = 0;
    while i < ms.len()
        invariant
            i <= ms@.len(),
            segs == Seq::new(ms@.len(), |k: int| write_message(ms@[k]@)),
            out@ == old(out)@ + join_comma(segs.subrange(0, i as int)),
        decreases ms@.len() - i,
    {
        if i > 0 {
            push_char(out, ',');
        }
        emit_message(out, &ms[i]);
        proof {
            lemma_join_comma_push(segs.subrange(0, i as int), segs[i as int]);
            assert(segs.subrange(0, i as int + 1) =~= segs.subrange(0, i as int).push(
                segs[i as int],
            ));
            assert(out@ =~= old(out)@ + join_comma(segs.subrange(0, i as int + 1)));
        }
        i = i + 1;
    }
    proof {
        assert(segs.subrange(0, segs.len() as int) =~= segs);
        assert(Seq::new(ms@.len(), |i: int| write_message(ms@[i]@)) =~= Seq::new(
            Seq::new(ms@.len(), |i: int| ms@[i]@).len(),
            |i: int| write_message(Seq::new(ms@.len(), |k: int| ms@[k]@)[i]),
        ));
    }
}

fn emit_tools(out: &mut String, ts: &Vec<Tool>)
    ensures
        final(out)@ == old(out)@ + write_tools(Seq::new(ts@.len(), |i: int| ts@[i]@)),
{
    let ghost segs = Seq::new(ts@.len(), |i: int| write_tool(ts@[i]@));
    let mut i: usize = 0;
    while i < ts.len()
        invariant
            i <= ts@.len(),
            segs == Seq::new(ts@.len(), |k: int| write_tool(ts@[k]@)),
            out@ == old(out)@ + join_comma(segs.subrange(0, i as int)),
        decreases ts@.len() - i,
    {
        if i > 0 {
            push_char(out, ',');
        }
        emit_tool(out, &ts[i]);
        proof {
            lemma_join_comma_push(segs.subrange(0, i as int), segs[i as int]);
            assert(segs.subrange(0, i as int + 1) =~= segs.subrange(0, i as int).push(
                segs[i as int],
            ));
            assert(out@ =~= old(out)@ + join_comma(segs.subrange(0, i as int + 1)));
        }
        i = i + 1;
    }
    proof {
        assert(segs.subrange(0, segs.len() as int) =~= segs);
        assert(Seq::new(ts@.len(), |i: int| write_tool(ts@[i]@)) =~= Seq::new(
            Seq::new(ts@.len(), |i: int| ts@[i]@).len(),
            |i: int| write_tool(Seq::new(ts@.len(), |k: int| ts@[k]@)[i]),
        ));
    }
}

/// The wire form of one message, as sent inside a request body.
pub fn message_to_json(m: &Message) -> (r: String)
    ensures
        r@ == write_message(m@),
{
    let mut out = String::new();
    emit_message(&mut out, m);
    out
}

/// The full JSON body of a completion request.
pub fn request_to_json(r: &CompletionRequest) -> (out: String)
    ensures
        out@ == write_request(r@),
{
    let mut out = String::new();
    out.append("{\"model\":");
    emit_string(&mut out, r.model.as_str());
    out.append(",\"messages\":[");
    emit_messages(&mut out, &r.messages);
    out.append("]");
    match &r.tools {
        Some(ts) => {
            out.append(",\"tools\":[");
            emit_tools(&mut out, ts);
            out.append("]");
        },
        None => {},
    }
    out.append(",\"temperature\":");
    emit_milli(&mut out, r.temperature);
    match &r.top_p {
        Some(p) => {
            out.append(",\"top_p\":");
            emit_milli(&mut out, *p);
        },
        None => {},
    }
    match &r.stream {
        Some(b) => {
            out.append(",\"stream\":");
            emit_bool(&mut out, *b);
        },
        None => {},
    }
    out.append("}");
    proof {
        assert(out@ =~= write_request(r@));
    }
    out
}

} // verus!
