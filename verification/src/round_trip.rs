//! The wire codec inverts itself: what the writer emits, the parser reads
//! back unchanged.
//!
//! The lemmas build up from string literals to whole messages. Every lemma
//! speaks of the text still to read — the suffix of the document from the
//! current position — so the pieces compose: a consumed segment is peeled
//! off the suffix and the next lemma continues where the last one stopped.

use vstd::prelude::*;
use crate::dtos::{MessageView, MultiContentView, Role, ToolCallView};
use crate::json_decode::{
    spec_parse_function_call, spec_parse_function_call_fields, spec_parse_image_url,
    spec_parse_image_url_fields, spec_parse_message, spec_parse_message_doc,
    spec_parse_message_fields, spec_parse_multi_content, spec_parse_multi_fields,
    spec_parse_multi_items, spec_parse_role, spec_parse_tool_call, spec_parse_tool_call_fields,
    spec_parse_tool_call_items, spec_role_of, FunctionCallPartial, MessagePartial, MultiPartial,
    ToolCallPartial,
};
use crate::json_parse::{
    hex_val, is_ws, spec_match_lit, spec_parse_escape, spec_parse_string, spec_parse_string_body,
    spec_parse_unicode_escape, spec_hex4, spec_skip_ws, spec_try_null,
};
use crate::json_write::{
    escape_char, escape_string, hex_digit, join_comma, write_image_url, write_message,
    write_multi_content, write_multi_contents, write_role, write_string, write_tool_call,
    write_tool_calls,
};

verus! {

/// The text still to read at position `i`.
pub open spec fn tail(t: Seq<char>, i: int) -> Seq<char> {
    t.subrange(i, t.len() as int)
}

/// Peels a segment that stands at the head of the remaining text: its
/// characters are at their positions, and past it the rest remains.
pub proof fn lemma_tail_peel(t: Seq<char>, i: int, a: Seq<char>, b: Seq<char>)
    requires
        0 <= i <= t.len(),
        tail(t, i) == a + b,
    ensures
        i + a.len() + b.len() == t.len(),
        forall|k: int| 0 <= k < a.len() ==> t[i + k] == a[k],
        tail(t, i + a.len()) == b,
        a.len() > 0 ==> t[i] == a[0],
{
    assert(tail(t, i).len() == a.len() + b.len());
    if a.len() > 0 {
        assert(tail(t, i)[0] == t[i + 0]);
        assert((a + b)[0] == a[0]);
        assert(t[i] == a[0]);
    }
    assert forall|k: int| 0 <= k < a.len() implies t[i + k] == a[k] by {
        assert(tail(t, i)[k] == t[i + k]);
        assert((a + b)[k] == a[k]);
    }
    assert(tail(t, i + a.len()) =~= b) by {
        assert forall|j: int| 0 <= j < b.len() implies tail(t, i + a.len())[j] == b[j] by {
            assert(tail(t, i)[a.len() + j] == t[i + a.len() + j]);
            assert((a + b)[a.len() + j] == b[j]);
        }
    }
}

/// Skipping whitespace at a non-whitespace character stands still.
pub proof fn lemma_skip_ws_noop(t: Seq<char>, i: int)
    requires
        0 <= i < t.len(),
        !is_ws(t[i]),
    ensures
        spec_skip_ws(t, i) == i,
{
}

pub proof fn lemma_hex_val_digit(n: int)
    requires
        0 <= n < 16,
    ensures
        hex_val(hex_digit(n)) == Some(n),
{
}

/// A string whose characters need no escaping is its own escaped form.
pub proof fn lemma_escape_plain(s: Seq<char>)
    requires
        forall|k: int| 0 <= k < s.len() ==> s[k] != '"' && s[k] != '\\' && (s[k] as u32) >= 0x20,
    ensures
        escape_string(s) == s,
    decreases s.len(),
{
    if s.len() == 0 {
        assert(escape_string(s) =~= s);
    } else {
        lemma_escape_plain(s.drop_first());
        assert(escape_char(s[0]) =~= seq![s[0]]);
        assert(escape_string(s) =~= s);
    }
}

/// The escaped body of a written string parses back to exactly the
/// original characters, consuming up to and past the closing quote.
#[verifier::rlimit(100)]
#[verifier::spinoff_prover]
pub proof fn lemma_parse_escaped_body(t: Seq<char>, i: int, s: Seq<char>, rest: Seq<char>)
    requires
        0 <= i <= t.len(),
        tail(t, i) == escape_string(s) + (seq!['"'] + rest),
    ensures
        spec_parse_string_body(t, i) == Some((s, i + escape_string(s).len() + 1)),
    decreases s.len(),
{
    if s.len() == 0 {
        assert(escape_string(s) =~= Seq::<char>::empty());
        assert(tail(t, i) =~= seq!['"'] + rest);
        lemma_tail_peel(t, i, seq!['"'], rest);
        assert(t[i] == seq!['"'][0]);
        assert(t[i] == '"');
        assert(spec_parse_string_body(t, i) == Some((Seq::<char>::empty(), i + 1)));
        assert(s =~= Seq::<char>::empty());
    } else {
        let c = s[0];
        let s2 = s.drop_first();
        assert(escape_string(s) == escape_char(c) + escape_string(s2));
        let ec = escape_char(c);
        assert(tail(t, i) =~= ec + (escape_string(s2) + (seq!['"'] + rest)));
        lemma_tail_peel(t, i, ec, escape_string(s2) + (seq!['"'] + rest));
        assert(forall|k: int| 0 <= k < ec.len() ==> t[i + k] == ec[k]);
        let i2 = i + ec.len();
        lemma_parse_escaped_body(t, i2, s2, rest);
        assert(seq![c] + s2 =~= s);
        if ec.len() == 2 {
            assert(t[i] == ec[0]);
            assert(t[i + 1] == ec[1]);
        }
        if c == '"' {
            assert(spec_parse_escape(t, i) == Some((c, i + 2)));
        } else if c == '\\' {
            assert(spec_parse_escape(t, i) == Some((c, i + 2)));
        } else if c == '\n' {
            assert(spec_parse_escape(t, i) == Some((c, i + 2)));
        } else if c == '\r' {
            assert(spec_parse_escape(t, i) == Some((c, i + 2)));
        } else if c == '\t' {
            assert(spec_parse_escape(t, i) == Some((c, i + 2)));
        } else if (c as u32) < 0x20 {
            let hi = (c as u32) as int / 16;
            let lo = (c as u32) as int % 16;
            assert(ec == seq!['\\', 'u', '0', '0', hex_digit(hi), hex_digit(lo)]);
            assert(t[i] == ec[0]);
            assert(t[i + 1] == ec[1]);
            assert(t[i + 2] == ec[2]);
            assert(t[i + 3] == ec[3]);
            assert(t[i + 4] == ec[4]);
            assert(t[i + 5] == ec[5]);
            lemma_hex_val_digit(hi);
            lemma_hex_val_digit(lo);
            assert(hex_val('0') == Some(0int));
            assert(spec_hex4(t, i + 2) == Some(16 * hi + lo));
            assert(16 * hi + lo == c as u32) by {
                assert((c as u32) as int == 16 * ((c as u32) as int / 16) + (c as u32) as int % 16);
            }
            let v = 16 * hi + lo;
            assert(v < 0xD800);
            assert(spec_parse_unicode_escape(t, i) == Some((((v as u32) as char), i + 6)));
            assert(((v as u32) as char) == c) by {
                assert(v as u32 == c as u32);
                vstd::utf8::char_u32_cast(c, c as u32);
            }
            assert(spec_parse_escape(t, i) == Some((c, i + 6)));
        } else {
            assert(ec == seq![c]);
            assert(t[i] == ec[0]);
            assert(t[i] == c);
        }
    }
}

/// A written string literal parses back to exactly the original
/// characters.
pub proof fn lemma_parse_written_string(t: Seq<char>, i: int, s: Seq<char>, rest: Seq<char>)
    requires
        0 <= i <= t.len(),
        tail(t, i) == write_string(s) + rest,
    ensures
        spec_parse_string(t, i) == Some((s, i + write_string(s).len())),
        tail(t, i + write_string(s).len()) == rest,
        i + write_string(s).len() <= t.len(),
{
    assert(tail(t, i) =~= seq!['"'] + (escape_string(s) + (seq!['"'] + rest)));
    lemma_tail_peel(t, i, seq!['"'], escape_string(s) + (seq!['"'] + rest));
    assert(t[i] == seq!['"'][0]);
    assert(t[i] == '"');
    lemma_parse_escaped_body(t, i + 1, s, rest);
    lemma_tail_peel(t, i + 1, escape_string(s), seq!['"'] + rest);
    lemma_tail_peel(t, i + 1 + escape_string(s).len(), seq!['"'], rest);
}

/// The head character of the remaining text.
pub proof fn lemma_tail_first(t: Seq<char>, i: int, a: Seq<char>, b: Seq<char>)
    requires
        0 <= i <= t.len(),
        tail(t, i) == a + b,
        a.len() > 0,
    ensures
        i < t.len(),
        t[i] == a[0],
{
    lemma_tail_peel(t, i, a, b);
    assert(tail(t, i).len() == a.len() + b.len());
}

/// Text that starts with a quote is not the `null` literal.
pub proof fn lemma_not_null_at(t: Seq<char>, i: int)
    requires
        0 <= i < t.len(),
        t[i] != 'n',
    ensures
        spec_try_null(t, i) is None,
{
    reveal_strlit("null");
    if spec_match_lit(t, i, "null"@) {
        assert(t.subrange(i, i + 4)[0] == t[i]);
    }
}

// ---------------------------------------------------------------------------
// Image references
// ---------------------------------------------------------------------------

/// A written image reference parses back unchanged.
#[verifier::rlimit(100)]
#[verifier::spinoff_prover]
pub proof fn lemma_parse_written_image_url(t: Seq<char>, i: int, u: Seq<char>, rest: Seq<char>)
    requires
        0 <= i <= t.len(),
        tail(t, i) == write_image_url(u) + rest,
    ensures
        spec_parse_image_url(t, i) == Some((u, i + write_image_url(u).len())),
        tail(t, i + write_image_url(u).len()) == rest,
        i + write_image_url(u).len() <= t.len(),
{
    reveal_strlit("{\"url\":");
    reveal_strlit("url");
    reveal_strlit("}");
    lemma_escape_plain("url"@);
    let k = write_string("url"@);
    let tail1 = k + (seq![':'] + (write_string(u) + (seq!['}'] + rest)));
    assert(tail(t, i) =~= seq!['{'] + tail1);
    lemma_tail_peel(t, i, seq!['{'], tail1);
    assert(t[i] == '{');
    let k1 = i + 1;
    lemma_tail_first(t, k1, k, seq![':'] + (write_string(u) + (seq!['}'] + rest)));
    assert(t[k1] == '"');
    lemma_skip_ws_noop(t, k1);
    lemma_parse_written_string(t, k1, "url"@, seq![':'] + (write_string(u) + (seq!['}'] + rest)));
    let p = k1 + k.len();
    lemma_tail_peel(t, p, seq![':'], write_string(u) + (seq!['}'] + rest));
    assert(t[p] == ':');
    lemma_skip_ws_noop(t, p);
    let r2 = p + 1;
    lemma_tail_first(t, r2, write_string(u), seq!['}'] + rest);
    assert(t[r2] == '"');
    lemma_skip_ws_noop(t, r2);
    lemma_parse_written_string(t, r2, u, seq!['}'] + rest);
    let p2 = r2 + write_string(u).len();
    lemma_tail_peel(t, p2, seq!['}'], rest);
    assert(t[p2] == '}');
    lemma_skip_ws_noop(t, p2);
    assert(t[k1] != '}');
    assert(spec_parse_image_url_fields(t, k1, None::<Seq<char>>) == Some((u, p2 + 1)));
    assert(p2 + 1 == i + write_image_url(u).len());
}

// ---------------------------------------------------------------------------
// Multipart blocks
// ---------------------------------------------------------------------------

/// The image member and the closing brace, seen from the member's key.
#[verifier::rlimit(100)]
#[verifier::spinoff_prover]
pub proof fn lemma_multi_fields_image(
    t: Seq<char>,
    k: int,
    ty: Seq<char>,
    tx: Option<Seq<char>>,
    u: Seq<char>,
    rest: Seq<char>,
)
    requires
        0 <= k <= t.len(),
        tail(t, k) == write_string("image_url"@) + (seq![':'] + (write_image_url(u) + (seq!['}']
            + rest))),
    ensures
        spec_parse_multi_fields(t, k, MultiPartial { type_: Some(ty), text: tx, image_url: None })
            == Some(
            (
                MultiContentView { type_: ty, text: tx, image_url: Some(u) },
                k + write_string("image_url"@).len() + 1 + write_image_url(u).len() + 1,
            ),
        ),
        k + write_string("image_url"@).len() + 1 + write_image_url(u).len() + 1 <= t.len(),
        tail(t, k + write_string("image_url"@).len() + 1 + write_image_url(u).len() + 1) == rest,
{
    reveal_strlit("image_url");
    reveal_strlit("type");
    reveal_strlit("text");
    lemma_escape_plain("image_url"@);
    lemma_tail_first(
        t,
        k,
        write_string("image_url"@),
        seq![':'] + (write_image_url(u) + (seq!['}'] + rest)),
    );
    lemma_skip_ws_noop(t, k);
    lemma_parse_written_string(
        t,
        k,
        "image_url"@,
        seq![':'] + (write_image_url(u) + (seq!['}'] + rest)),
    );
    let q = k + write_string("image_url"@).len();
    lemma_tail_peel(t, q, seq![':'], write_image_url(u) + (seq!['}'] + rest));
    assert(t[q] == ':');
    lemma_skip_ws_noop(t, q);
    let v = q + 1;
    reveal_strlit("{\"url\":");
    lemma_tail_first(t, v, write_image_url(u), seq!['}'] + rest);
    lemma_skip_ws_noop(t, v);
    lemma_parse_written_image_url(t, v, u, seq!['}'] + rest);
    let p4 = v + write_image_url(u).len();
    lemma_tail_peel(t, p4, seq!['}'], rest);
    assert(t[p4] == '}');
    lemma_skip_ws_noop(t, p4);
    assert(spec_parse_multi_fields(t, k, MultiPartial { type_: Some(ty), text: tx, image_url: None })
        == Some((MultiContentView { type_: ty, text: tx, image_url: Some(u) }, p4 + 1)));
}

/// The text member, whatever follows it, seen from the member's key.
#[verifier::rlimit(100)]
#[verifier::spinoff_prover]
pub proof fn lemma_multi_fields_text(
    t: Seq<char>,
    k: int,
    ty: Seq<char>,
    tx: Seq<char>,
    iu: Option<Seq<char>>,
    rest: Seq<char>,
)
    requires
        0 <= k <= t.len(),
        tail(t, k) == write_string("text"@) + (seq![':'] + (write_string(tx) + ((match iu {
            Some(u) => ",\"image_url\":"@ + write_image_url(u),
            None => Seq::<char>::empty(),
        }) + (seq!['}'] + rest)))),
    ensures
        spec_parse_multi_fields(t, k, MultiPartial { type_: Some(ty), text: None, image_url: None })
            == Some(
            (
                MultiContentView { type_: ty, text: Some(tx), image_url: iu },
                k + write_string("text"@).len() + 1 + write_string(tx).len() + (match iu {
                    Some(u) => ",\"image_url\":"@.len() + write_image_url(u).len() as int,
                    None => 0,
                }) + 1,
            ),
        ),
        k + write_string("text"@).len() + 1 + write_string(tx).len() + (match iu {
            Some(u) => ",\"image_url\":"@.len() + write_image_url(u).len() as int,
            None => 0,
        }) + 1 <= t.len(),
        tail(
            t,
            k + write_string("text"@).len() + 1 + write_string(tx).len() + (match iu {
                Some(u) => ",\"image_url\":"@.len() + write_image_url(u).len() as int,
                None => 0,
            }) + 1,
        ) == rest,
{
    reveal_strlit("type");
    reveal_strlit("text");
    reveal_strlit(",\"image_url\":");
    reveal_strlit("image_url");
    lemma_escape_plain("text"@);
    lemma_escape_plain("image_url"@);
    let image_part = match iu {
        Some(u) => ",\"image_url\":"@ + write_image_url(u),
        None => Seq::<char>::empty(),
    };
    lemma_tail_first(
        t,
        k,
        write_string("text"@),
        seq![':'] + (write_string(tx) + (image_part + (seq!['}'] + rest))),
    );
    lemma_skip_ws_noop(t, k);
    lemma_parse_written_string(
        t,
        k,
        "text"@,
        seq![':'] + (write_string(tx) + (image_part + (seq!['}'] + rest))),
    );
    let q = k + write_string("text"@).len();
    lemma_tail_peel(t, q, seq![':'], write_string(tx) + (image_part + (seq!['}'] + rest)));
    assert(t[q] == ':');
    lemma_skip_ws_noop(t, q);
    let v = q + 1;
    lemma_tail_first(t, v, write_string(tx), image_part + (seq!['}'] + rest));
    lemma_skip_ws_noop(t, v);
    lemma_parse_written_string(t, v, tx, image_part + (seq!['}'] + rest));
    let p3 = v + write_string(tx).len();
    assert("text"@ != "type"@) by {
        assert("text"@[1] == 'e' && "type"@[1] == 'y');
    }
    match iu {
        Some(u) => {
            assert(tail(t, p3) =~= seq![','] + (write_string("image_url"@) + (seq![':'] + (
            write_image_url(u) + (seq!['}'] + rest)))));
            lemma_tail_peel(
                t,
                p3,
                seq![','],
                write_string("image_url"@) + (seq![':'] + (write_image_url(u) + (seq!['}']
                    + rest))),
            );
            assert(t[p3] == ',');
            lemma_skip_ws_noop(t, p3);
            let k2 = p3 + 1;
            lemma_tail_first(
                t,
                k2,
                write_string("image_url"@),
                seq![':'] + (write_image_url(u) + (seq!['}'] + rest)),
            );
            lemma_skip_ws_noop(t, k2);
            lemma_multi_fields_image(t, k2, ty, Some(tx), u, rest);
        },
        None => {
            assert(tail(t, p3) =~= seq!['}'] + rest);
            lemma_tail_peel(t, p3, seq!['}'], rest);
            assert(t[p3] == '}');
            lemma_skip_ws_noop(t, p3);
        },
    }
    assert(spec_parse_multi_fields(t, k, MultiPartial { type_: Some(ty), text: None, image_url: None })
        == Some(
        (
            MultiContentView { type_: ty, text: Some(tx), image_url: iu },
            k + write_string("text"@).len() + 1 + write_string(tx).len() + image_part.len() + 1,
        ),
    ));
}

/// A written multipart block parses back unchanged.
#[verifier::rlimit(100)]
#[verifier::spinoff_prover]
pub proof fn lemma_parse_written_multi_content(
    t: Seq<char>,
    i: int,
    b: MultiContentView,
    rest: Seq<char>,
)
    requires
        0 <= i <= t.len(),
        tail(t, i) == write_multi_content(b) + rest,
    ensures
        spec_parse_multi_content(t, i) == Some((b, i + write_multi_content(b).len())),
        tail(t, i + write_multi_content(b).len()) == rest,
        i + write_multi_content(b).len() <= t.len(),
{
    reveal_strlit("{\"type\":");
    reveal_strlit("type");
    reveal_strlit(",\"text\":");
    reveal_strlit("text");
    reveal_strlit(",\"image_url\":");
    reveal_strlit("image_url");
    reveal_strlit("}");
    lemma_escape_plain("type"@);
    lemma_escape_plain("text"@);
    lemma_escape_plain("image_url"@);
    let text_part = match b.text {
        Some(tx) => ",\"text\":"@ + write_string(tx),
        None => Seq::<char>::empty(),
    };
    let image_part = match b.image_url {
        Some(u) => ",\"image_url\":"@ + write_image_url(u),
        None => Seq::<char>::empty(),
    };
    let after_type = text_part + (image_part + (seq!['}'] + rest));
    assert(tail(t, i) =~= seq!['{'] + (write_string("type"@) + (seq![':'] + (write_string(b.type_)
        + after_type))));
    lemma_tail_peel(
        t,
        i,
        seq!['{'],
        write_string("type"@) + (seq![':'] + (write_string(b.type_) + after_type)),
    );
    assert(t[i] == '{');
    let k1 = i + 1;
    lemma_tail_first(t, k1, write_string("type"@), seq![':'] + (write_string(b.type_) + after_type));
    lemma_skip_ws_noop(t, k1);
    lemma_parse_written_string(t, k1, "type"@, seq![':'] + (write_string(b.type_) + after_type));
    let p = k1 + write_string("type"@).len();
    lemma_tail_peel(t, p, seq![':'], write_string(b.type_) + after_type);
    assert(t[p] == ':');
    lemma_skip_ws_noop(t, p);
    let r2 = p + 1;
    lemma_tail_first(t, r2, write_string(b.type_), after_type);
    lemma_skip_ws_noop(t, r2);
    lemma_parse_written_string(t, r2, b.type_, after_type);
    let p2 = r2 + write_string(b.type_).len();
    let p4 = p2 + text_part.len() + image_part.len();
    match b.text {
        Some(tx) => {
            assert(tail(t, p2) =~= seq![','] + (write_string("text"@) + (seq![':'] + (write_string(
                tx,
            ) + (image_part + (seq!['}'] + rest))))));
            lemma_tail_peel(
                t,
                p2,
                seq![','],
                write_string("text"@) + (seq![':'] + (write_string(tx) + (image_part + (seq!['}']
                    + rest)))),
            );
            assert(t[p2] == ',');
            lemma_skip_ws_noop(t, p2);
            lemma_multi_fields_text(t, p2 + 1, b.type_, tx, b.image_url, rest);
            assert(spec_parse_multi_fields(
                t,
                k1,
                MultiPartial { type_: None, text: None, image_url: None },
            ) == Some((b, p4 + 1)));
        },
        None => {
            match b.image_url {
                Some(u) => {
                    assert(tail(t, p2) =~= seq![','] + (write_string("image_url"@) + (seq![':'] + (
                    write_image_url(u) + (seq!['}'] + rest)))));
                    lemma_tail_peel(
                        t,
                        p2,
                        seq![','],
                        write_string("image_url"@) + (seq![':'] + (write_image_url(u) + (seq!['}']
                            + rest))),
                    );
                    assert(t[p2] == ',');
                    lemma_skip_ws_noop(t, p2);
                    lemma_multi_fields_image(t, p2 + 1, b.type_, None, u, rest);
                    assert(spec_parse_multi_fields(
                        t,
                        k1,
                        MultiPartial { type_: None, text: None, image_url: None },
                    ) == Some((b, p4 + 1)));
                },
                None => {
                    assert(tail(t, p2) =~= seq!['}'] + rest);
                    lemma_tail_peel(t, p2, seq!['}'], rest);
                    assert(t[p2] == '}');
                    lemma_skip_ws_noop(t, p2);
                    assert(spec_parse_multi_fields(
                        t,
                        k1,
                        MultiPartial { type_: None, text: None, image_url: None },
                    ) == Some((b, p4 + 1)));
                },
            }
        },
    }
    assert(t[k1] != '}');
    assert(spec_parse_multi_content(t, i) == Some((b, p4 + 1)));
    assert(p4 + 1 == i + write_multi_content(b).len());
    assert(tail(t, p4 + 1) == rest);
}

/// A written sequence of multipart blocks, inside its array, parses back
/// unchanged.
#[verifier::rlimit(100)]
#[verifier::spinoff_prover]
pub proof fn lemma_parse_written_multi_items(
    t: Seq<char>,
    i: int,
    bs: Seq<MultiContentView>,
    rest: Seq<char>,
)
    requires
        0 <= i <= t.len(),
        bs.len() >= 1,
        tail(t, i) == write_multi_contents(bs) + (seq![']'] + rest),
    ensures
        spec_parse_multi_items(t, i) == Some((bs, i + write_multi_contents(bs).len() + 1)),
        tail(t, i + write_multi_contents(bs).len() + 1) == rest,
        i + write_multi_contents(bs).len() + 1 <= t.len(),
    decreases bs.len(),
{
    let segs = Seq::new(bs.len(), |k: int| write_multi_content(bs[k]));
    if bs.len() == 1 {
        assert(write_multi_contents(bs) == write_multi_content(bs[0]));
        lemma_parse_written_multi_content(t, i, bs[0], seq![']'] + rest);
        let p = i + write_multi_content(bs[0]).len();
        lemma_tail_peel(t, p, seq![']'], rest);
        assert(t[p] == ']');
        lemma_skip_ws_noop(t, p);
        assert(spec_parse_multi_items(t, i) == Some((seq![bs[0]], p + 1)));
        assert(seq![bs[0]] =~= bs);
    } else {
        assert(segs.drop_first() =~= Seq::new((bs.len() - 1) as nat, |k: int| write_multi_content(
            bs.drop_first()[k],
        ))) by {
            assert forall|k: int| 0 <= k < bs.len() - 1 implies segs.drop_first()[k]
                == write_multi_content(bs.drop_first()[k]) by {
                assert(segs[k + 1] == write_multi_content(bs[k + 1]));
            }
        }
        assert(write_multi_contents(bs) == write_multi_content(bs[0]) + seq![','] +
        write_multi_contents(bs.drop_first()));
        let w0 = write_multi_content(bs[0]);
        let wr = write_multi_contents(bs.drop_first());
        assert(tail(t, i) =~= w0 + (seq![','] + (wr + (seq![']'] + rest))));
        lemma_parse_written_multi_content(t, i, bs[0], seq![','] + (wr + (seq![']'] + rest)));
        let p = i + w0.len();
        lemma_tail_peel(t, p, seq![','], wr + (seq![']'] + rest));
        assert(t[p] == ',');
        lemma_skip_ws_noop(t, p);
        let r2 = p + 1;
        assert(t[r2] == '{') by {
            let segs2 = Seq::new(bs.drop_first().len(), |k: int| write_multi_content(
                bs.drop_first()[k],
            ));
            assert(wr == join_comma(segs2));
            if segs2.len() == 1 {
                assert(join_comma(segs2) == segs2[0]);
            } else {
                assert(join_comma(segs2) == segs2[0] + seq![','] + join_comma(segs2.drop_first()));
            }
            assert(segs2[0] == write_multi_content(bs.drop_first()[0]));
            assert(write_multi_content(bs.drop_first()[0])[0] == '{') by {
                reveal_strlit("{\"type\":");
                assert(("{\"type\":"@)[0] == '{');
            }
            assert(wr[0] == '{');
            lemma_tail_first(t, r2, wr, seq![']'] + rest);
        }
        lemma_skip_ws_noop(t, r2);
        lemma_parse_written_multi_items(t, r2, bs.drop_first(), rest);
        assert(spec_parse_multi_items(t, i) == Some((seq![bs[0]] + bs.drop_first(), r2 + wr.len()
            + 1)));
        assert(seq![bs[0]] + bs.drop_first() =~= bs);
    }
}

// ---------------------------------------------------------------------------
// Capability invocations
// ---------------------------------------------------------------------------

/// A written function descriptor parses back unchanged.
#[verifier::rlimit(100)]
#[verifier::spinoff_prover]
pub proof fn lemma_parse_written_function_call(
    t: Seq<char>,
    i: int,
    name: Seq<char>,
    arguments: Seq<char>,
    rest: Seq<char>,
)
    requires
        0 <= i <= t.len(),
        tail(t, i) == "{\"name\":"@ + (write_string(name) + (",\"arguments\":"@ + (write_string(
            arguments,
        ) + (seq!['}'] + rest)))),
    ensures
        spec_parse_function_call(t, i) == Some(
            ((name, arguments), i + 8 + write_string(name).len() + 13 + write_string(
                arguments,
            ).len() + 1),
        ),
        tail(t, i + 8 + write_string(name).len() + 13 + write_string(arguments).len() + 1) == rest,
        i + 8 + write_string(name).len() + 13 + write_string(arguments).len() + 1 <= t.len(),
{
    reveal_strlit("{\"name\":");
    reveal_strlit("name");
    reveal_strlit(",\"arguments\":");
    reveal_strlit("arguments");
    lemma_escape_plain("name"@);
    lemma_escape_plain("arguments"@);
    assert(tail(t, i) =~= seq!['{'] + (write_string("name"@) + (seq![':'] + (write_string(name) + (
    seq![','] + (write_string("arguments"@) + (seq![':'] + (write_string(arguments) + (seq!['}']
        + rest)))))))));
    lemma_tail_peel(
        t,
        i,
        seq!['{'],
        write_string("name"@) + (seq![':'] + (write_string(name) + (seq![','] + (write_string(
            "arguments"@,
        ) + (seq![':'] + (write_string(arguments) + (seq!['}'] + rest))))))),
    );
    assert(t[i] == '{');
    let k1 = i + 1;
    lemma_tail_first(
        t,
        k1,
        write_string("name"@),
        seq![':'] + (write_string(name) + (seq![','] + (write_string("arguments"@) + (seq![':'] + (
        write_string(arguments) + (seq!['}'] + rest)))))),
    );
    lemma_skip_ws_noop(t, k1);
    lemma_parse_written_string(
        t,
        k1,
        "name"@,
        seq![':'] + (write_string(name) + (seq![','] + (write_string("arguments"@) + (seq![':'] + (
        write_string(arguments) + (seq!['}'] + rest)))))),
    );
    let p = k1 + write_string("name"@).len();
    lemma_tail_peel(
        t,
        p,
        seq![':'],
        write_string(name) + (seq![','] + (write_string("arguments"@) + (seq![':'] + (write_string(
            arguments,
        ) + (seq!['}'] + rest))))),
    );
    assert(t[p] == ':');
    lemma_skip_ws_noop(t, p);
    let v1 = p + 1;
    lemma_tail_first(
        t,
        v1,
        write_string(name),
        seq![','] + (write_string("arguments"@) + (seq![':'] + (write_string(arguments) + (seq![
            '}',
        ] + rest)))),
    );
    lemma_skip_ws_noop(t, v1);
    lemma_parse_written_string(
        t,
        v1,
        name,
        seq![','] + (write_string("arguments"@) + (seq![':'] + (write_string(arguments) + (seq![
            '}',
        ] + rest)))),
    );
    let p2 = v1 + write_string(name).len();
    lemma_tail_peel(
        t,
        p2,
        seq![','],
        write_string("arguments"@) + (seq![':'] + (write_string(arguments) + (seq!['}'] + rest))),
    );
    assert(t[p2] == ',');
    lemma_skip_ws_noop(t, p2);
    let k2 = p2 + 1;
    lemma_tail_first(
        t,
        k2,
        write_string("arguments"@),
        seq![':'] + (write_string(arguments) + (seq!['}'] + rest)),
    );
    lemma_skip_ws_noop(t, k2);
    lemma_parse_written_string(
        t,
        k2,
        "arguments"@,
        seq![':'] + (write_string(arguments) + (seq!['}'] + rest)),
    );
    let q2 = k2 + write_string("arguments"@).len();
    lemma_tail_peel(t, q2, seq![':'], write_string(arguments) + (seq!['}'] + rest));
    assert(t[q2] == ':');
    lemma_skip_ws_noop(t, q2);
    let v2 = q2 + 1;
    lemma_tail_first(t, v2, write_string(arguments), seq!['}'] + rest);
    lemma_skip_ws_noop(t, v2);
    lemma_parse_written_string(t, v2, arguments, seq!['}'] + rest);
    let p3 = v2 + write_string(arguments).len();
    lemma_tail_peel(t, p3, seq!['}'], rest);
    assert(t[p3] == '}');
    lemma_skip_ws_noop(t, p3);
    assert(t[k1] != '}');
    assert("arguments"@ != "name"@);
    assert(spec_parse_function_call_fields(
        t,
        k2,
        FunctionCallPartial { name: Some(name), arguments: None },
    ) == Some(((name, arguments), p3 + 1)));
    assert(spec_parse_function_call_fields(
        t,
        k1,
        FunctionCallPartial { name: None, arguments: None },
    ) == Some(((name, arguments), p3 + 1)));
}

/// A written capability invocation parses back unchanged.
#[verifier::rlimit(100)]
#[verifier::spinoff_prover]
pub proof fn lemma_parse_written_tool_call(t: Seq<char>, i: int, c: ToolCallView, rest: Seq<char>)
    requires
        0 <= i <= t.len(),
        tail(t, i) == write_tool_call(c) + rest,
    ensures
        spec_parse_tool_call(t, i) == Some((c, i + write_tool_call(c).len())),
        tail(t, i + write_tool_call(c).len()) == rest,
        i + write_tool_call(c).len() <= t.len(),
{
    reveal_strlit("{\"id\":");
    reveal_strlit("id");
    reveal_strlit(",\"type\":");
    reveal_strlit("type");
    reveal_strlit(",\"function\":{\"name\":");
    reveal_strlit("function");
    reveal_strlit("{\"name\":");
    reveal_strlit(",\"arguments\":");
    reveal_strlit("}}");
    lemma_escape_plain("id"@);
    lemma_escape_plain("type"@);
    lemma_escape_plain("function"@);
    let fun_text = "{\"name\":"@ + (write_string(c.name) + (",\"arguments\":"@ + (write_string(
        c.arguments,
    ) + (seq!['}'] + (seq!['}'] + rest)))));
    assert(tail(t, i) =~= seq!['{'] + (write_string("id"@) + (seq![':'] + (write_string(c.id) + (
    seq![','] + (write_string("type"@) + (seq![':'] + (write_string(c.type_) + (seq![','] + (
    write_string("function"@) + (seq![':'] + fun_text)))))))))));
    lemma_tail_peel(
        t,
        i,
        seq!['{'],
        write_string("id"@) + (seq![':'] + (write_string(c.id) + (seq![','] + (write_string(
            "type"@,
        ) + (seq![':'] + (write_string(c.type_) + (seq![','] + (write_string("function"@) + (seq![
            ':',
        ] + fun_text))))))))),
    );
    assert(t[i] == '{');
    let k1 = i + 1;
    lemma_tail_first(
        t,
        k1,
        write_string("id"@),
        seq![':'] + (write_string(c.id) + (seq![','] + (write_string("type"@) + (seq![':'] + (
        write_string(c.type_) + (seq![','] + (write_string("function"@) + (seq![':'] + fun_text)))))))),
    );
    lemma_skip_ws_noop(t, k1);
    lemma_parse_written_string(
        t,
        k1,
        "id"@,
        seq![':'] + (write_string(c.id) + (seq![','] + (write_string("type"@) + (seq![':'] + (
        write_string(c.type_) + (seq![','] + (write_string("function"@) + (seq![':'] + fun_text)))))))),
    );
    let p1 = k1 + write_string("id"@).len();
    lemma_tail_peel(
        t,
        p1,
        seq![':'],
        write_string(c.id) + (seq![','] + (write_string("type"@) + (seq![':'] + (write_string(
            c.type_,
        ) + (seq![','] + (write_string("function"@) + (seq![':'] + fun_text))))))),
    );
    assert(t[p1] == ':');
    lemma_skip_ws_noop(t, p1);
    let v1 = p1 + 1;
    lemma_tail_first(
        t,
        v1,
        write_string(c.id),
        seq![','] + (write_string("type"@) + (seq![':'] + (write_string(c.type_) + (seq![','] + (
        write_string("function"@) + (seq![':'] + fun_text)))))),
    );
    lemma_skip_ws_noop(t, v1);
    lemma_parse_written_string(
        t,
        v1,
        c.id,
        seq![','] + (write_string("type"@) + (seq![':'] + (write_string(c.type_) + (seq![','] + (
        write_string("function"@) + (seq![':'] + fun_text)))))),
    );
    let p2 = v1 + write_string(c.id).len();
    lemma_tail_peel(
        t,
        p2,
        seq![','],
        write_string("type"@) + (seq![':'] + (write_string(c.type_) + (seq![','] + (write_string(
            "function"@,
        ) + (seq![':'] + fun_text))))),
    );
    assert(t[p2] == ',');
    lemma_skip_ws_noop(t, p2);
    let k2 = p2 + 1;
    lemma_tail_first(
        t,
        k2,
        write_string("type"@),
        seq![':'] + (write_string(c.type_) + (seq![','] + (write_string("function"@) + (seq![':']
            + fun_text)))),
    );
    lemma_skip_ws_noop(t, k2);
    lemma_parse_written_string(
        t,
        k2,
        "type"@,
        seq![':'] + (write_string(c.type_) + (seq![','] + (write_string("function"@) + (seq![':']
            + fun_text)))),
    );
    let p3 = k2 + write_string("type"@).len();
    lemma_tail_peel(
        t,
        p3,
        seq![':'],
        write_string(c.type_) + (seq![','] + (write_string("function"@) + (seq![':'] + fun_text))),
    );
    assert(t[p3] == ':');
    lemma_skip_ws_noop(t, p3);
    let v2 = p3 + 1;
    lemma_tail_first(
        t,
        v2,
        write_string(c.type_),
        seq![','] + (write_string("function"@) + (seq![':'] + fun_text)),
    );
    lemma_skip_ws_noop(t, v2);
    lemma_parse_written_string(
        t,
        v2,
        c.type_,
        seq![','] + (write_string("function"@) + (seq![':'] + fun_text)),
    );
    let p4 = v2 + write_string(c.type_).len();
    lemma_tail_peel(t, p4, seq![','], write_string("function"@) + (seq![':'] + fun_text));
    assert(t[p4] == ',');
    lemma_skip_ws_noop(t, p4);
    let k3 = p4 + 1;
    lemma_tail_first(t, k3, write_string("function"@), seq![':'] + fun_text);
    lemma_skip_ws_noop(t, k3);
    lemma_parse_written_string(t, k3, "function"@, seq![':'] + fun_text);
    let p5 = k3 + write_string("function"@).len();
    lemma_tail_peel(t, p5, seq![':'], fun_text);
    assert(t[p5] == ':');
    lemma_skip_ws_noop(t, p5);
    let v3 = p5 + 1;
    assert(t[v3] == '{') by {
        lemma_tail_first(
            t,
            v3,
            "{\"name\":"@,
            write_string(c.name) + (",\"arguments\":"@ + (write_string(c.arguments) + (seq!['}'] + (
            seq!['}'] + rest)))),
        );
    }
    lemma_skip_ws_noop(t, v3);
    assert(tail(t, v3) == "{\"name\":"@ + (write_string(c.name) + (",\"arguments\":"@ + (
    write_string(c.arguments) + (seq!['}'] + (seq!['}'] + rest)))))) by {
        assert(tail(t, v3) =~= fun_text);
    }
    lemma_parse_written_function_call(t, v3, c.name, c.arguments, seq!['}'] + rest);
    let p6 = v3 + 8 + write_string(c.name).len() + 13 + write_string(c.arguments).len() + 1;
    lemma_tail_peel(t, p6, seq!['}'], rest);
    assert(t[p6] == '}');
    lemma_skip_ws_noop(t, p6);
    assert(t[k1] != '}');
    assert("type"@ != "id"@);
    assert("function"@ != "id"@ && "function"@ != "type"@);
    assert(spec_parse_tool_call_fields(
        t,
        k3,
        ToolCallPartial { id: Some(c.id), type_: Some(c.type_), function: None },
    ) == Some((c, p6 + 1)));
    assert(spec_parse_tool_call_fields(
        t,
        k2,
        ToolCallPartial { id: Some(c.id), type_: None, function: None },
    ) == Some((c, p6 + 1)));
    assert(spec_parse_tool_call_fields(
        t,
        k1,
        ToolCallPartial { id: None, type_: None, function: None },
    ) == Some((c, p6 + 1)));
    assert(p6 + 1 == i + write_tool_call(c).len());
}

/// A written sequence of capability invocations, inside its array, parses
/// back unchanged.
#[verifier::rlimit(100)]
#[verifier::spinoff_prover]
pub proof fn lemma_parse_written_tool_call_items(
    t: Seq<char>,
    i: int,
    cs: Seq<ToolCallView>,
    rest: Seq<char>,
)
    requires
        0 <= i <= t.len(),
        cs.len() >= 1,
        tail(t, i) == write_tool_calls(cs) + (seq![']'] + rest),
    ensures
        spec_parse_tool_call_items(t, i) == Some((cs, i + write_tool_calls(cs).len() + 1)),
        tail(t, i + write_tool_calls(cs).len() + 1) == rest,
        i + write_tool_calls(cs).len() + 1 <= t.len(),
    decreases cs.len(),
{
    let segs = Seq::new(cs.len(), |k: int| write_tool_call(cs[k]));
    if cs.len() == 1 {
        assert(write_tool_calls(cs) == write_tool_call(cs[0]));
        lemma_parse_written_tool_call(t, i, cs[0], seq![']'] + rest);
        let p = i + write_tool_call(cs[0]).len();
        lemma_tail_peel(t, p, seq![']'], rest);
        assert(t[p] == ']');
        lemma_skip_ws_noop(t, p);
        assert(spec_parse_tool_call_items(t, i) == Some((seq![cs[0]], p + 1)));
        assert(seq![cs[0]] =~= cs);
    } else {
        assert(segs.drop_first() =~= Seq::new((cs.len() - 1) as nat, |k: int| write_tool_call(
            cs.drop_first()[k],
        ))) by {
            assert forall|k: int| 0 <= k < cs.len() - 1 implies segs.drop_first()[k]
                == write_tool_call(cs.drop_first()[k]) by {
                assert(segs[k + 1] == write_tool_call(cs[k + 1]));
            }
        }
        assert(write_tool_calls(cs) == write_tool_call(cs[0]) + seq![','] + write_tool_calls(
            cs.drop_first(),
        ));
        let w0 = write_tool_call(cs[0]);
        let wr = write_tool_calls(cs.drop_first());
        assert(tail(t, i) =~= w0 + (seq![','] + (wr + (seq![']'] + rest))));
        lemma_parse_written_tool_call(t, i, cs[0], seq![','] + (wr + (seq![']'] + rest)));
        let p = i + w0.len();
        lemma_tail_peel(t, p, seq![','], wr + (seq![']'] + rest));
        assert(t[p] == ',');
        lemma_skip_ws_noop(t, p);
        let r2 = p + 1;
        assert(t[r2] == '{') by {
            let segs2 = Seq::new(cs.drop_first().len(), |k: int| write_tool_call(
                cs.drop_first()[k],
            ));
            assert(wr == join_comma(segs2));
            if segs2.len() == 1 {
                assert(join_comma(segs2) == segs2[0]);
            } else {
                assert(join_comma(segs2) == segs2[0] + seq![','] + join_comma(segs2.drop_first()));
            }
            assert(segs2[0] == write_tool_call(cs.drop_first()[0]));
            assert(write_tool_call(cs.drop_first()[0])[0] == '{') by {
                reveal_strlit("{\"id\":");
                assert(("{\"id\":"@)[0] == '{');
            }
            assert(wr[0] == '{');
            lemma_tail_first(t, r2, wr, seq![']'] + rest);
        }
        lemma_skip_ws_noop(t, r2);
        lemma_parse_written_tool_call_items(t, r2, cs.drop_first(), rest);
        assert(spec_parse_tool_call_items(t, i) == Some((seq![cs[0]] + cs.drop_first(), r2
            + wr.len() + 1)));
        assert(seq![cs[0]] + cs.drop_first() =~= cs);
    }
}

// ---------------------------------------------------------------------------
// Messages
// ---------------------------------------------------------------------------

pub open spec fn calls_part(ts: Option<Seq<ToolCallView>>) -> Seq<char> {
    match ts {
        Some(ts0) => ",\"tool_calls\":["@ + write_tool_calls(ts0) + "]"@,
        None => Seq::<char>::empty(),
    }
}

pub open spec fn cid_part(cid: Option<Seq<char>>) -> Seq<char> {
    match cid {
        Some(s) => ",\"tool_call_id\":"@ + write_string(s),
        None => Seq::<char>::empty(),
    }
}

pub open spec fn name_part(nm: Option<Seq<char>>) -> Seq<char> {
    match nm {
        Some(s) => ",\"name\":"@ + write_string(s),
        None => Seq::<char>::empty(),
    }
}

/// The partial message after the remaining members are filled in.
pub open spec fn merge(
    acc: MessagePartial,
    c: Option<Seq<char>>,
    m: Option<Seq<MultiContentView>>,
    ts: Option<Seq<ToolCallView>>,
    cid: Option<Seq<char>>,
    nm: Option<Seq<char>>,
) -> MessagePartial {
    MessagePartial {
        role: acc.role,
        content: if c is Some {
            c
        } else {
            acc.content
        },
        multi_content: if m is Some {
            m
        } else {
            acc.multi_content
        },
        tool_calls: if ts is Some {
            ts
        } else {
            acc.tool_calls
        },
        tool_call_id: if cid is Some {
            cid
        } else {
            acc.tool_call_id
        },
        name: if nm is Some {
            nm
        } else {
            acc.name
        },
    }
}

/// The message a completed partial stands for.
pub open spec fn view_of(acc: MessagePartial) -> MessageView {
    MessageView {
        role: acc.role->0,
        content: acc.content,
        multi_content: acc.multi_content,
        tool_calls: acc.tool_calls,
        tool_call_id: acc.tool_call_id,
        name: acc.name,
    }
}

/// The remaining members may still be added to the partial.
pub open spec fn next_ok(
    acc: MessagePartial,
    c: Option<Seq<char>>,
    m: Option<Seq<MultiContentView>>,
    ts: Option<Seq<ToolCallView>>,
    cid: Option<Seq<char>>,
    nm: Option<Seq<char>>,
) -> bool {
    &&& acc.role is Some
    &&& !(c is Some && m is Some)
    &&& (c is Some || m is Some) ==> (acc.content is None && acc.multi_content is None)
    &&& ts is Some ==> acc.tool_calls is None
    &&& cid is Some ==> acc.tool_call_id is None
    &&& nm is Some ==> acc.name is None
}

pub open spec fn opt_count(
    c: Option<Seq<char>>,
    m: Option<Seq<MultiContentView>>,
    ts: Option<Seq<ToolCallView>>,
    cid: Option<Seq<char>>,
    nm: Option<Seq<char>>,
) -> int {
    (if c is Some { 1int } else { 0 }) + (if m is Some { 1int } else { 0 }) + (if ts is Some { 1int } else { 0 })
        + (if cid is Some { 1int } else { 0 }) + (if nm is Some { 1int } else { 0 })
}

/// The `name` member and whatever follows it, seen from its key.
#[verifier::rlimit(100)]
#[verifier::spinoff_prover]
pub proof fn lemma_msg_field_name(
    t: Seq<char>,
    k: int,
    acc: MessagePartial,
    nm: Seq<char>,
    rest: Seq<char>,
)
    requires
        0 <= k <= t.len(),
        next_ok(acc, None, None, None, None, Some(nm)),
        tail(t, k) == write_string("name"@) + (seq![':'] + (write_string(nm) + (seq!['}'] + rest))),
    ensures
        spec_parse_message_fields(t, k, acc) == Some(
            (view_of(merge(acc, None, None, None, None, Some(nm))), t.len() - rest.len()),
        ),
    decreases 0int, 1int,
{
    reveal_strlit("name");
    reveal_strlit("role");
    reveal_strlit("content");
    reveal_strlit("tool_calls");
    reveal_strlit("tool_call_id");
    lemma_escape_plain("name"@);
    lemma_tail_first(t, k, write_string("name"@), seq![':'] + (write_string(nm) + (seq!['}'] + rest)));
    lemma_skip_ws_noop(t, k);
    lemma_parse_written_string(t, k, "name"@, seq![':'] + (write_string(nm) + (seq!['}'] + rest)));
    let q = k + write_string("name"@).len();
    lemma_tail_peel(t, q, seq![':'], write_string(nm) + (seq!['}'] + rest));
    assert(t[q] == ':');
    lemma_skip_ws_noop(t, q);
    let v = q + 1;
    lemma_tail_first(t, v, write_string(nm), seq!['}'] + rest);
    lemma_skip_ws_noop(t, v);
    lemma_not_null_at(t, v);
    lemma_parse_written_string(t, v, nm, seq!['}'] + rest);
    let pv = v + write_string(nm).len();
    lemma_tail_peel(t, pv, seq!['}'], rest);
    assert(t[pv] == '}');
    lemma_skip_ws_noop(t, pv);
    assert("name"@ != "role"@) by {
        assert("name"@[0] == 'n' && "role"@[0] == 'r');
    }
    assert(spec_parse_message_fields(t, k, acc) == Some(
        (view_of(merge(acc, None, None, None, None, Some(nm))), pv + 1),
    ));
}

/// The `tool_call_id` member and whatever follows it, seen from its key.
#[verifier::rlimit(100)]
#[verifier::spinoff_prover]
pub proof fn lemma_msg_field_call_id(
    t: Seq<char>,
    k: int,
    acc: MessagePartial,
    cid: Seq<char>,
    nm: Option<Seq<char>>,
    rest: Seq<char>,
)
    requires
        0 <= k <= t.len(),
        next_ok(acc, None, None, None, Some(cid), nm),
        tail(t, k) == write_string("tool_call_id"@) + (seq![':'] + (write_string(cid) + (name_part(
            nm,
        ) + (seq!['}'] + rest)))),
    ensures
        spec_parse_message_fields(t, k, acc) == Some(
            (view_of(merge(acc, None, None, None, Some(cid), nm)), t.len() - rest.len()),
        ),
    decreases opt_count(None, None, None, None, nm), 1int,
{
    reveal_strlit("tool_call_id");
    reveal_strlit("role");
    reveal_strlit("content");
    reveal_strlit("tool_calls");
    lemma_escape_plain("tool_call_id"@);
    lemma_tail_first(
        t,
        k,
        write_string("tool_call_id"@),
        seq![':'] + (write_string(cid) + (name_part(nm) + (seq!['}'] + rest))),
    );
    lemma_skip_ws_noop(t, k);
    lemma_parse_written_string(
        t,
        k,
        "tool_call_id"@,
        seq![':'] + (write_string(cid) + (name_part(nm) + (seq!['}'] + rest))),
    );
    let q = k + write_string("tool_call_id"@).len();
    lemma_tail_peel(t, q, seq![':'], write_string(cid) + (name_part(nm) + (seq!['}'] + rest)));
    assert(t[q] == ':');
    lemma_skip_ws_noop(t, q);
    let v = q + 1;
    lemma_tail_first(t, v, write_string(cid), name_part(nm) + (seq!['}'] + rest));
    lemma_skip_ws_noop(t, v);
    lemma_not_null_at(t, v);
    lemma_parse_written_string(t, v, cid, name_part(nm) + (seq!['}'] + rest));
    let pv = v + write_string(cid).len();
    let acc2 = MessagePartial { tool_call_id: Some(cid), ..acc };
    lemma_msg_next(t, pv, acc2, None, None, None, None, nm, rest);
    match nm {
        Some(_) => {
            lemma_skip_ws_noop(t, pv);
        },
        None => {
            lemma_skip_ws_noop(t, pv);
        },
    }
    assert(spec_parse_message_fields(t, k, acc) == Some(
        (view_of(merge(acc, None, None, None, Some(cid), nm)), t.len() - rest.len()),
    ));
}

/// The `tool_calls` member and whatever follows it, seen from its key.
#[verifier::rlimit(100)]
#[verifier::spinoff_prover]
pub proof fn lemma_msg_field_tool_calls(
    t: Seq<char>,
    k: int,
    acc: MessagePartial,
    ts0: Seq<ToolCallView>,
    cid: Option<Seq<char>>,
    nm: Option<Seq<char>>,
    rest: Seq<char>,
)
    requires
        0 <= k <= t.len(),
        next_ok(acc, None, None, Some(ts0), cid, nm),
        tail(t, k) == write_string("tool_calls"@) + (seq![':'] + (seq!['['] + (write_tool_calls(
            ts0,
        ) + (seq![']'] + (cid_part(cid) + (name_part(nm) + (seq!['}'] + rest))))))),
    ensures
        spec_parse_message_fields(t, k, acc) == Some(
            (view_of(merge(acc, None, None, Some(ts0), cid, nm)), t.len() - rest.len()),
        ),
    decreases opt_count(None, None, None, cid, nm), 1int,
{
    reveal_strlit("tool_calls");
    reveal_strlit("role");
    reveal_strlit("content");
    lemma_escape_plain("tool_calls"@);
    lemma_tail_first(
        t,
        k,
        write_string("tool_calls"@),
        seq![':'] + (seq!['['] + (write_tool_calls(ts0) + (seq![']'] + (cid_part(cid) + (name_part(
            nm,
        ) + (seq!['}'] + rest)))))),
    );
    lemma_skip_ws_noop(t, k);
    lemma_parse_written_string(
        t,
        k,
        "tool_calls"@,
        seq![':'] + (seq!['['] + (write_tool_calls(ts0) + (seq![']'] + (cid_part(cid) + (name_part(
            nm,
        ) + (seq!['}'] + rest)))))),
    );
    let q = k + write_string("tool_calls"@).len();
    lemma_tail_peel(
        t,
        q,
        seq![':'],
        seq!['['] + (write_tool_calls(ts0) + (seq![']'] + (cid_part(cid) + (name_part(nm) + (seq![
            '}',
        ] + rest))))),
    );
    assert(t[q] == ':');
    lemma_skip_ws_noop(t, q);
    let v = q + 1;
    lemma_tail_peel(
        t,
        v,
        seq!['['],
        write_tool_calls(ts0) + (seq![']'] + (cid_part(cid) + (name_part(nm) + (seq!['}'] + rest)))),
    );
    assert(t[v] == '[');
    lemma_skip_ws_noop(t, v);
    lemma_not_null_at(t, v);
    let pv: int;
    if ts0.len() == 0 {
        assert(write_tool_calls(ts0) =~= Seq::<char>::empty());
        assert(ts0 =~= Seq::<ToolCallView>::empty());
        assert(tail(t, v + 1) =~= seq![']'] + (cid_part(cid) + (name_part(nm) + (seq!['}'] + rest))));
        lemma_tail_peel(t, v + 1, seq![']'], cid_part(cid) + (name_part(nm) + (seq!['}'] + rest)));
        assert(t[v + 1] == ']');
        lemma_skip_ws_noop(t, v + 1);
        pv = v + 2;
    } else {
        assert(tail(t, v + 1) =~= write_tool_calls(ts0) + (seq![']'] + (cid_part(cid) + (name_part(
            nm,
        ) + (seq!['}'] + rest)))));
        assert(t[v + 1] == '{') by {
            let segs2 = Seq::new(ts0.len(), |j: int| write_tool_call(ts0[j]));
            if segs2.len() == 1 {
                assert(join_comma(segs2) == segs2[0]);
            } else {
                assert(join_comma(segs2) == segs2[0] + seq![','] + join_comma(segs2.drop_first()));
            }
            assert(segs2[0] == write_tool_call(ts0[0]));
            assert(write_tool_call(ts0[0])[0] == '{') by {
                reveal_strlit("{\"id\":");
                assert(("{\"id\":"@)[0] == '{');
            }
            assert(write_tool_calls(ts0)[0] == '{');
            lemma_tail_first(
                t,
                v + 1,
                write_tool_calls(ts0),
                seq![']'] + (cid_part(cid) + (name_part(nm) + (seq!['}'] + rest))),
            );
        }
        lemma_skip_ws_noop(t, v + 1);
        lemma_parse_written_tool_call_items(
            t,
            v + 1,
            ts0,
            cid_part(cid) + (name_part(nm) + (seq!['}'] + rest)),
        );
        pv = v + 1 + write_tool_calls(ts0).len() + 1;
    }
    let acc2 = MessagePartial { tool_calls: Some(ts0), ..acc };
    assert(crate::json_decode::spec_parse_tool_calls_value(t, v, acc) == Some((acc2, pv)));
    lemma_msg_next(t, pv, acc2, None, None, None, cid, nm, rest);
    lemma_skip_ws_noop(t, pv);
    assert(spec_parse_message_fields(t, k, acc) == Some(
        (view_of(merge(acc, None, None, Some(ts0), cid, nm)), t.len() - rest.len()),
    ));
}

/// A string `content` member and whatever follows it, seen from its key.
#[verifier::rlimit(100)]
#[verifier::spinoff_prover]
pub proof fn lemma_msg_field_content_str(
    t: Seq<char>,
    k: int,
    acc: MessagePartial,
    c: Seq<char>,
    ts: Option<Seq<ToolCallView>>,
    cid: Option<Seq<char>>,
    nm: Option<Seq<char>>,
    rest: Seq<char>,
)
    requires
        0 <= k <= t.len(),
        next_ok(acc, Some(c), None, ts, cid, nm),
        tail(t, k) == write_string("content"@) + (seq![':'] + (write_string(c) + (calls_part(ts) + (
        cid_part(cid) + (name_part(nm) + (seq!['}'] + rest)))))),
    ensures
        spec_parse_message_fields(t, k, acc) == Some(
            (view_of(merge(acc, Some(c), None, ts, cid, nm)), t.len() - rest.len()),
        ),
    decreases opt_count(None, None, ts, cid, nm), 1int,
{
    reveal_strlit("content");
    reveal_strlit("role");
    lemma_escape_plain("content"@);
    lemma_tail_first(
        t,
        k,
        write_string("content"@),
        seq![':'] + (write_string(c) + (calls_part(ts) + (cid_part(cid) + (name_part(nm) + (seq![
            '}',
        ] + rest))))),
    );
    lemma_skip_ws_noop(t, k);
    lemma_parse_written_string(
        t,
        k,
        "content"@,
        seq![':'] + (write_string(c) + (calls_part(ts) + (cid_part(cid) + (name_part(nm) + (seq![
            '}',
        ] + rest))))),
    );
    let q = k + write_string("content"@).len();
    lemma_tail_peel(
        t,
        q,
        seq![':'],
        write_string(c) + (calls_part(ts) + (cid_part(cid) + (name_part(nm) + (seq!['}'] + rest)))),
    );
    assert(t[q] == ':');
    lemma_skip_ws_noop(t, q);
    let v = q + 1;
    lemma_tail_first(
        t,
        v,
        write_string(c),
        calls_part(ts) + (cid_part(cid) + (name_part(nm) + (seq!['}'] + rest))),
    );
    lemma_skip_ws_noop(t, v);
    lemma_not_null_at(t, v);
    lemma_parse_written_string(
        t,
        v,
        c,
        calls_part(ts) + (cid_part(cid) + (name_part(nm) + (seq!['}'] + rest))),
    );
    let pv = v + write_string(c).len();
    let acc2 = MessagePartial { content: Some(c), ..acc };
    lemma_msg_next(t, pv, acc2, None, None, ts, cid, nm, rest);
    lemma_skip_ws_noop(t, pv);
    assert(spec_parse_message_fields(t, k, acc) == Some(
        (view_of(merge(acc, Some(c), None, ts, cid, nm)), t.len() - rest.len()),
    ));
}

/// A multipart `content` member and whatever follows it, seen from its key.
#[verifier::rlimit(100)]
#[verifier::spinoff_prover]
pub proof fn lemma_msg_field_content_multi(
    t: Seq<char>,
    k: int,
    acc: MessagePartial,
    bs: Seq<MultiContentView>,
    ts: Option<Seq<ToolCallView>>,
    cid: Option<Seq<char>>,
    nm: Option<Seq<char>>,
    rest: Seq<char>,
)
    requires
        0 <= k <= t.len(),
        next_ok(acc, None, Some(bs), ts, cid, nm),
        tail(t, k) == write_string("content"@) + (seq![':'] + (seq!['['] + (write_multi_contents(
            bs,
        ) + (seq![']'] + (calls_part(ts) + (cid_part(cid) + (name_part(nm) + (seq!['}']
            + rest)))))))),
    ensures
        spec_parse_message_fields(t, k, acc) == Some(
            (view_of(merge(acc, None, Some(bs), ts, cid, nm)), t.len() - rest.len()),
        ),
    decreases opt_count(None, None, ts, cid, nm), 1int,
{
    reveal_strlit("content");
    reveal_strlit("role");
    lemma_escape_plain("content"@);
    lemma_tail_first(
        t,
        k,
        write_string("content"@),
        seq![':'] + (seq!['['] + (write_multi_contents(bs) + (seq![']'] + (calls_part(ts) + (
        cid_part(cid) + (name_part(nm) + (seq!['}'] + rest))))))),
    );
    lemma_skip_ws_noop(t, k);
    lemma_parse_written_string(
        t,
        k,
        "content"@,
        seq![':'] + (seq!['['] + (write_multi_contents(bs) + (seq![']'] + (calls_part(ts) + (
        cid_part(cid) + (name_part(nm) + (seq!['}'] + rest))))))),
    );
    let q = k + write_string("content"@).len();
    lemma_tail_peel(
        t,
        q,
        seq![':'],
        seq!['['] + (write_multi_contents(bs) + (seq![']'] + (calls_part(ts) + (cid_part(cid) + (
        name_part(nm) + (seq!['}'] + rest)))))),
    );
    assert(t[q] == ':');
    lemma_skip_ws_noop(t, q);
    let v = q + 1;
    lemma_tail_peel(
        t,
        v,
        seq!['['],
        write_multi_contents(bs) + (seq![']'] + (calls_part(ts) + (cid_part(cid) + (name_part(nm)
            + (seq!['}'] + rest))))),
    );
    assert(t[v] == '[');
    lemma_skip_ws_noop(t, v);
    lemma_not_null_at(t, v);
    let pv: int;
    if bs.len() == 0 {
        assert(write_multi_contents(bs) =~= Seq::<char>::empty());
        assert(bs =~= Seq::<MultiContentView>::empty());
        assert(tail(t, v + 1) =~= seq![']'] + (calls_part(ts) + (cid_part(cid) + (name_part(nm) + (
        seq!['}'] + rest)))));
        lemma_tail_peel(
            t,
            v + 1,
            seq![']'],
            calls_part(ts) + (cid_part(cid) + (name_part(nm) + (seq!['}'] + rest))),
        );
        assert(t[v + 1] == ']');
        lemma_skip_ws_noop(t, v + 1);
        pv = v + 2;
    } else {
        assert(tail(t, v + 1) =~= write_multi_contents(bs) + (seq![']'] + (calls_part(ts) + (
        cid_part(cid) + (name_part(nm) + (seq!['}'] + rest))))));
        assert(t[v + 1] == '{') by {
            let segs2 = Seq::new(bs.len(), |j: int| write_multi_content(bs[j]));
            if segs2.len() == 1 {
                assert(join_comma(segs2) == segs2[0]);
            } else {
                assert(join_comma(segs2) == segs2[0] + seq![','] + join_comma(segs2.drop_first()));
            }
            assert(segs2[0] == write_multi_content(bs[0]));
            assert(write_multi_content(bs[0])[0] == '{') by {
                reveal_strlit("{\"type\":");
                assert(("{\"type\":"@)[0] == '{');
            }
            assert(write_multi_contents(bs)[0] == '{');
            lemma_tail_first(
                t,
                v + 1,
                write_multi_contents(bs),
                seq![']'] + (calls_part(ts) + (cid_part(cid) + (name_part(nm) + (seq!['}'] + rest)))),
            );
        }
        lemma_skip_ws_noop(t, v + 1);
        lemma_parse_written_multi_items(
            t,
            v + 1,
            bs,
            calls_part(ts) + (cid_part(cid) + (name_part(nm) + (seq!['}'] + rest))),
        );
        pv = v + 1 + write_multi_contents(bs).len() + 1;
    }
    let acc2 = MessagePartial { multi_content: Some(bs), ..acc };
    assert(crate::json_decode::spec_parse_content_value(t, v, acc) == Some((acc2, pv)));
    lemma_msg_next(t, pv, acc2, None, None, ts, cid, nm, rest);
    lemma_skip_ws_noop(t, pv);
    assert(spec_parse_message_fields(t, k, acc) == Some(
        (view_of(merge(acc, None, Some(bs), ts, cid, nm)), t.len() - rest.len()),
    ));
}

/// After one member's value: either the closing brace ends the object, or
/// a comma introduces the next member, which parses on to the end.
#[verifier::rlimit(100)]
#[verifier::spinoff_prover]
pub proof fn lemma_msg_next(
    t: Seq<char>,
    p: int,
    acc: MessagePartial,
    c: Option<Seq<char>>,
    m: Option<Seq<MultiContentView>>,
    ts: Option<Seq<ToolCallView>>,
    cid: Option<Seq<char>>,
    nm: Option<Seq<char>>,
    rest: Seq<char>,
)
    requires
        0 <= p <= t.len(),
        next_ok(acc, c, m, ts, cid, nm),
        tail(t, p) == (match c {
            Some(c0) => ",\"content\":"@ + write_string(c0),
            None => Seq::<char>::empty(),
        }) + ((match m {
            Some(bs) => ",\"content\":["@ + write_multi_contents(bs) + "]"@,
            None => Seq::<char>::empty(),
        }) + (calls_part(ts) + (cid_part(cid) + (name_part(nm) + (seq!['}'] + rest))))),
    ensures
        opt_count(c, m, ts, cid, nm) == 0 ==> p < t.len() && t[p] == '}' && p + 1 == t.len()
            - rest.len(),
        opt_count(c, m, ts, cid, nm) != 0 ==> p + 1 < t.len() && t[p] == ',' && t[p + 1] == '"'
            && spec_parse_message_fields(t, p + 1, acc) == Some(
            (view_of(merge(acc, c, m, ts, cid, nm)), t.len() - rest.len()),
        ),
    decreases opt_count(c, m, ts, cid, nm), 0int,
{
    reveal_strlit(",\"content\":");
    reveal_strlit(",\"content\":[");
    reveal_strlit(",\"tool_calls\":[");
    reveal_strlit("]");
    reveal_strlit(",\"tool_call_id\":");
    reveal_strlit(",\"name\":");
    reveal_strlit("content");
    reveal_strlit("tool_calls");
    reveal_strlit("tool_call_id");
    reveal_strlit("name");
    lemma_escape_plain("content"@);
    lemma_escape_plain("tool_calls"@);
    lemma_escape_plain("tool_call_id"@);
    lemma_escape_plain("name"@);
    if c is Some {
        let c0 = c->0;
        assert(tail(t, p) =~= seq![','] + (write_string("content"@) + (seq![':'] + (write_string(
            c0,
        ) + (calls_part(ts) + (cid_part(cid) + (name_part(nm) + (seq!['}'] + rest))))))));
        lemma_tail_peel(
            t,
            p,
            seq![','],
            write_string("content"@) + (seq![':'] + (write_string(c0) + (calls_part(ts) + (
            cid_part(cid) + (name_part(nm) + (seq!['}'] + rest)))))),
        );
        assert(t[p] == ',');
        lemma_tail_first(
            t,
            p + 1,
            write_string("content"@),
            seq![':'] + (write_string(c0) + (calls_part(ts) + (cid_part(cid) + (name_part(nm) + (
            seq!['}'] + rest))))),
        );
        lemma_msg_field_content_str(t, p + 1, acc, c0, ts, cid, nm, rest);
    } else if m is Some {
        let bs = m->0;
        assert(tail(t, p) =~= seq![','] + (write_string("content"@) + (seq![':'] + (seq!['['] + (
        write_multi_contents(bs) + (seq![']'] + (calls_part(ts) + (cid_part(cid) + (name_part(nm)
            + (seq!['}'] + rest))))))))));
        lemma_tail_peel(
            t,
            p,
            seq![','],
            write_string("content"@) + (seq![':'] + (seq!['['] + (write_multi_contents(bs) + (seq![
                ']',
            ] + (calls_part(ts) + (cid_part(cid) + (name_part(nm) + (seq!['}'] + rest)))))))),
        );
        assert(t[p] == ',');
        lemma_tail_first(
            t,
            p + 1,
            write_string("content"@),
            seq![':'] + (seq!['['] + (write_multi_contents(bs) + (seq![']'] + (calls_part(ts) + (
            cid_part(cid) + (name_part(nm) + (seq!['}'] + rest))))))),
        );
        lemma_msg_field_content_multi(t, p + 1, acc, bs, ts, cid, nm, rest);
    } else if ts is Some {
        let ts0 = ts->0;
        assert(tail(t, p) =~= seq![','] + (write_string("tool_calls"@) + (seq![':'] + (seq!['['] + (
        write_tool_calls(ts0) + (seq![']'] + (cid_part(cid) + (name_part(nm) + (seq!['}']
            + rest)))))))));
        lemma_tail_peel(
            t,
            p,
            seq![','],
            write_string("tool_calls"@) + (seq![':'] + (seq!['['] + (write_tool_calls(ts0) + (seq![
                ']',
            ] + (cid_part(cid) + (name_part(nm) + (seq!['}'] + rest))))))),
        );
        assert(t[p] == ',');
        lemma_tail_first(
            t,
            p + 1,
            write_string("tool_calls"@),
            seq![':'] + (seq!['['] + (write_tool_calls(ts0) + (seq![']'] + (cid_part(cid) + (
            name_part(nm) + (seq!['}'] + rest)))))),
        );
        lemma_msg_field_tool_calls(t, p + 1, acc, ts0, cid, nm, rest);
    } else if cid is Some {
        let cid0 = cid->0;
        assert(tail(t, p) =~= seq![','] + (write_string("tool_call_id"@) + (seq![':'] + (
        write_string(cid0) + (name_part(nm) + (seq!['}'] + rest))))));
        lemma_tail_peel(
            t,
            p,
            seq![','],
            write_string("tool_call_id"@) + (seq![':'] + (write_string(cid0) + (name_part(nm) + (
            seq!['}'] + rest)))),
        );
        assert(t[p] == ',');
        lemma_tail_first(
            t,
            p + 1,
            write_string("tool_call_id"@),
            seq![':'] + (write_string(cid0) + (name_part(nm) + (seq!['}'] + rest))),
        );
        lemma_msg_field_call_id(t, p + 1, acc, cid0, nm, rest);
    } else if nm is Some {
        let nm0 = nm->0;
        assert(tail(t, p) =~= seq![','] + (write_string("name"@) + (seq![':'] + (write_string(nm0)
            + (seq!['}'] + rest)))));
        lemma_tail_peel(
            t,
            p,
            seq![','],
            write_string("name"@) + (seq![':'] + (write_string(nm0) + (seq!['}'] + rest))),
        );
        assert(t[p] == ',');
        lemma_tail_first(
            t,
            p + 1,
            write_string("name"@),
            seq![':'] + (write_string(nm0) + (seq!['}'] + rest)),
        );
        lemma_msg_field_name(t, p + 1, acc, nm0, rest);
    } else {
        assert(tail(t, p) =~= seq!['}'] + rest);
        lemma_tail_peel(t, p, seq!['}'], rest);
        assert(t[p] == '}');
    }
}

/// A written role value parses as the role, seen from its first quote.
#[verifier::rlimit(100)]
#[verifier::spinoff_prover]
pub proof fn lemma_role_value(t: Seq<char>, v: int, role: Role, after: Seq<char>)
    requires
        0 <= v <= t.len(),
        tail(t, v) == write_role(role) + after,
    ensures
        spec_parse_role(t, v) == Some((role, v + write_role(role).len())),
        tail(t, v + write_role(role).len()) == after,
        v < t.len() && t[v] == '"',
        v + write_role(role).len() <= t.len(),
{
    reveal_strlit("\"system\"");
    reveal_strlit("\"user\"");
    reveal_strlit("\"assistant\"");
    reveal_strlit("\"tool\"");
    reveal_strlit("system");
    reveal_strlit("user");
    reveal_strlit("assistant");
    reveal_strlit("tool");
    match role {
        Role::SYSTEM => {
            assert(write_role(role) =~= write_string("system"@)) by {
                lemma_escape_plain("system"@);
            }
            lemma_tail_first(t, v, write_string("system"@), after);
            lemma_parse_written_string(t, v, "system"@, after);
            assert(spec_role_of("system"@) == Some(Role::SYSTEM));
        },
        Role::USER => {
            assert(write_role(role) =~= write_string("user"@)) by {
                lemma_escape_plain("user"@);
            }
            lemma_tail_first(t, v, write_string("user"@), after);
            lemma_parse_written_string(t, v, "user"@, after);
            assert(spec_role_of("user"@) == Some(Role::USER));
        },
        Role::ASSISTANT => {
            assert(write_role(role) =~= write_string("assistant"@)) by {
                lemma_escape_plain("assistant"@);
            }
            lemma_tail_first(t, v, write_string("assistant"@), after);
            lemma_parse_written_string(t, v, "assistant"@, after);
            assert(spec_role_of("assistant"@) == Some(Role::ASSISTANT));
        },
        Role::TOOL => {
            assert(write_role(role) =~= write_string("tool"@)) by {
                lemma_escape_plain("tool"@);
            }
            lemma_tail_first(t, v, write_string("tool"@), after);
            lemma_parse_written_string(t, v, "tool"@, after);
            assert(spec_role_of("tool"@) == Some(Role::TOOL));
        },
    }
}

/// Concatenation re-associates.
pub proof fn lemma_assoc(a: Seq<char>, b: Seq<char>, c: Seq<char>)
    ensures
        (a + b) + c == a + (b + c),
{
    assert((a + b) + c =~= a + (b + c));
}

/// The written message, followed by anything, re-associated into the
/// member-by-member shape the parser consumes.
#[verifier::rlimit(100)]
#[verifier::spinoff_prover]
pub proof fn lemma_message_text_shape(m: MessageView, rest: Seq<char>)
    requires
        m.wf(),
    ensures
        write_message(m) + rest == seq!['{'] + (write_string("role"@) + (seq![':'] + (write_role(
            m.role,
        ) + ((match m.content {
            Some(c0) => ",\"content\":"@ + write_string(c0),
            None => Seq::<char>::empty(),
        }) + ((match (if m.content is Some {
            None
        } else {
            m.multi_content
        }) {
            Some(bs) => ",\"content\":["@ + write_multi_contents(bs) + "]"@,
            None => Seq::<char>::empty(),
        }) + (calls_part(m.tool_calls) + (cid_part(m.tool_call_id) + (name_part(m.name) + (seq![
            '}',
        ] + rest))))))))),
{
    reveal_strlit("{\"role\":");
    reveal_strlit("role");
    reveal_strlit("}");
    lemma_escape_plain("role"@);
    let s0 = "{\"role\":"@;
    let wr = write_role(m.role);
    let cp = crate::json_write::write_content_part(m);
    let tc = calls_part(m.tool_calls);
    let id = cid_part(m.tool_call_id);
    let nm = name_part(m.name);
    let s6 = "}"@;
    assert(write_message(m) == (((((s0 + wr) + cp) + tc) + id) + nm) + s6) by {
        assert(calls_part(m.tool_calls) == (match m.tool_calls {
            Some(ts) => ",\"tool_calls\":["@ + write_tool_calls(ts) + "]"@,
            None => Seq::<char>::empty(),
        }));
        assert(cid_part(m.tool_call_id) == (match m.tool_call_id {
            Some(s) => ",\"tool_call_id\":"@ + write_string(s),
            None => Seq::<char>::empty(),
        }));
        assert(name_part(m.name) == (match m.name {
            Some(s) => ",\"name\":"@ + write_string(s),
            None => Seq::<char>::empty(),
        }));
    }
    lemma_assoc((((((s0 + wr) + cp) + tc) + id) + nm), s6, rest);
    lemma_assoc(((((s0 + wr) + cp) + tc) + id), nm, s6 + rest);
    lemma_assoc((((s0 + wr) + cp) + tc), id, nm + (s6 + rest));
    lemma_assoc(((s0 + wr) + cp), tc, id + (nm + (s6 + rest)));
    lemma_assoc((s0 + wr), cp, tc + (id + (nm + (s6 + rest))));
    lemma_assoc(s0, wr, cp + (tc + (id + (nm + (s6 + rest)))));
    assert(s6 + rest =~= seq!['}'] + rest);
    let r3 = tc + (id + (nm + (seq!['}'] + rest)));
    assert(tc + (id + (nm + (s6 + rest))) == r3);
    let m_opt = if m.content is Some {
        None
    } else {
        m.multi_content
    };
    let cpart = (match m.content {
        Some(c0) => ",\"content\":"@ + write_string(c0),
        None => Seq::<char>::empty(),
    });
    let mpart = (match m_opt {
        Some(bs) => ",\"content\":["@ + write_multi_contents(bs) + "]"@,
        None => Seq::<char>::empty(),
    });
    assert(cp + r3 == cpart + (mpart + r3)) by {
        match m.content {
            Some(c0) => {
                assert(mpart =~= Seq::<char>::empty());
                assert(cp == cpart);
                assert(mpart + r3 =~= r3);
            },
            None => {
                assert(cpart =~= Seq::<char>::empty());
                assert(cp == mpart);
                assert(cpart + (mpart + r3) =~= mpart + r3);
            },
        }
    }
    let r2 = cpart + (mpart + r3);
    assert(write_message(m) + rest == s0 + (wr + r2));
    assert(s0 =~= seq!['{'] + (write_string("role"@) + seq![':']));
    lemma_assoc(seq!['{'], write_string("role"@) + seq![':'], wr + r2);
    lemma_assoc(write_string("role"@), seq![':'], wr + r2);
    lemma_assoc(seq![':'], wr, r2);
    assert(write_message(m) + rest == seq!['{'] + (write_string("role"@) + (seq![':'] + (wr
        + r2))));
}

/// A whole written message parses back unchanged.
#[verifier::rlimit(100)]
#[verifier::spinoff_prover]
pub proof fn lemma_parse_written_message(t: Seq<char>, i: int, m: MessageView, rest: Seq<char>)
    requires
        0 <= i <= t.len(),
        m.wf(),
        tail(t, i) == write_message(m) + rest,
    ensures
        spec_parse_message(t, i) == Some((m, t.len() - rest.len())),
        tail(t, t.len() - rest.len()) == rest,
        i <= t.len() - rest.len() <= t.len(),
{
    reveal_strlit("{\"role\":");
    reveal_strlit("role");
    lemma_escape_plain("role"@);
    let c_opt = m.content;
    let m_opt = if m.content is Some {
        None
    } else {
        m.multi_content
    };
    let after_role = (match c_opt {
        Some(c0) => ",\"content\":"@ + write_string(c0),
        None => Seq::<char>::empty(),
    }) + ((match m_opt {
        Some(bs) => ",\"content\":["@ + write_multi_contents(bs) + "]"@,
        None => Seq::<char>::empty(),
    }) + (calls_part(m.tool_calls) + (cid_part(m.tool_call_id) + (name_part(m.name) + (seq!['}']
        + rest)))));
    lemma_message_text_shape(m, rest);
    assert(tail(t, i) == seq!['{'] + (write_string("role"@) + (seq![':'] + (write_role(m.role)
        + after_role))));
    lemma_tail_peel(
        t,
        i,
        seq!['{'],
        write_string("role"@) + (seq![':'] + (write_role(m.role) + after_role)),
    );
    assert(t[i] == '{');
    let k1 = i + 1;
    lemma_tail_first(t, k1, write_string("role"@), seq![':'] + (write_role(m.role) + after_role));
    lemma_skip_ws_noop(t, k1);
    lemma_parse_written_string(t, k1, "role"@, seq![':'] + (write_role(m.role) + after_role));
    let q = k1 + write_string("role"@).len();
    lemma_tail_peel(t, q, seq![':'], write_role(m.role) + after_role);
    assert(t[q] == ':');
    lemma_skip_ws_noop(t, q);
    let v = q + 1;
    lemma_role_value(t, v, m.role, after_role);
    let pv = v + write_role(m.role).len();
    assert(tail(t, pv) == after_role);
    let acc1 = MessagePartial {
        role: Some(m.role),
        content: None,
        multi_content: None,
        tool_calls: None,
        tool_call_id: None,
        name: None,
    };
    lemma_msg_next(t, pv, acc1, c_opt, m_opt, m.tool_calls, m.tool_call_id, m.name, rest);
    lemma_skip_ws_noop(t, pv);
    assert(view_of(merge(acc1, c_opt, m_opt, m.tool_calls, m.tool_call_id, m.name)) == m);
    assert(t[k1] != '}');
    assert(spec_parse_message_fields(t, k1, MessagePartial {
        role: None,
        content: None,
        multi_content: None,
        tool_calls: None,
        tool_call_id: None,
        name: None,
    }) == Some((m, t.len() - rest.len())));
    assert(spec_parse_message(t, i) == Some((m, t.len() - rest.len())));
    lemma_tail_peel(t, i, write_message(m), rest);
    assert(t.len() - rest.len() == i + write_message(m).len());
}

/// A message serialized to the wire deserializes back to exactly the same
/// message: the codec round-trips on every well-formed message, multipart
/// content included.
pub proof fn lemma_message_round_trip(m: MessageView)
    requires
        m.wf(),
    ensures
        spec_parse_message_doc(write_message(m)) == Some(m),
{
    let t = write_message(m);
    assert(tail(t, 0) =~= write_message(m) + Seq::<char>::empty());
    lemma_parse_written_message(t, 0, m, Seq::empty());
    assert(t[0] == '{') by {
        reveal_strlit("{\"role\":");
        lemma_tail_first(t, 0, write_message(m), Seq::empty());
        assert(write_message(m)[0] == ("{\"role\":"@)[0]);
    }
    lemma_skip_ws_noop(t, 0);
    assert(spec_skip_ws(t, t.len() as int) == t.len());
}

} // verus!
