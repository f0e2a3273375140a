//! Decoding of the streaming response: one server-sent-event frame at a
//! time.
//!
//! Each frame's payload is either the end-of-stream sentinel, which
//! terminates the produced sequence without being emitted, or a JSON delta
//! object. A delta with content text yields exactly one fragment; a
//! role-only or empty delta yields nothing; a payload that fails to parse
//! yields one failure item, leaving the fragments before it untouched.

use vstd::prelude::*;
use crate::errors::{AgentError, AgentErrorView};
use crate::json_response::{spec_parse_stream_response_doc, stream_response_from_json};
use crate::text::str_eq;

verus! {

/// What one frame payload contributes to the produced sequence.
#[derive(Debug)]
pub enum FrameStep {
    /// The sentinel: the sequence ends here; nothing is emitted for it.
    Finished,
    /// A delta with content: exactly one text fragment.
    Fragment(String),
    /// A parseable delta without content: nothing is emitted.
    Skip,
    /// A payload that is not a well-formed frame: one failure item.
    Malformed,
}

pub ghost enum FrameStepView {
    Finished,
    Fragment(Seq<char>),
    Skip,
    Malformed,
}

impl View for FrameStep {
    type V = FrameStepView;

    open spec fn view(&self) -> FrameStepView {
        match self {
            FrameStep::Finished => FrameStepView::Finished,
            FrameStep::Fragment(t) => FrameStepView::Fragment(t@),
            FrameStep::Skip => FrameStepView::Skip,
            FrameStep::Malformed => FrameStepView::Malformed,
        }
    }
}

/// The contribution of one frame payload: the sentinel ends the stream; a
/// frame that parses contributes its first choice's delta content, if any;
/// anything else is malformed.
pub open spec fn spec_decode_frame(d: Seq<char>) -> FrameStepView {
    if d == "[DONE]"@ {
        FrameStepView::Finished
    } else {
        match spec_parse_stream_response_doc(d) {
            Some(resp) => if resp.choices.len() > 0 && resp.choices[0].delta.content is Some {
                FrameStepView::Fragment(resp.choices[0].delta.content->0)
            } else {
                FrameStepView::Skip
            },
            None => FrameStepView::Malformed,
        }
    }
}

/// Decodes one frame payload.
pub fn decode_stream_frame(data: &str) -> (r: FrameStep)
    ensures
        r@ == spec_decode_frame(data@),
{
    if str_eq(data, "[DONE]") {
        return FrameStep::Finished;
    }
    match stream_response_from_json(data) {
        Some(resp) => {
            if resp.choices.len() > 0 {
                let first = &resp.choices[0];
                match &first.delta.content {
                    Some(t) => FrameStep::Fragment(t.clone()),
                    None => FrameStep::Skip,
                }
            } else {
                FrameStep::Skip
            }
        },
        None => FrameStep::Malformed,
    }
}

/// One item of the produced fragment sequence: a text fragment, or a
/// failure where a frame did not parse.
pub ghost enum StreamItemView {
    Text(Seq<char>),
    Failure,
}

pub open spec fn item_view(r: Result<String, AgentError>) -> StreamItemView {
    match r {
        Ok(t) => StreamItemView::Text(t@),
        Err(_) => StreamItemView::Failure,
    }
}

/// The finite fragment sequence produced from a sequence of frame
/// payloads: fragments and failure items in frame order, cut off at the
/// first sentinel, which itself is never emitted.
pub open spec fn spec_decode_frames(fs: Seq<Seq<char>>) -> Seq<StreamItemView>
    decreases fs.len(),
{
    if fs.len() == 0 {
        Seq::empty()
    } else {
        match spec_decode_frame(fs[0]) {
            FrameStepView::Finished => Seq::empty(),
            FrameStepView::Fragment(t) => seq![StreamItemView::Text(t)] + spec_decode_frames(
                fs.drop_first(),
            ),
            FrameStepView::Skip => spec_decode_frames(fs.drop_first()),
            FrameStepView::Malformed => seq![StreamItemView::Failure] + spec_decode_frames(
                fs.drop_first(),
            ),
        }
    }
}

/// Decodes a buffered sequence of frame payloads, draining past failures
/// as a consumer that keeps reading would.
pub fn decode_stream_frames(frames: &Vec<String>) -> (out: Vec<Result<String, AgentError>>)
    ensures
        Seq::new(out@.len(), |i: int| item_view(out@[i])) == spec_decode_frames(
            Seq::new(frames@.len(), |i: int| frames@[i]@),
        ),
{
    let ghost fsv = Seq::new(frames@.len(), |i: int| frames@[i]@);
    let mut out: Vec<Result<String, AgentError>> = Vec::new();
    let mut i: usize = 0;
    proof {
        assert(fsv.subrange(0, fsv.len() as int) =~= fsv);
        assert(Seq::new(out@.len(), |k: int| item_view(out@[k]))
            =~= Seq::<StreamItemView>::empty());
        assert(Seq::<StreamItemView>::empty() + spec_decode_frames(fsv) =~= spec_decode_frames(
            fsv,
        ));
    }
    while i < frames.len()
        invariant
            i <= frames@.len(),
            fsv == Seq::new(frames@.len(), |k: int| frames@[k]@),
            spec_decode_frames(fsv) == Seq::new(out@.len(), |k: int| item_view(out@[k]))
                + spec_decode_frames(fsv.subrange(i as int, fsv.len() as int)),
        decreases frames@.len() - i,
    {
        let ghost pre = Seq::new(out@.len(), |k: int| item_view(out@[k]));
        let ghost rest = fsv.subrange(i as int, fsv.len() as int);
        proof {
            assert(rest[0] == fsv[i as int]);
            assert(rest.drop_first() =~= fsv.subrange(i as int + 1, fsv.len() as int));
        }
        match decode_stream_frame(frames[i].as_str()) {
            FrameStep::Finished => {
                proof {
                    assert(spec_decode_frames(rest) =~= Seq::<StreamItemView>::empty());
                    assert(spec_decode_frames(fsv) =~= pre);
                }
                return out;
            },
            FrameStep::Fragment(t) => {
                out.push(Ok(t));
                proof {
                    assert(Seq::new(out@.len(), |k: int| item_view(out@[k])) =~= pre.push(
                        item_view(out@[out@.len() - 1]),
                    ));
                    assert(pre + spec_decode_frames(rest) =~= Seq::new(
                        out@.len(),
                        |k: int| item_view(out@[k]),
                    ) + spec_decode_frames(fsv.subrange(i as int + 1, fsv.len() as int)));
                }
            },
            FrameStep::Skip => {},
            FrameStep::Malformed => {
                out.push(
                    Err(AgentError::Protocol(String::from_str("Failed to parse JSON"))),
                );
                proof {
                    assert(Seq::new(out@.len(), |k: int| item_view(out@[k])) =~= pre.push(
                        item_view(out@[out@.len() - 1]),
                    ));
                    assert(pre + spec_decode_frames(rest) =~= Seq::new(
                        out@.len(),
                        |k: int| item_view(out@[k]),
                    ) + spec_decode_frames(fsv.subrange(i as int + 1, fsv.len() as int)));
                }
            },
        }
        i = i + 1;
    }
    proof {
        assert(fsv.subrange(fsv.len() as int, fsv.len() as int) =~= Seq::<Seq<char>>::empty());
        assert(spec_decode_frames(fsv) =~= Seq::new(out@.len(), |k: int| item_view(out@[k])));
    }
    out
}

// ---------------------------------------------------------------------------
// Laws of stream decoding
// ---------------------------------------------------------------------------

/// A frame sequence that reaches the sentinel produces exactly the items of
/// the frames before it: the sequence is finite and the sentinel itself is
/// excluded, whatever follows it.
pub proof fn lemma_frames_end_at_sentinel(fs: Seq<Seq<char>>, rest: Seq<Seq<char>>)
    requires
        forall|k: int| 0 <= k < fs.len() ==> !(#[trigger] spec_decode_frame(fs[k])
            is Finished),
    ensures
        spec_decode_frames(fs + seq!["[DONE]"@] + rest) == spec_decode_frames(fs),
    decreases fs.len(),
{
    let whole = fs + seq!["[DONE]"@] + rest;
    if fs.len() == 0 {
        assert(whole[0] == "[DONE]"@);
        assert(spec_decode_frame(whole[0]) is Finished);
        assert(spec_decode_frames(whole) =~= Seq::<StreamItemView>::empty());
        assert(spec_decode_frames(fs) =~= Seq::<StreamItemView>::empty());
    } else {
        assert(whole[0] == fs[0]);
        assert(whole.drop_first() =~= fs.drop_first() + seq!["[DONE]"@] + rest);
        lemma_frames_end_at_sentinel(fs.drop_first(), rest);
    }
}

/// One malformed frame yields exactly one failure item at its position; the
/// fragments produced before it are unaffected, and decoding continues
/// after it.
pub proof fn lemma_malformed_frame_is_local(fs: Seq<Seq<char>>, bad: Seq<char>, rest: Seq<
    Seq<char>,
>)
    requires
        forall|k: int| 0 <= k < fs.len() ==> !(#[trigger] spec_decode_frame(fs[k])
            is Finished),
        spec_decode_frame(bad) is Malformed,
    ensures
        spec_decode_frames(fs + seq![bad] + rest) == spec_decode_frames(fs) + seq![
            StreamItemView::Failure,
        ] + spec_decode_frames(rest),
    decreases fs.len(),
{
    let whole = fs + seq![bad] + rest;
    if fs.len() == 0 {
        assert(whole[0] == bad);
        assert(whole.drop_first() =~= rest);
        assert(spec_decode_frames(whole) =~= seq![StreamItemView::Failure] + spec_decode_frames(
            rest,
        ));
        assert(spec_decode_frames(fs) =~= Seq::<StreamItemView>::empty());
        assert(spec_decode_frames(fs) + seq![StreamItemView::Failure] + spec_decode_frames(rest)
            =~= seq![StreamItemView::Failure] + spec_decode_frames(rest));
    } else {
        assert(whole[0] == fs[0]);
        assert(whole.drop_first() =~= fs.drop_first() + seq![bad] + rest);
        lemma_malformed_frame_is_local(fs.drop_first(), bad, rest);
        match spec_decode_frame(fs[0]) {
            FrameStepView::Finished => {},
            FrameStepView::Fragment(t) => {
                assert(spec_decode_frames(whole) =~= spec_decode_frames(fs) + seq![
                    StreamItemView::Failure,
                ] + spec_decode_frames(rest));
            },
            FrameStepView::Skip => {},
            FrameStepView::Malformed => {
                assert(spec_decode_frames(whole) =~= spec_decode_frames(fs) + seq![
                    StreamItemView::Failure,
                ] + spec_decode_frames(rest));
            },
        }
    }
}

/// A role-only or empty delta contributes nothing: the frames around it
/// alone determine the produced sequence.
pub proof fn lemma_skipped_frame_vanishes(d: Seq<char>, rest: Seq<Seq<char>>)
    requires
        spec_decode_frame(d) is Skip,
    ensures
        spec_decode_frames(seq![d] + rest) == spec_decode_frames(rest),
{
    assert((seq![d] + rest)[0] == d);
    assert((seq![d] + rest).drop_first() =~= rest);
}

} // verus!
