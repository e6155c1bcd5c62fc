//! The client side: building one request frame per call and reading one
//! reply frame back.
//!
//! A proxy owns exactly one pipe pair to one plugin process, and its calls
//! are strictly sequential: write one request frame, then read exactly one
//! reply frame, before the next call begins. There is no pipelining and no
//! correlation id on the wire, so a proxy must not be driven from two
//! callers at once without external mutual exclusion — interleaved writes
//! or reads would desynchronize the stream, and that is undefined
//! behaviour of the protocol, not something that happens to work. The
//! functions here are the pure halves of each call; the process spawn and
//! the pipe reads and writes around them belong to the caller.

use vstd::prelude::*;
use crate::codec::{
    dec_outcome, enc_envelope, enc_frame, encode_message_frame, views_of, EnvelopeView,
    MessageEnvelope, OutcomeView, wf_envelope,
};
use crate::dispatch::{OP_FLOAT_OP, OP_GET_NAME, OP_RANDOM_BYTES, OP_SET_ROUNDING};
use crate::value::{Value, ValueView};

verus! {

/// Why a call failed on the client side. Transport-level failures are
/// never retried silently; an application failure carries the text the
/// service put in the failure arm of the result wrapper.
#[derive(Debug, PartialEq)]
pub enum CallError {
    /// The reply frame did not decode to an outcome of the protocol.
    MalformedReply,
    /// The reply was for some other operation: the stream is out of step.
    TagMismatch,
    /// The service's own logic failed and said why.
    Application(String),
}

/// Builds the one request frame of a call from the call's arguments.
pub fn build_request(tag: u8, args: Vec<Value>) -> (r: Vec<u8>)
    requires
        wf_envelope(EnvelopeView { tag, items: views_of(args@) }),
    ensures
        r@ == enc_frame(enc_envelope(EnvelopeView { tag, items: views_of(args@) })),
{
    encode_message_frame(&MessageEnvelope { tag, args })
}

/// Reads one reply frame payload back as the values of a call's response
/// envelope: the failure arm becomes the call's error, a case tag other
/// than the invoked operation's is a protocol error, and a matching
/// success case hands back its field values.
pub fn parse_reply_payload(expect_tag: u8, payload: &[u8]) -> (r: Result<Vec<Value>, CallError>)
    ensures
        match dec_outcome(payload@) {
            None => r matches Err(CallError::MalformedReply),
            Some(o) => match o {
                OutcomeView::Failure(t) => r matches Err(ce) && ce matches CallError::Application(
                    s,
                ) && s@ == t,
                OutcomeView::Success(e) => if e.tag != expect_tag {
                    r matches Err(CallError::TagMismatch)
                } else {
                    r matches Ok(vals) && views_of(vals@) == e.items
                },
            },
        },
{
    match crate::codec::decode_outcome_payload(payload) {
        None => Err(CallError::MalformedReply),
        Some(o) => match o {
            crate::codec::Outcome::Failure(s) => Err(CallError::Application(s)),
            crate::codec::Outcome::Success(e) => {
                if e.tag != expect_tag {
                    Err(CallError::TagMismatch)
                } else {
                    Ok(e.vals)
                }
            },
        },
    }
}

/// The request frame of one "get name" call.
pub fn build_get_name_request() -> (r: Vec<u8>)
    ensures
        r@ == enc_frame(
            enc_envelope(EnvelopeView { tag: OP_GET_NAME, items: Seq::empty() }),
        ),
{
    let args: Vec<Value> = Vec::new();
    proof {
        assert(views_of(args@) =~= Seq::<ValueView>::empty());
        assert(crate::codec::enc_values(Seq::<ValueView>::empty()) == Seq::<u8>::empty());
    }
    build_request(OP_GET_NAME, args)
}

/// The request frame of one "set rounding" call.
pub fn build_set_rounding_request(rounding: bool) -> (r: Vec<u8>)
    ensures
        r@ == enc_frame(
            enc_envelope(
                EnvelopeView { tag: OP_SET_ROUNDING, items: seq![ValueView::Bool(rounding)] },
            ),
        ),
{
    let mut args: Vec<Value> = Vec::new();
    args.push(Value::Bool(rounding));
    proof {
        assert(views_of(args@) =~= seq![ValueView::Bool(rounding)]);
        lemma_small_envelope(OP_SET_ROUNDING, views_of(args@));
    }
    build_request(OP_SET_ROUNDING, args)
}

/// The request frame of one "float operation" call: the two numeric
/// arguments as 64-bit words.
pub fn build_float_op_request(a: u64, b: u64) -> (r: Vec<u8>)
    ensures
        r@ == enc_frame(
            enc_envelope(
                EnvelopeView {
                    tag: OP_FLOAT_OP,
                    items: seq![ValueView::Num(a), ValueView::Num(b)],
                },
            ),
        ),
{
    let mut args: Vec<Value> = Vec::new();
    args.push(Value::Num(a));
    args.push(Value::Num(b));
    proof {
        assert(views_of(args@) =~= seq![ValueView::Num(a), ValueView::Num(b)]);
        lemma_small_envelope(OP_FLOAT_OP, views_of(args@));
    }
    build_request(OP_FLOAT_OP, args)
}

/// The request frame of one "random bytes" call for `count` bytes.
pub fn build_random_bytes_request(count: u64) -> (r: Vec<u8>)
    ensures
        r@ == enc_frame(
            enc_envelope(
                EnvelopeView { tag: OP_RANDOM_BYTES, items: seq![ValueView::Num(count)] },
            ),
        ),
{
    let mut args: Vec<Value> = Vec::new();
    args.push(Value::Num(count));
    proof {
        assert(views_of(args@) =~= seq![ValueView::Num(count)]);
        lemma_small_envelope(OP_RANDOM_BYTES, views_of(args@));
    }
    build_request(OP_RANDOM_BYTES, args)
}

/// An envelope of at most two scalar values always fits one frame.
proof fn lemma_small_envelope(tag: u8, items: Seq<ValueView>)
    requires
        items.len() <= 2,
        forall|i: int|
            0 <= i < items.len() ==> (#[trigger] items[i]) is Bool || items[i] is Num,
    ensures
        wf_envelope(EnvelopeView { tag, items }),
{
    vstd::bytes::lemma_auto_spec_u64_to_from_le_bytes();
    let e = EnvelopeView { tag, items };
    if items.len() == 0 {
        assert(crate::codec::enc_values(items) == Seq::<u8>::empty());
    } else if items.len() == 1 {
        assert(items.drop_first() =~= Seq::<ValueView>::empty());
        assert(crate::codec::enc_values(Seq::<ValueView>::empty()) == Seq::<u8>::empty());
        assert(crate::codec::enc_values(items) == crate::codec::enc_value(items[0])
            + Seq::<u8>::empty());
        assert(crate::codec::enc_value(items[0]).len() <= 9);
    } else {
        assert(items.drop_first().drop_first() =~= Seq::<ValueView>::empty());
        assert(crate::codec::enc_values(Seq::<ValueView>::empty()) == Seq::<u8>::empty());
        assert(crate::codec::enc_values(items.drop_first()) == crate::codec::enc_value(
            items.drop_first()[0],
        ) + Seq::<u8>::empty());
        assert(crate::codec::enc_values(items) == crate::codec::enc_value(items[0])
            + crate::codec::enc_values(items.drop_first()));
        assert(crate::codec::enc_value(items[0]).len() <= 9);
        assert(crate::codec::enc_value(items.drop_first()[0]).len() <= 9);
    }
}

/// Reads a "get name" reply: the one text field of the response case.
pub fn parse_get_name_reply(payload: &[u8]) -> (r: Result<String, CallError>)
    ensures
        match dec_outcome(payload@) {
            None => r matches Err(CallError::MalformedReply),
            Some(o) => match o {
                OutcomeView::Failure(t) => r matches Err(ce) && ce matches CallError::Application(
                    s,
                ) && s@ == t,
                OutcomeView::Success(e) => if e.tag != OP_GET_NAME {
                    r matches Err(CallError::TagMismatch)
                } else if e.items.len() == 1 && e.items[0] is Text {
                    r matches Ok(name) && ValueView::Text(name@) == e.items[0]
                } else {
                    r matches Err(CallError::MalformedReply)
                },
            },
        },
{
    match parse_reply_payload(OP_GET_NAME, payload) {
        Err(ce) => Err(ce),
        Ok(mut vals) => {
            if vals.len() != 1 {
                return Err(CallError::MalformedReply);
            }
            let v = vals.remove(0);
            match v {
                Value::Text(name) => Ok(name),
                _ => Err(CallError::MalformedReply),
            }
        },
    }
}

/// Reads a "set rounding" reply: the response case carries no fields.
pub fn parse_set_rounding_reply(payload: &[u8]) -> (r: Result<(), CallError>)
    ensures
        match dec_outcome(payload@) {
            None => r matches Err(CallError::MalformedReply),
            Some(o) => match o {
                OutcomeView::Failure(t) => r matches Err(ce) && ce matches CallError::Application(
                    s,
                ) && s@ == t,
                OutcomeView::Success(e) => if e.tag != OP_SET_ROUNDING {
                    r matches Err(CallError::TagMismatch)
                } else if e.items.len() == 0 {
                    r is Ok
                } else {
                    r matches Err(CallError::MalformedReply)
                },
            },
        },
{
    match parse_reply_payload(OP_SET_ROUNDING, payload) {
        Err(ce) => Err(ce),
        Ok(vals) => {
            if vals.len() != 0 {
                return Err(CallError::MalformedReply);
            }
            Ok(())
        },
    }
}

/// Reads a "float operation" reply: the one numeric field of the
/// response case, as a 64-bit word.
pub fn parse_float_op_reply(payload: &[u8]) -> (r: Result<u64, CallError>)
    ensures
        match dec_outcome(payload@) {
            None => r matches Err(CallError::MalformedReply),
            Some(o) => match o {
                OutcomeView::Failure(t) => r matches Err(ce) && ce matches CallError::Application(
                    s,
                ) && s@ == t,
                OutcomeView::Success(e) => if e.tag != OP_FLOAT_OP {
                    r matches Err(CallError::TagMismatch)
                } else if e.items.len() == 1 && e.items[0] is Num {
                    r matches Ok(n) && ValueView::Num(n) == e.items[0]
                } else {
                    r matches Err(CallError::MalformedReply)
                },
            },
        },
{
    match parse_reply_payload(OP_FLOAT_OP, payload) {
        Err(ce) => Err(ce),
        Ok(vals) => {
            if vals.len() != 1 {
                return Err(CallError::MalformedReply);
            }
            match &vals[0] {
                Value::Num(n) => Ok(*n),
                _ => Err(CallError::MalformedReply),
            }
        },
    }
}

/// Reads a "random bytes" reply: the one byte-sequence field of the
/// response case.
pub fn parse_random_bytes_reply(payload: &[u8]) -> (r: Result<Vec<u8>, CallError>)
    ensures
        match dec_outcome(payload@) {
            None => r matches Err(CallError::MalformedReply),
            Some(o) => match o {
                OutcomeView::Failure(t) => r matches Err(ce) && ce matches CallError::Application(
                    s,
                ) && s@ == t,
                OutcomeView::Success(e) => if e.tag != OP_RANDOM_BYTES {
                    r matches Err(CallError::TagMismatch)
                } else if e.items.len() == 1 && e.items[0] is Bytes {
                    r matches Ok(bs) && ValueView::Bytes(bs@) == e.items[0]
                } else {
                    r matches Err(CallError::MalformedReply)
                },
            },
        },
{
    match parse_reply_payload(OP_RANDOM_BYTES, payload) {
        Err(ce) => Err(ce),
        Ok(mut vals) => {
            if vals.len() != 1 {
                return Err(CallError::MalformedReply);
            }
            let v = vals.remove(0);
            match v {
                Value::Bytes(bs) => Ok(bs),
                _ => Err(CallError::MalformedReply),
            }
        },
    }
}

} // verus!
