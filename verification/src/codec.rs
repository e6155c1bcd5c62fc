//! The frame codec: a self-delimiting byte encoding for envelopes and for
//! the success/failure wrapper around every transmitted response.
//!
//! Every transmitted unit is one frame: a four-byte little-endian length
//! word followed by exactly that many payload bytes. A payload is either a
//! message envelope (a case tag, a field count, then the field values) or an
//! outcome (a success byte and a response envelope, or a failure byte and a
//! text message). Each value is tagged with its field type and carries its
//! own length where it is variable-sized, so a reader always knows where one
//! value ends and the next begins.

use vstd::prelude::*;
use vstd::bytes::{
    lemma_auto_spec_u32_to_from_le_bytes, lemma_auto_spec_u64_to_from_le_bytes,
    spec_u32_from_le_bytes, spec_u32_to_le_bytes, spec_u64_from_le_bytes, spec_u64_to_le_bytes,
};
use vstd::string::StringSliceAdditionalSpecFns;
use vstd::utf8::{decode_utf8, encode_utf8, encode_utf8_decode_utf8, encode_utf8_valid_utf8,
    valid_utf8};
use crate::value::{wf_value, Value, ValueView, MAX_SEGMENT};

verus! {

/// Wire tag of a boolean value.
pub const TAG_BOOL: u8 = 1;

/// Wire tag of a numeric value.
pub const TAG_NUM: u8 = 2;

/// Wire tag of a byte-sequence value.
pub const TAG_BYTES: u8 = 3;

/// Wire tag of a text value.
pub const TAG_TEXT: u8 = 4;

/// First payload byte of a successful outcome.
pub const OUTCOME_OK: u8 = 0;

/// First payload byte of a failed outcome.
pub const OUTCOME_ERR: u8 = 1;

/// Most fields any envelope case may carry: the count travels as one byte.
pub const MAX_FIELDS: usize = 255;

/// The mathematical shape of an envelope: a case tag and the case's field
/// values in declared order. Message envelopes (client to service) and
/// response envelopes (service to client) share this shape.
pub struct EnvelopeView {
    pub tag: u8,
    pub items: Seq<ValueView>,
}

/// The mathematical shape of the result wrapper around every transmitted
/// response: success carries a response envelope, failure carries the text
/// of the error.
pub enum OutcomeView {
    Success(EnvelopeView),
    Failure(Seq<char>),
}

// ------------------------------------------------------------------
// Spec-level encoders
// ------------------------------------------------------------------

/// Encoding of one value: a type tag, then a fixed-width or
/// length-prefixed body.
pub open spec fn enc_value(v: ValueView) -> Seq<u8> {
    match v {
        ValueView::Bool(x) => seq![TAG_BOOL, if x { 1u8 } else { 0u8 }],
        ValueView::Num(n) => seq![TAG_NUM] + spec_u64_to_le_bytes(n),
        ValueView::Bytes(b) => seq![TAG_BYTES] + spec_u32_to_le_bytes(b.len() as u32) + b,
        ValueView::Text(s) => {
            let u = encode_utf8(s);
            seq![TAG_TEXT] + spec_u32_to_le_bytes(u.len() as u32) + u
        },
    }
}

/// Encoding of a list of values, in order, one after the other.
pub open spec fn enc_values(vs: Seq<ValueView>) -> Seq<u8>
    decreases vs.len(),
{
    if vs.len() == 0 {
        Seq::empty()
    } else {
        enc_value(vs[0]) + enc_values(vs.drop_first())
    }
}

/// Encoding of an envelope payload: case tag, field count, field values.
pub open spec fn enc_envelope(e: EnvelopeView) -> Seq<u8> {
    seq![e.tag, e.items.len() as u8] + enc_values(e.items)
}

/// Encoding of an outcome payload.
pub open spec fn enc_outcome(o: OutcomeView) -> Seq<u8> {
    match o {
        OutcomeView::Success(e) => seq![OUTCOME_OK] + enc_envelope(e),
        OutcomeView::Failure(m) => {
            let u = encode_utf8(m);
            seq![OUTCOME_ERR] + spec_u32_to_le_bytes(u.len() as u32) + u
        },
    }
}

/// Encoding of one frame: the payload behind its four-byte length word.
pub open spec fn enc_frame(payload: Seq<u8>) -> Seq<u8> {
    spec_u32_to_le_bytes(payload.len() as u32) + payload
}

// ------------------------------------------------------------------
// Well-formedness: what fits its length words
// ------------------------------------------------------------------

/// Values that fit the wire, few enough to count in one byte.
pub open spec fn wf_items(items: Seq<ValueView>) -> bool {
    &&& items.len() <= MAX_FIELDS
    &&& forall|i: int| 0 <= i < items.len() ==> wf_value(#[trigger] items[i])
}

/// An envelope whose encoding is fully faithful: every field fits its
/// length word, the count fits one byte, and the whole payload fits a
/// frame's length word even with the outcome byte in front of it.
pub open spec fn wf_envelope(e: EnvelopeView) -> bool {
    &&& wf_items(e.items)
    &&& enc_envelope(e).len() < MAX_SEGMENT
}

/// A failure message that fits its length word inside one frame.
pub open spec fn wf_failure_text(m: Seq<char>) -> bool {
    encode_utf8(m).len() <= MAX_SEGMENT
}

/// An outcome whose encoding fits one frame.
pub open spec fn wf_outcome(o: OutcomeView) -> bool {
    match o {
        OutcomeView::Success(e) => wf_envelope(e),
        OutcomeView::Failure(m) => wf_failure_text(m) && enc_outcome(o).len() <= MAX_SEGMENT,
    }
}

// ------------------------------------------------------------------
// Spec-level decoders
// ------------------------------------------------------------------

/// Decoding of one value from the front of `b`: the value and how many
/// bytes it occupied, or nothing if no well-formed value starts here.
pub open spec fn dec_value(b: Seq<u8>) -> Option<(ValueView, int)> {
    if b.len() < 1 {
        None
    } else if b[0] == TAG_BOOL {
        if b.len() >= 2 && (b[1] == 0 || b[1] == 1) {
            Some((ValueView::Bool(b[1] == 1), 2int))
        } else {
            None
        }
    } else if b[0] == TAG_NUM {
        if b.len() >= 9 {
            Some((ValueView::Num(spec_u64_from_le_bytes(b.subrange(1, 9))), 9int))
        } else {
            None
        }
    } else if b[0] == TAG_BYTES {
        if b.len() >= 5 {
            let n = spec_u32_from_le_bytes(b.subrange(1, 5)) as int;
            if b.len() >= 5 + n {
                Some((ValueView::Bytes(b.subrange(5, 5 + n)), 5 + n))
            } else {
                None
            }
        } else {
            None
        }
    } else if b[0] == TAG_TEXT {
        if b.len() >= 5 {
            let n = spec_u32_from_le_bytes(b.subrange(1, 5)) as int;
            if b.len() >= 5 + n && valid_utf8(b.subrange(5, 5 + n)) {
                Some((ValueView::Text(decode_utf8(b.subrange(5, 5 + n))), 5 + n))
            } else {
                None
            }
        } else {
            None
        }
    } else {
        None
    }
}

/// Decoding of exactly `n` values from the front of `b`.
pub open spec fn dec_values(b: Seq<u8>, n: int) -> Option<(Seq<ValueView>, int)>
    decreases n,
{
    if n <= 0 {
        Some((Seq::empty(), 0int))
    } else {
        match dec_value(b) {
            None => None,
            Some((v, k)) => match dec_values(b.skip(k), n - 1) {
                None => None,
                Some((vs, m)) => Some((seq![v] + vs, k + m)),
            },
        }
    }
}

/// Decoding of an envelope from a whole payload. The payload must be
/// consumed exactly: trailing bytes mean a malformed frame.
pub open spec fn dec_envelope(b: Seq<u8>) -> Option<EnvelopeView> {
    if b.len() < 2 {
        None
    } else {
        match dec_values(b.skip(2), b[1] as int) {
            None => None,
            Some((vs, k)) => if 2 + k == b.len() {
                Some(EnvelopeView { tag: b[0], items: vs })
            } else {
                None
            },
        }
    }
}

/// Decoding of an outcome from a whole payload, consumed exactly.
pub open spec fn dec_outcome(b: Seq<u8>) -> Option<OutcomeView> {
    if b.len() < 1 {
        None
    } else if b[0] == OUTCOME_OK {
        match dec_envelope(b.skip(1)) {
            None => None,
            Some(e) => Some(OutcomeView::Success(e)),
        }
    } else if b[0] == OUTCOME_ERR {
        if b.len() >= 5 {
            let n = spec_u32_from_le_bytes(b.subrange(1, 5)) as int;
            if b.len() == 5 + n && valid_utf8(b.skip(5)) {
                Some(OutcomeView::Failure(decode_utf8(b.skip(5))))
            } else {
                None
            }
        } else {
            None
        }
    } else {
        None
    }
}

/// Decoding of one frame from the front of `b`: its payload and how many
/// bytes the frame occupied, or nothing while the frame is still
/// incomplete or no length word is readable.
pub open spec fn dec_frame(b: Seq<u8>) -> Option<(Seq<u8>, int)> {
    if b.len() < 4 {
        None
    } else {
        let n = spec_u32_from_le_bytes(b.subrange(0, 4)) as int;
        if b.len() >= 4 + n {
            Some((b.subrange(4, 4 + n), 4 + n))
        } else {
            None
        }
    }
}

// ------------------------------------------------------------------
// Round-trip and self-delimitation lemmas
// ------------------------------------------------------------------

/// Decoding reads back exactly the value that was encoded, however many
/// bytes follow it.
pub proof fn lemma_dec_enc_value(v: ValueView, rest: Seq<u8>)
    requires
        wf_value(v),
    ensures
        dec_value(enc_value(v) + rest) == Some((v, enc_value(v).len() as int)),
{
    lemma_auto_spec_u32_to_from_le_bytes();
    lemma_auto_spec_u64_to_from_le_bytes();
    let e = enc_value(v);
    let b = e + rest;
    match v {
        ValueView::Bool(x) => {
            assert(b[0] == TAG_BOOL && b[1] == (if x { 1u8 } else { 0u8 }));
        },
        ValueView::Num(n) => {
            assert(b.subrange(1, 9) =~= spec_u64_to_le_bytes(n));
        },
        ValueView::Bytes(s) => {
            let w = spec_u32_to_le_bytes(s.len() as u32);
            assert(b.subrange(1, 5) =~= w);
            assert(spec_u32_from_le_bytes(w) as int == s.len());
            assert(b.subrange(5, 5 + s.len() as int) =~= s);
        },
        ValueView::Text(s) => {
            let u = encode_utf8(s);
            let w = spec_u32_to_le_bytes(u.len() as u32);
            assert(b.subrange(1, 5) =~= w);
            assert(spec_u32_from_le_bytes(w) as int == u.len());
            assert(b.subrange(5, 5 + u.len() as int) =~= u);
            encode_utf8_valid_utf8(s);
            encode_utf8_decode_utf8(s);
        },
    }
}

/// Decoding reads back exactly the list of values that was encoded.
pub proof fn lemma_dec_enc_values(vs: Seq<ValueView>, rest: Seq<u8>)
    requires
        forall|i: int| 0 <= i < vs.len() ==> wf_value(#[trigger] vs[i]),
    ensures
        dec_values(enc_values(vs) + rest, vs.len() as int) == Some((
            vs,
            enc_values(vs).len() as int,
        )),
    decreases vs.len(),
{
    if vs.len() == 0 {
        assert(enc_values(vs) + rest =~= rest);
        assert(vs =~= Seq::<ValueView>::empty());
    } else {
        let v = vs[0];
        let tail = vs.drop_first();
        let ev = enc_value(v);
        let et = enc_values(tail);
        let b = enc_values(vs) + rest;
        assert(b =~= ev + (et + rest));
        lemma_dec_enc_value(v, et + rest);
        assert(b.skip(ev.len() as int) =~= et + rest);
        lemma_dec_enc_values(tail, rest);
        assert(seq![v] + tail =~= vs);
    }
}

/// Decoding a whole well-formed envelope payload reads back the envelope.
pub proof fn lemma_dec_enc_envelope(e: EnvelopeView)
    requires
        wf_items(e.items),
    ensures
        dec_envelope(enc_envelope(e)) == Some(e),
{
    let b = enc_envelope(e);
    assert(b[1] as int == e.items.len());
    assert(b.skip(2) =~= enc_values(e.items) + Seq::<u8>::empty());
    lemma_dec_enc_values(e.items, Seq::empty());
    assert(2 + enc_values(e.items).len() == b.len());
}

/// Decoding a whole well-formed outcome payload reads back the outcome.
pub proof fn lemma_dec_enc_outcome(o: OutcomeView)
    requires
        wf_outcome(o),
    ensures
        dec_outcome(enc_outcome(o)) == Some(o),
{
    lemma_auto_spec_u32_to_from_le_bytes();
    let b = enc_outcome(o);
    match o {
        OutcomeView::Success(e) => {
            assert(b.skip(1) =~= enc_envelope(e));
            lemma_dec_enc_envelope(e);
        },
        OutcomeView::Failure(m) => {
            let u = encode_utf8(m);
            let w = spec_u32_to_le_bytes(u.len() as u32);
            assert(b.subrange(1, 5) =~= w);
            assert(spec_u32_from_le_bytes(w) as int == u.len());
            assert(b.skip(5) =~= u);
            encode_utf8_valid_utf8(m);
            encode_utf8_decode_utf8(m);
        },
    }
}

/// Frames are self-delimiting: decoding after encoding reads back exactly
/// the framed payload and stops exactly at its end, whatever follows. This
/// is what keeps one reader and one writer in step: a stream of frames can
/// never shift the boundary of the next read.
pub proof fn lemma_dec_enc_frame(payload: Seq<u8>, rest: Seq<u8>)
    requires
        payload.len() <= MAX_SEGMENT,
    ensures
        dec_frame(enc_frame(payload) + rest) == Some((
            payload,
            enc_frame(payload).len() as int,
        )),
        (enc_frame(payload) + rest).skip(enc_frame(payload).len() as int) == rest,
{
    lemma_auto_spec_u32_to_from_le_bytes();
    let w = spec_u32_to_le_bytes(payload.len() as u32);
    let b = enc_frame(payload) + rest;
    assert(b.subrange(0, 4) =~= w);
    assert(spec_u32_from_le_bytes(w) as int == payload.len());
    assert(b.subrange(4, 4 + payload.len() as int) =~= payload);
    assert(b.skip(enc_frame(payload).len() as int) =~= rest);
}

/// Encoding of a whole stream of frame payloads, one frame after the
/// other.
pub open spec fn enc_frames(ps: Seq<Seq<u8>>) -> Seq<u8>
    decreases ps.len(),
{
    if ps.len() == 0 {
        Seq::empty()
    } else {
        enc_frame(ps[0]) + enc_frames(ps.drop_first())
    }
}

/// Decoding of exactly `n` frames from the front of `b`.
pub open spec fn dec_frames(b: Seq<u8>, n: int) -> Option<Seq<Seq<u8>>>
    decreases n,
{
    if n <= 0 {
        Some(Seq::empty())
    } else {
        match dec_frame(b) {
            None => None,
            Some((p, k)) => match dec_frames(b.skip(k), n - 1) {
                None => None,
                Some(ps) => Some(seq![p] + ps),
            },
        }
    }
}

/// Sequential integrity: frames written one after the other are read back
/// one after the other, exactly as written and in the same order, however
/// many bytes of later traffic follow them. With one request outstanding
/// at a time, reply N can therefore never be taken for reply N+1: the
/// reader's frame boundaries are fixed by the frames themselves.
pub proof fn lemma_frames_in_order(ps: Seq<Seq<u8>>, rest: Seq<u8>)
    requires
        forall|i: int| 0 <= i < ps.len() ==> (#[trigger] ps[i]).len() <= MAX_SEGMENT,
    ensures
        dec_frames(enc_frames(ps) + rest, ps.len() as int) == Some(ps),
    decreases ps.len(),
{
    if ps.len() == 0 {
        assert(Seq::<Seq<u8>>::empty() =~= ps);
    } else {
        let p = ps[0];
        let tail = ps.drop_first();
        let b = enc_frames(ps) + rest;
        assert(b =~= enc_frame(p) + (enc_frames(tail) + rest));
        lemma_dec_enc_frame(p, enc_frames(tail) + rest);
        assert(b.skip(enc_frame(p).len() as int) =~= enc_frames(tail) + rest);
        lemma_frames_in_order(tail, rest);
        assert(seq![p] + tail =~= ps);
    }
}

// ------------------------------------------------------------------
// Executable envelopes and outcomes
// ------------------------------------------------------------------

/// The views of a list of values, in order.
pub open spec fn views_of(vs: Seq<Value>) -> Seq<ValueView> {
    Seq::new(vs.len(), |i: int| vs[i]@)
}

/// A message envelope: the case tag of the requested operation and its
/// request field values in declared order. Sent client to service.
#[derive(Debug, PartialEq)]
pub struct MessageEnvelope {
    pub tag: u8,
    pub args: Vec<Value>,
}

impl View for MessageEnvelope {
    type V = EnvelopeView;

    open spec fn view(&self) -> EnvelopeView {
        EnvelopeView { tag: self.tag, items: views_of(self.args@) }
    }
}

/// A response envelope: the case tag of the answered operation and its
/// response field values in declared order. Sent service to client, always
/// inside an [`Outcome`].
#[derive(Debug, PartialEq)]
pub struct ResponseEnvelope {
    pub tag: u8,
    pub vals: Vec<Value>,
}

impl View for ResponseEnvelope {
    type V = EnvelopeView;

    open spec fn view(&self) -> EnvelopeView {
        EnvelopeView { tag: self.tag, items: views_of(self.vals@) }
    }
}

/// The result wrapper around every transmitted response: the only channel
/// by which an application error crosses the process boundary.
#[derive(Debug, PartialEq)]
pub enum Outcome {
    Success(ResponseEnvelope),
    Failure(String),
}

impl View for Outcome {
    type V = OutcomeView;

    open spec fn view(&self) -> OutcomeView {
        match self {
            Outcome::Success(e) => OutcomeView::Success(e@),
            Outcome::Failure(m) => OutcomeView::Failure(m@),
        }
    }
}

/// Appending one value to a list appends its encoding.
pub proof fn lemma_enc_values_snoc(vs: Seq<ValueView>, v: ValueView)
    ensures
        enc_values(vs.push(v)) == enc_values(vs) + enc_value(v),
    decreases vs.len(),
{
    if vs.len() == 0 {
        assert(vs.push(v)[0] == v);
        assert(vs.push(v).drop_first() =~= Seq::<ValueView>::empty());
        assert(enc_values(Seq::<ValueView>::empty()) == Seq::<u8>::empty());
        assert(enc_values(vs) == Seq::<u8>::empty());
        assert(enc_values(vs.push(v)) == enc_value(v) + Seq::<u8>::empty());
        assert(enc_value(v) + Seq::<u8>::empty() =~= Seq::<u8>::empty() + enc_value(v));
    } else {
        assert(vs.push(v).drop_first() =~= vs.drop_first().push(v));
        lemma_enc_values_snoc(vs.drop_first(), v);
        assert(vs.push(v)[0] == vs[0]);
        assert(enc_values(vs.push(v)) == enc_value(vs[0]) + (enc_values(vs.drop_first())
            + enc_value(v)));
        assert(enc_value(vs[0]) + (enc_values(vs.drop_first()) + enc_value(v)) =~= (enc_value(
            vs[0],
        ) + enc_values(vs.drop_first())) + enc_value(v));
    }
}

// ------------------------------------------------------------------
// Executable encoders
// ------------------------------------------------------------------

fn encode_value_into(out: &mut Vec<u8>, v: &Value)
    requires
        wf_value(v@),
    ensures
        final(out)@ == old(out)@ + enc_value(v@),
{
    match v {
        Value::Bool(x) => {
            out.push(TAG_BOOL);
            out.push(if *x { 1u8 } else { 0u8 });
            assert(final(out)@ =~= old(out)@ + enc_value(v@));
        },
        Value::Num(n) => {
            out.push(TAG_NUM);
            let mut w = vstd::bytes::u64_to_le_bytes(*n);
            out.append(&mut w);
            assert(final(out)@ =~= old(out)@ + enc_value(v@));
        },
        Value::Bytes(b) => {
            out.push(TAG_BYTES);
            let mut w = vstd::bytes::u32_to_le_bytes(b.len() as u32);
            out.append(&mut w);
            out.extend_from_slice(b.as_slice());
            assert(final(out)@ =~= old(out)@ + enc_value(v@));
        },
        Value::Text(s) => {
            let bs = s.as_str().as_bytes();
            out.push(TAG_TEXT);
            let mut w = vstd::bytes::u32_to_le_bytes(bs.len() as u32);
            out.append(&mut w);
            out.extend_from_slice(bs);
            assert(final(out)@ =~= old(out)@ + enc_value(v@));
        },
    }
}

fn encode_values_into(out: &mut Vec<u8>, vs: &Vec<Value>)
    requires
        forall|i: int| 0 <= i < vs@.len() ==> wf_value(#[trigger] views_of(vs@)[i]),
    ensures
        final(out)@ == old(out)@ + enc_values(views_of(vs@)),
{
    let ghost all = views_of(vs@);
    let n = vs.len();
    let mut i: usize = 0;
    proof {
        assert(out@ =~= old(out)@ + enc_values(all.take(0)));
    }
    while i < n
        invariant
            n == vs@.len(),
            i <= n,
            all == views_of(vs@),
            forall|j: int| 0 <= j < vs@.len() ==> wf_value(#[trigger] all[j]),
            out@ == old(out)@ + enc_values(all.take(i as int)),
        decreases n - i,
    {
        encode_value_into(out, &vs[i]);
        proof {
            lemma_enc_values_snoc(all.take(i as int), all[i as int]);
            assert(all.take(i as int).push(all[i as int]) =~= all.take(i + 1));
        }
        i += 1;
    }
    proof {
        assert(all.take(n as int) =~= all);
    }
}

/// One frame holding an envelope payload: used for requests on the way
/// out of the client proxy.
pub fn encode_message_frame(m: &MessageEnvelope) -> (r: Vec<u8>)
    requires
        wf_envelope(m@),
    ensures
        r@ == enc_frame(enc_envelope(m@)),
{
    let mut payload: Vec<u8> = Vec::new();
    payload.push(m.tag);
    payload.push(m.args.len() as u8);
    encode_values_into(&mut payload, &m.args);
    proof {
        assert(payload@ =~= enc_envelope(m@));
    }
    let mut r = vstd::bytes::u32_to_le_bytes(payload.len() as u32);
    r.append(&mut payload);
    r
}

/// One frame holding an outcome payload: used for replies on the way out
/// of the dispatch step.
pub fn encode_outcome_frame(o: &Outcome) -> (r: Vec<u8>)
    requires
        wf_outcome(o@),
    ensures
        r@ == enc_frame(enc_outcome(o@)),
{
    let mut payload: Vec<u8> = Vec::new();
    match o {
        Outcome::Success(e) => {
            payload.push(OUTCOME_OK);
            payload.push(e.tag);
            payload.push(e.vals.len() as u8);
            encode_values_into(&mut payload, &e.vals);
            proof {
                assert(payload@ =~= enc_outcome(o@));
            }
        },
        Outcome::Failure(m) => {
            let bs = m.as_str().as_bytes();
            payload.push(OUTCOME_ERR);
            let mut w = vstd::bytes::u32_to_le_bytes(bs.len() as u32);
            payload.append(&mut w);
            payload.extend_from_slice(bs);
            proof {
                assert(payload@ =~= enc_outcome(o@));
            }
        },
    }
    let mut r = vstd::bytes::u32_to_le_bytes(payload.len() as u32);
    r.append(&mut payload);
    r
}

// ------------------------------------------------------------------
// Executable decoders
// ------------------------------------------------------------------

/// Relies on core::str::from_utf8: it returns the string slice over exactly
/// the given bytes when they are valid UTF-8, and an error otherwise.
#[verifier::external_body]
fn utf8_to_str(b: &[u8]) -> (r: Option<&str>)
    ensures
        r is Some <==> valid_utf8(b@),
        r matches Some(s) ==> s@ == decode_utf8(b@) && s.spec_bytes() == b@,
{
    core::str::from_utf8(b).ok()
}

fn decode_value_at(buf: &[u8], pos: usize) -> (r: Option<(Value, usize)>)
    requires
        pos <= buf@.len(),
    ensures
        match r {
            Some((v, next)) => pos <= next <= buf@.len() && dec_value(buf@.skip(pos as int))
                == Some((v@, next - pos)),
            None => dec_value(buf@.skip(pos as int)) is None,
        },
{
    let ghost s = buf@.skip(pos as int);
    let len = buf.len();
    if len - pos < 1 {
        return None;
    }
    let t = *vstd::slice::slice_index_get(buf, pos);
    proof {
        assert(s[0] == buf@[pos as int]);
    }
    if t == TAG_BOOL {
        if len - pos < 2 {
            return None;
        }
        let x = *vstd::slice::slice_index_get(buf, pos + 1);
        proof {
            assert(s[1] == buf@[pos as int + 1]);
        }
        if x == 0 {
            Some((Value::Bool(false), pos + 2))
        } else if x == 1 {
            Some((Value::Bool(true), pos + 2))
        } else {
            None
        }
    } else if t == TAG_NUM {
        if len - pos < 9 {
            return None;
        }
        let w = vstd::slice::slice_subrange(buf, pos + 1, pos + 9);
        let n = vstd::bytes::u64_from_le_bytes(w);
        proof {
            assert(w@ =~= s.subrange(1, 9));
        }
        Some((Value::Num(n), pos + 9))
    } else if t == TAG_BYTES {
        if len - pos < 5 {
            return None;
        }
        let w = vstd::slice::slice_subrange(buf, pos + 1, pos + 5);
        let n = vstd::bytes::u32_from_le_bytes(w) as usize;
        proof {
            assert(w@ =~= s.subrange(1, 5));
        }
        if len - (pos + 5) < n {
            return None;
        }
        let seg = vstd::slice::slice_subrange(buf, pos + 5, pos + 5 + n);
        proof {
            assert(seg@ =~= s.subrange(5, 5 + n as int));
        }
        Some((Value::Bytes(vstd::slice::slice_to_vec(seg)), pos + 5 + n))
    } else if t == TAG_TEXT {
        if len - pos < 5 {
            return None;
        }
        let w = vstd::slice::slice_subrange(buf, pos + 1, pos + 5);
        let n = vstd::bytes::u32_from_le_bytes(w) as usize;
        proof {
            assert(w@ =~= s.subrange(1, 5));
        }
        if len - (pos + 5) < n {
            return None;
        }
        let seg = vstd::slice::slice_subrange(buf, pos + 5, pos + 5 + n);
        proof {
            assert(seg@ =~= s.subrange(5, 5 + n as int));
        }
        match utf8_to_str(seg) {
            Some(txt) => Some((Value::Text(txt.to_owned()), pos + 5 + n)),
            None => None,
        }
    } else {
        None
    }
}

fn decode_values_at(buf: &[u8], pos: usize, n: u8) -> (r: Option<(Vec<Value>, usize)>)
    requires
        pos <= buf@.len(),
    ensures
        match r {
            Some((vs, next)) => pos <= next <= buf@.len() && dec_values(
                buf@.skip(pos as int),
                n as int,
            ) == Some((views_of(vs@), (next - pos) as int)),
            None => dec_values(buf@.skip(pos as int), n as int) is None,
        },
    decreases n,
{
    if n == 0 {
        let vs: Vec<Value> = Vec::new();
        proof {
            assert(views_of(vs@) =~= Seq::<ValueView>::empty());
        }
        return Some((vs, pos));
    }
    match decode_value_at(buf, pos) {
        None => None,
        Some((v, mid)) => {
            proof {
                assert(buf@.skip(pos as int).skip((mid - pos) as int) =~= buf@.skip(mid as int));
            }
            match decode_values_at(buf, mid, n - 1) {
                None => None,
                Some((mut vs, end)) => {
                    let ghost tail_views = views_of(vs@);
                    vs.insert(0, v);
                    proof {
                        assert(views_of(vs@) =~= seq![v@] + tail_views);
                    }
                    Some((vs, end))
                },
            }
        },
    }
}

/// Both envelope kinds share one payload shape; this reads it back.
fn decode_envelope_parts(payload: &[u8]) -> (r: Option<(u8, Vec<Value>)>)
    ensures
        match r {
            Some((tag, vals)) => dec_envelope(payload@) == Some(
                EnvelopeView { tag, items: views_of(vals@) },
            ),
            None => dec_envelope(payload@) is None,
        },
{
    let len = payload.len();
    if len < 2 {
        return None;
    }
    let tag = *vstd::slice::slice_index_get(payload, 0);
    let count = *vstd::slice::slice_index_get(payload, 1);
    match decode_values_at(payload, 2, count) {
        None => None,
        Some((vals, end)) => {
            if end == len {
                Some((tag, vals))
            } else {
                None
            }
        },
    }
}

/// Reads one whole message envelope out of a frame payload; nothing, if
/// the payload is not exactly one well-formed envelope.
pub fn decode_message_payload(payload: &[u8]) -> (r: Option<MessageEnvelope>)
    ensures
        match r {
            Some(m) => dec_envelope(payload@) == Some(m@),
            None => dec_envelope(payload@) is None,
        },
{
    match decode_envelope_parts(payload) {
        Some((tag, args)) => Some(MessageEnvelope { tag, args }),
        None => None,
    }
}

/// Reads one whole outcome out of a frame payload; nothing, if the payload
/// is not exactly one well-formed outcome.
pub fn decode_outcome_payload(payload: &[u8]) -> (r: Option<Outcome>)
    ensures
        match r {
            Some(o) => dec_outcome(payload@) == Some(o@),
            None => dec_outcome(payload@) is None,
        },
{
    let len = payload.len();
    if len < 1 {
        return None;
    }
    let t = *vstd::slice::slice_index_get(payload, 0);
    if t == OUTCOME_OK {
        let body = vstd::slice::slice_subrange(payload, 1, len);
        proof {
            assert(body@ =~= payload@.skip(1));
        }
        match decode_envelope_parts(body) {
            Some((tag, vals)) => Some(Outcome::Success(ResponseEnvelope { tag, vals })),
            None => None,
        }
    } else if t == OUTCOME_ERR {
        if len < 5 {
            return None;
        }
        let w = vstd::slice::slice_subrange(payload, 1, 5);
        let n = vstd::bytes::u32_from_le_bytes(w) as usize;
        proof {
            assert(w@ =~= payload@.subrange(1, 5));
        }
        if len - 5 != n {
            return None;
        }
        let seg = vstd::slice::slice_subrange(payload, 5, len);
        proof {
            assert(seg@ =~= payload@.skip(5));
        }
        match utf8_to_str(seg) {
            Some(txt) => Some(Outcome::Failure(txt.to_owned())),
            None => None,
        }
    } else {
        None
    }
}

/// Reads one frame's payload out of a byte stream starting at `pos`:
/// the payload and the position just past the frame. Nothing, while the
/// frame is still incomplete.
pub fn decode_frame_at(buf: &[u8], pos: usize) -> (r: Option<(Vec<u8>, usize)>)
    requires
        pos <= buf@.len(),
    ensures
        match r {
            Some((payload, next)) => pos <= next <= buf@.len() && dec_frame(
                buf@.skip(pos as int),
            ) == Some((payload@, (next - pos) as int)),
            None => dec_frame(buf@.skip(pos as int)) is None,
        },
{
    let ghost s = buf@.skip(pos as int);
    let len = buf.len();
    if len - pos < 4 {
        return None;
    }
    let w = vstd::slice::slice_subrange(buf, pos, pos + 4);
    let n = vstd::bytes::u32_from_le_bytes(w) as usize;
    proof {
        assert(w@ =~= s.subrange(0, 4));
    }
    if len - (pos + 4) < n {
        return None;
    }
    let seg = vstd::slice::slice_subrange(buf, pos + 4, pos + 4 + n);
    proof {
        assert(seg@ =~= s.subrange(4, 4 + n as int));
    }
    Some((vstd::slice::slice_to_vec(seg), pos + 4 + n))
}

// ------------------------------------------------------------------
// Size checks: whether a value assembled at run time fits the wire
// ------------------------------------------------------------------

/// Whether one value fits its length word.
pub fn value_fits(v: &Value) -> (b: bool)
    ensures
        b == wf_value(v@),
{
    match v {
        Value::Bool(_) => true,
        Value::Num(_) => true,
        Value::Bytes(bs) => bs.len() <= MAX_SEGMENT,
        Value::Text(s) => s.as_str().as_bytes().len() <= MAX_SEGMENT,
    }
}

/// How many bytes one value occupies on the wire.
fn value_enc_len(v: &Value) -> (n: u64)
    requires
        wf_value(v@),
    ensures
        n == enc_value(v@).len(),
{
    match v {
        Value::Bool(_) => 2,
        Value::Num(_) => {
            proof {
                lemma_auto_spec_u64_to_from_le_bytes();
            }
            9
        },
        Value::Bytes(bs) => {
            proof {
                lemma_auto_spec_u32_to_from_le_bytes();
            }
            5 + bs.len() as u64
        },
        Value::Text(s) => {
            proof {
                lemma_auto_spec_u32_to_from_le_bytes();
            }
            5 + s.as_str().as_bytes().len() as u64
        },
    }
}

/// A well-formed value occupies at most a length word and its segment.
proof fn lemma_value_enc_len_bound(v: ValueView)
    requires
        wf_value(v),
    ensures
        enc_value(v).len() <= MAX_SEGMENT + 5,
{
    lemma_auto_spec_u32_to_from_le_bytes();
    lemma_auto_spec_u64_to_from_le_bytes();
}

/// Whether a list of values can stand as the fields of one envelope:
/// few enough to count in one byte, each fitting its length word, and all
/// of them together fitting one frame.
pub fn items_fit_envelope(vs: &Vec<Value>) -> (b: bool)
    ensures
        b == (wf_items(views_of(vs@)) && 2 + enc_values(views_of(vs@)).len() < MAX_SEGMENT),
{
    let ghost all = views_of(vs@);
    let n = vs.len();
    if n > MAX_FIELDS {
        return false;
    }
    let mut i: usize = 0;
    let mut total: u64 = 0;
    proof {
        assert(all.take(0) =~= Seq::<ValueView>::empty());
        assert(enc_values(Seq::<ValueView>::empty()) == Seq::<u8>::empty());
    }
    while i < n
        invariant
            n == vs@.len(),
            n <= MAX_FIELDS,
            i <= n,
            all == views_of(vs@),
            forall|j: int| 0 <= j < i ==> wf_value(#[trigger] all[j]),
            total == enc_values(all.take(i as int)).len(),
            total <= i * 0x1_0000_0004,
        decreases n - i,
    {
        if !value_fits(&vs[i]) {
            return false;
        }
        let step = value_enc_len(&vs[i]);
        proof {
            lemma_enc_values_snoc(all.take(i as int), all[i as int]);
            assert(all.take(i as int).push(all[i as int]) =~= all.take(i + 1));
            lemma_value_enc_len_bound(all[i as int]);
            assert((i + 1) * 0x1_0000_0004 == i * 0x1_0000_0004 + 0x1_0000_0004) by (nonlinear_arith);
            assert(total + step <= (i + 1) * 0x1_0000_0004);
        }
        total = total + step;
        i += 1;
    }
    proof {
        assert(all.take(n as int) =~= all);
    }
    2 + total < MAX_SEGMENT as u64
}

/// Whether a message envelope can be framed faithfully.
pub fn message_fits(m: &MessageEnvelope) -> (b: bool)
    ensures
        b == wf_envelope(m@),
{
    items_fit_envelope(&m.args)
}

/// Whether a response envelope can be framed faithfully.
pub fn response_fits(e: &ResponseEnvelope) -> (b: bool)
    ensures
        b == wf_envelope(e@),
{
    items_fit_envelope(&e.vals)
}

} // verus!
