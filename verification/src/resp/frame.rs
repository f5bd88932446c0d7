//! Framing of command arrays on one connection: an incremental reader that
//! takes a command frame out of a growing buffer as soon as it is whole, and
//! a writer that appends the bytes of a reply.

use super::buffer::{advance, as_slice, buffer_bytes, extend_from_slice};
use super::types::{
    crlf, encode, encode_from, lemma_encode_from_len, lemma_find_crlf_at, lemma_len_prefix_stable,
    lemma_length_of_decimal, lemma_parse_bulk_bounds, lemma_parse_bulk_stable,
    lemma_parse_encoded, parse_bulk, parse_len_prefix, parse_value, views_of, RespType,
    RespValue,
};
use super::{RespError, RespFault};
use crate::text::{decimal_bytes, is_digit, lemma_decimal_roundtrip};
use bytes::BytesMut;
use vstd::prelude::*;

verus! {

/// What the reader has of the frame it is in the middle of.
pub struct FrameState {
    /// The number of parts that the frame's header declared, once the header
    /// has been read.
    pub expected: Option<nat>,
    /// The parts read so far.
    pub parts: Seq<RespValue>,
}

/// What one attempt to read a frame comes to.
pub enum FrameStep {
    /// A whole frame was read; `rest` is what the buffer still holds.
    Frame { items: Seq<RespValue>, rest: Seq<u8> },
    /// The buffer ends inside the frame: what was read is kept in `state`,
    /// and `rest` waits in the buffer for more bytes.
    Wait { state: FrameState, rest: Seq<u8> },
    /// The bytes are no frame.
    Fail(RespFault),
}

/// The state between two frames.
pub open spec fn idle() -> FrameState {
    FrameState { expected: None, parts: Seq::empty() }
}

/// One part of a frame at the head of the buffer: a bulk string that is
/// there with its body and final line ending.
pub open spec fn parse_part(b: Seq<u8>) -> Result<(RespValue, nat), RespFault> {
    match parse_len_prefix(b, 36, RespFault::InvalidBulkString("Not a valid RESP bulk string"@)) {
        Err(e) => Err(e),
        Ok(None) => Err(RespFault::Incomplete),
        Ok(Some((n, used))) => if b.len() < used + n + 2 {
            Err(RespFault::Incomplete)
        } else {
            parse_bulk(b)
        },
    }
}

/// Reads parts until the frame has the `k` that its header declared.
pub open spec fn read_parts(k: nat, parts: Seq<RespValue>, b: Seq<u8>) -> FrameStep
    decreases k - parts.len(),
{
    if parts.len() >= k {
        FrameStep::Frame { items: parts, rest: b }
    } else {
        match parse_part(b) {
            Err(RespFault::Incomplete) => FrameStep::Wait {
                state: FrameState { expected: Some(k), parts },
                rest: b,
            },
            Err(e) => FrameStep::Fail(e),
            Ok((part, n)) => read_parts(k, parts.push(part), b.skip(n as int)),
        }
    }
}

/// One attempt to read a frame from the buffer, from the state the reader
/// was left in.
pub open spec fn read_frame(state: FrameState, b: Seq<u8>) -> FrameStep {
    match state.expected {
        Some(k) => read_parts(k, state.parts, b),
        None => match parse_len_prefix(
            b,
            42,
            RespFault::InvalidArray("Not a valid RESP array"@),
        ) {
            Err(e) => FrameStep::Fail(e),
            Ok(None) => FrameStep::Wait { state: idle(), rest: b },
            Ok(Some((k, used))) => read_parts(k, Seq::empty(), b.skip(used as int)),
        },
    }
}

/// Where the reader is: before a frame's header, or inside the frame's body
/// with the parts read so far.
enum Progress {
    Header,
    Body { expected: usize, parts: Vec<RespType> },
}

/// The reader and writer of command frames of one connection.
pub struct RespCommandFrame {
    progress: Progress,
}

impl View for RespCommandFrame {
    type V = FrameState;

    closed spec fn view(&self) -> FrameState {
        match self.progress {
            Progress::Header => idle(),
            Progress::Body { expected, parts } => FrameState {
                expected: Some(expected as nat),
                parts: views_of(parts@),
            },
        }
    }
}

impl RespCommandFrame {
    /// A reader between two frames.
    pub fn new() -> (res: RespCommandFrame)
        ensures
            res@ == idle(),
    {
        RespCommandFrame { progress: Progress::Header }
    }

    /// Takes the next command frame out of the buffer if it is whole.
    ///
    /// With a whole frame at the head of what was read so far, the frame's
    /// parts are returned, its bytes leave the buffer and the reader is
    /// between frames again. While the frame is not whole, `None` is
    /// returned, and the parts that are whole leave the buffer and are kept.
    /// Bytes that are no frame give the error, with the reader and the buffer
    /// left as they happen to be.
    pub fn decode(&mut self, src: &mut BytesMut) -> (res: Result<Option<Vec<RespType>>, RespError>)
        ensures
            match read_frame(old(self)@, buffer_bytes(*old(src))) {
                FrameStep::Frame { items, rest } => {
                    &&& res matches Ok(Some(frame))
                    &&& views_of(frame@) == items
                    &&& final(self)@ == idle()
                    &&& buffer_bytes(*final(src)) == rest
                },
                FrameStep::Wait { state, rest } => {
                    &&& res matches Ok(None)
                    &&& final(self)@ == state
                    &&& buffer_bytes(*final(src)) == rest
                },
                FrameStep::Fail(fault) => res matches Err(e) && e@ == fault,
            },
    {
        let ghost want = read_frame(self@, buffer_bytes(*src));
        let mut progress = Progress::Header;
        core::mem::swap(&mut progress, &mut self.progress);
        let (k, mut parts) = match progress {
            Progress::Body { expected, parts } => (expected, parts),
            Progress::Header => {
                match RespType::array_len_from(as_slice(src)) {
                    Err(e) => {
                        return Err(e);
                    },
                    Ok(None) => {
                        return Ok(None);
                    },
                    Ok(Some((k, used))) => {
                        advance(src, used);
                        let parts: Vec<RespType> = Vec::new();
                        assert(views_of(parts@) =~= Seq::<RespValue>::empty());
                        (k, parts)
                    },
                }
            },
        };
        loop
            invariant
                self.progress is Header,
                want == read_frame(old(self)@, buffer_bytes(*old(src))),
                want == read_parts(k as nat, views_of(parts@), buffer_bytes(*src)),
            decreases k - parts.len(),
        {
            if parts.len() >= k {
                return Ok(Some(parts));
            }
            let buf = as_slice(src);
            let (n, used) = match RespType::bulk_string_len_from(buf) {
                Err(e) => {
                    return Err(e);
                },
                Ok(None) => {
                    self.progress = Progress::Body { expected: k, parts };
                    return Ok(None);
                },
                Ok(Some(pair)) => pair,
            };
            let total = match used.checked_add(n) {
                Some(end) => end.checked_add(2),
                None => None,
            };
            let held = buf.len();
            let whole = match total {
                Some(t) => held >= t,
                None => false,
            };
            if !whole {
                self.progress = Progress::Body { expected: k, parts };
                return Ok(None);
            }
            match RespType::bulk_string_from(buf) {
                Err(RespError::Incomplete) => {
                    self.progress = Progress::Body { expected: k, parts };
                    return Ok(None);
                },
                Err(e) => {
                    return Err(e);
                },
                Ok((part, m)) => {
                    proof {
                        lemma_parse_bulk_bounds(buf@);
                        assert(views_of(parts@.push(part)) =~= views_of(parts@).push(part@));
                    }
                    parts.push(part);
                    advance(src, m);
                },
            }
        }
    }

    /// Appends the bytes of a value to the buffer.
    pub fn encode(&mut self, item: RespType, dst: &mut BytesMut)
        ensures
            final(self)@ == old(self)@,
            buffer_bytes(*final(dst)) == buffer_bytes(*old(dst)) + encode(item@),
    {
        let bytes = item.to_vec();
        extend_from_slice(dst, bytes.as_slice());
    }
}


/// Whether every item is a bulk string, as the parts of a command frame are.
pub open spec fn all_bulk_strings(items: Seq<RespValue>) -> bool {
    forall|i: int| 0 <= i < items.len() ==> #[trigger] items[i] is BulkString
}

proof fn lemma_prefix_of(kind: u8, n: nat, rest: Seq<u8>, fault: RespFault)
    requires
        n <= usize::MAX,
        kind != 13,
    ensures
        parse_len_prefix(seq![kind] + decimal_bytes(n) + crlf() + rest, kind, fault) == Ok::<
            Option<(nat, nat)>,
            RespFault,
        >(Some((n, (decimal_bytes(n).len() + 3) as nat))),
{
    let d = decimal_bytes(n);
    let b = seq![kind] + d + crlf() + rest;
    let at = 1 + d.len() as int;
    lemma_decimal_roundtrip(n);
    assert forall|j: int| 0 <= j < at implies b[j] != 13 by {
        if j > 0 {
            assert(b[j] == d[j - 1]);
            assert(is_digit(d[j - 1]));
        }
    }
    assert(b[at] == 13 && b[at + 1] == 10);
    lemma_find_crlf_at(b, 0, at);
    assert(b.subrange(1, at) =~= d);
    lemma_length_of_decimal(n);
}

proof fn lemma_part_encoded(part: RespValue, rest: Seq<u8>)
    requires
        part is BulkString,
        encode(part).len() <= usize::MAX,
    ensures
        parse_part(encode(part) + rest) == Ok::<(RespValue, nat), RespFault>(
            (part, encode(part).len()),
        ),
{
    let t = part->BulkString_0;
    let body = crate::text::utf8(t);
    let d = decimal_bytes(body.len());
    let b = encode(part) + rest;
    let after = body + crlf() + rest;
    assert(b =~= seq![36u8] + d + crlf() + after);
    lemma_prefix_of(
        36,
        body.len(),
        after,
        RespFault::InvalidBulkString("Not a valid RESP bulk string"@),
    );
    lemma_parse_encoded(part, rest);
    assert(b[0] == 36);
    assert(parse_value(b) == parse_bulk(b));
}

proof fn lemma_read_parts_encoded(items: Seq<RespValue>, i: nat, tail: Seq<u8>)
    requires
        i <= items.len(),
        all_bulk_strings(items),
        encode_from(items, i).len() <= usize::MAX,
    ensures
        read_parts(items.len(), items.subrange(0, i as int), encode_from(items, i) + tail) == (
        FrameStep::Frame { items, rest: tail }),
    decreases items.len() - i,
{
    if i == items.len() {
        assert(items.subrange(0, i as int) =~= items);
        assert(encode_from(items, i) + tail =~= tail);
    } else {
        let part = items[i as int];
        let after = encode_from(items, i + 1) + tail;
        let b = encode_from(items, i) + tail;
        assert(b =~= encode(part) + after);
        lemma_encode_from_len(items, i);
        lemma_part_encoded(part, after);
        let n = encode(part).len();
        assert(b.skip(n as int) =~= after);
        assert(items.subrange(0, i as int).push(part) =~= items.subrange(0, i as int + 1));
        lemma_read_parts_encoded(items, i + 1, tail);
    }
}

/// A reader between two frames that finds the encoding of an array of bulk
/// strings at the head of the buffer takes exactly that frame, and leaves
/// what follows it.
pub proof fn lemma_read_encoded_frame(items: Seq<RespValue>, tail: Seq<u8>)
    requires
        all_bulk_strings(items),
        encode(RespValue::Array(items)).len() <= usize::MAX,
    ensures
        read_frame(idle(), encode(RespValue::Array(items)) + tail) == (FrameStep::Frame {
            items,
            rest: tail,
        }),
{
    let d = decimal_bytes(items.len());
    let after = encode_from(items, 0) + tail;
    let b = encode(RespValue::Array(items)) + tail;
    assert(b =~= seq![42u8] + d + crlf() + after);
    lemma_encode_from_len(items, 0);
    lemma_prefix_of(42, items.len(), after, RespFault::InvalidArray("Not a valid RESP array"@));
    let used = d.len() as int + 3;
    assert(b.skip(used) =~= after);
    assert(items.subrange(0, 0) =~= Seq::<RespValue>::empty());
    lemma_read_parts_encoded(items, 0, tail);
}

proof fn lemma_part_stable(b: Seq<u8>, more: Seq<u8>)
    requires
        parse_part(b) is Ok,
    ensures
        parse_part(b + more) == parse_part(b),
{
    lemma_len_prefix_stable(
        b,
        more,
        36,
        RespFault::InvalidBulkString("Not a valid RESP bulk string"@),
    );
    lemma_parse_bulk_stable(b, more);
}

proof fn lemma_read_parts_resumes(k: nat, parts: Seq<RespValue>, b: Seq<u8>, more: Seq<u8>)
    requires
        read_parts(k, parts, b) is Wait,
    ensures
        read_frame(read_parts(k, parts, b)->Wait_state, read_parts(k, parts, b)->Wait_rest + more)
            == read_parts(k, parts, b + more),
    decreases k - parts.len(),
{
    if parts.len() < k {
        match parse_part(b) {
            Ok((part, n)) => {
                lemma_part_stable(b, more);
                lemma_parse_bulk_bounds(b);
                assert((b + more).skip(n as int) =~= b.skip(n as int) + more);
                lemma_read_parts_resumes(k, parts.push(part), b.skip(n as int), more);
            },
            Err(e) => {},
        }
    }
}

/// Reading is tolerant of partial reads: where the buffer ended inside a
/// frame, going on from the state that was kept, with what was left in the
/// buffer and the bytes that arrived since, comes to the same as reading
/// all the bytes at once.
pub proof fn lemma_read_frame_resumes(state: FrameState, b: Seq<u8>, more: Seq<u8>)
    requires
        read_frame(state, b) is Wait,
    ensures
        read_frame(read_frame(state, b)->Wait_state, read_frame(state, b)->Wait_rest + more)
            == read_frame(state, b + more),
{
    match state.expected {
        Some(k) => {
            lemma_read_parts_resumes(k, state.parts, b, more);
        },
        None => {
            let fault = RespFault::InvalidArray("Not a valid RESP array"@);
            match parse_len_prefix(b, 42, fault) {
                Ok(Some((k, used))) => {
                    lemma_len_prefix_stable(b, more, 42, fault);
                    super::types::lemma_find_crlf_bounds(b, 0);
                    assert((b + more).skip(used as int) =~= b.skip(used as int) + more);
                    lemma_read_parts_resumes(k, Seq::empty(), b.skip(used as int), more);
                },
                _ => {},
            }
        },
    }
}

} // verus!
