//! RESP values, their encoding, and the streaming parser.

use super::buffer::{as_slice, buffer_bytes, freeze, frozen_bytes};
use super::{RespError, RespFault};
use crate::text::{
    all_ascii, decimal_bytes, is_digit, lemma_decimal_roundtrip,
    parse_u64_digits, parse_unsigned, push_decimal, signed_decimal_bytes, string_from_utf8, utf8,
};
use bytes::{Bytes, BytesMut};
use vstd::prelude::*;
use vstd::slice::*;
use vstd::string::*;
use vstd::utf8::*;

verus! {

/// A RESP value as it is held in memory.
#[derive(Debug)]
pub enum RespType {
    SimpleString(String),
    BulkString(String),
    NullBulkString,
    Integer(i64),
    Array(Vec<RespType>),
    SimpleError(String),
}

/// The mathematical value that a [`RespType`] stands for.
pub enum RespValue {
    SimpleString(Seq<char>),
    BulkString(Seq<char>),
    NullBulkString,
    Integer(int),
    Array(Seq<RespValue>),
    SimpleError(Seq<char>),
}

impl View for RespType {
    type V = RespValue;

    open spec fn view(&self) -> RespValue
        decreases self,
    {
        match self {
            RespType::SimpleString(s) => RespValue::SimpleString(s@),
            RespType::BulkString(s) => RespValue::BulkString(s@),
            RespType::NullBulkString => RespValue::NullBulkString,
            RespType::Integer(n) => RespValue::Integer(*n as int),
            RespType::Array(items) => RespValue::Array(
                Seq::new(
                    items@.len(),
                    |i: int|
                        if 0 <= i < items@.len() {
                            items@[i].view()
                        } else {
                            RespValue::NullBulkString
                        },
                ),
            ),
            RespType::SimpleError(s) => RespValue::SimpleError(s@),
        }
    }
}


/// The two bytes that end every line of the format.
pub open spec fn crlf() -> Seq<u8> {
    seq![13u8, 10u8]
}

/// Where the first line ending at or after `from` begins, if there is one.
pub open spec fn find_crlf(b: Seq<u8>, from: int) -> Option<int>
    decreases b.len() - from,
{
    if from < 0 || from + 1 >= b.len() {
        None
    } else if b[from] == 13 && b[from + 1] == 10 {
        Some(from)
    } else {
        find_crlf(b, from + 1)
    }
}

/// The bytes of a value on the wire.
pub open spec fn encode(v: RespValue) -> Seq<u8>
    decreases v, 0nat,
{
    match v {
        RespValue::SimpleString(t) => seq![43u8] + utf8(t) + crlf(),
        RespValue::SimpleError(t) => seq![45u8] + utf8(t) + crlf(),
        RespValue::BulkString(t) => seq![36u8] + decimal_bytes(utf8(t).len()) + crlf() + utf8(t)
            + crlf(),
        RespValue::NullBulkString => seq![36u8, 45u8, 49u8, 13u8, 10u8],
        RespValue::Integer(n) => seq![58u8] + signed_decimal_bytes(n) + crlf(),
        RespValue::Array(items) => seq![42u8] + decimal_bytes(items.len()) + crlf() + encode_from(
            items,
            0,
        ),
    }
}

/// The bytes of the items from index `i` on, one after another.
pub open spec fn encode_from(items: Seq<RespValue>, i: nat) -> Seq<u8>
    decreases items, items.len() - i,
{
    if i >= items.len() {
        Seq::empty()
    } else {
        encode(items[i as int]) + encode_from(items, i + 1)
    }
}

/// A length field: unsigned decimal digits without sign that fit in `usize`.
pub open spec fn parse_length(line: Seq<u8>) -> Result<nat, RespFault> {
    if !valid_utf8(line) {
        Err(RespFault::Other("Invalid UTF-8 string"@))
    } else {
        match parse_unsigned(line, usize::MAX as nat) {
            Some(n) => Ok(n),
            None => Err(RespFault::Other("Invalid value for an integer"@)),
        }
    }
}

/// The header line of a bulk string or an array, whose type byte is at
/// index 0: the number it declares and the length of the line with its
/// ending. Without a line ending in the buffer the header is incomplete.
pub open spec fn parse_header(b: Seq<u8>) -> Result<(nat, nat), RespFault> {
    match find_crlf(b, 1) {
        None => Err(RespFault::Incomplete),
        Some(end) => match parse_length(b.subrange(1, end)) {
            Err(e) => Err(e),
            Ok(n) => Ok((n, (end + 2) as nat)),
        },
    }
}

/// A bulk string at the head of the buffer, and the bytes it takes.
pub open spec fn parse_bulk(b: Seq<u8>) -> Result<(RespValue, nat), RespFault> {
    if b.len() == 0 {
        Err(RespFault::Incomplete)
    } else {
        match parse_header(b) {
            Err(e) => Err(e),
            Ok((n, start)) => {
                let end = (start + n) as int;
                if b.len() < end + 2 {
                    Err(RespFault::Incomplete)
                } else if !(b[end] == 13 && b[end + 1] == 10) {
                    Err(RespFault::InvalidBulkString("Invalid value for bulk string"@))
                } else if !valid_utf8(b.subrange(start as int, end)) {
                    Err(
                        RespFault::InvalidBulkString(
                            "Bulk string value is not a valid UTF-8 string"@,
                        ),
                    )
                } else {
                    Ok(
                        (
                            RespValue::BulkString(decode_utf8(b.subrange(start as int, end))),
                            (end + 2) as nat,
                        ),
                    )
                }
            },
        }
    }
}

/// The value at the head of the buffer, and the bytes it takes. Only bulk
/// strings and arrays are accepted. A buffer that ends before the value does
/// is incomplete.
pub open spec fn parse_value(b: Seq<u8>) -> Result<(RespValue, nat), RespFault>
    decreases b.len(), 2nat,
{
    if b.len() == 0 {
        Err(RespFault::Incomplete)
    } else if b[0] == 36 {
        parse_bulk(b)
    } else if b[0] == 42 {
        parse_array(b)
    } else {
        Err(RespFault::InvalidDataTypePrefix)
    }
}

/// An array at the head of the buffer, and the bytes it takes.
pub open spec fn parse_array(b: Seq<u8>) -> Result<(RespValue, nat), RespFault>
    decreases b.len(), 1nat,
{
    if b.len() == 0 {
        Err(RespFault::Incomplete)
    } else {
        match parse_header(b) {
            Err(e) => Err(e),
            Ok((k, start)) => if 0 < start <= b.len() {
                match parse_items(b.skip(start as int), k) {
                    Err(e) => Err(e),
                    Ok((items, n)) => Ok((RespValue::Array(items), start + n)),
                }
            } else {
                Err(RespFault::Incomplete)
            },
        }
    }
}

/// `k` values one after another at the head of the buffer, and the bytes
/// they take together. Each value takes at least one byte and no more than
/// the buffer holds, which makes the definition well-founded.
pub open spec fn parse_items(b: Seq<u8>, k: nat) -> Result<(Seq<RespValue>, nat), RespFault>
    decreases b.len(), 3nat, k,
{
    if k == 0 {
        Ok((Seq::empty(), 0))
    } else {
        match parse_value(b) {
            Err(e) => Err(e),
            Ok((first, n)) => if n <= b.len() {
                match parse_items(b.skip(n as int), (k - 1) as nat) {
                    Err(e) => Err(e),
                    Ok((others, m)) => Ok((seq![first] + others, n + m)),
                }
            } else {
                Err(RespFault::Incomplete)
            },
        }
    }
}

/// The values that a sequence of RESP values stands for, item by item.
pub open spec fn views_of(items: Seq<RespType>) -> Seq<RespValue> {
    Seq::new(items.len(), |i: int| items[i]@)
}

/// An array stands for the array of what its items stand for.
pub proof fn lemma_array_view(items: Vec<RespType>)
    ensures
        RespType::Array(items)@ == RespValue::Array(views_of(items@)),
{
    let direct = RespType::Array(items)@;
    assert(direct->Array_0 =~= views_of(items@));
}

impl Clone for RespType {
    fn clone(&self) -> (res: Self)
        ensures
            res@ == self@,
        decreases self,
    {
        match self {
            RespType::SimpleString(s) => RespType::SimpleString(s.clone()),
            RespType::BulkString(s) => RespType::BulkString(s.clone()),
            RespType::NullBulkString => RespType::NullBulkString,
            RespType::Integer(n) => RespType::Integer(*n),
            RespType::Array(items) => {
                let mut out: Vec<RespType> = Vec::new();
                let mut i: usize = 0;
                while i < items.len()
                    invariant
                        i <= items.len(),
                        out.len() == i,
                        forall|j: int| 0 <= j < i ==> out@[j]@ == items@[j]@,
                        decreases_to!(self => items),
                    decreases items.len() - i,
                {
                    proof {
                        assert(decreases_to!(items => items@[i as int]));
                    }
                    let item = items[i].clone();
                    out.push(item);
                    i += 1;
                }
                let res = RespType::Array(out);
                proof {
                    lemma_array_view(out);
                    lemma_array_view(*items);
                    assert(views_of(out@) =~= views_of(items@));
                }
                res
            },
            RespType::SimpleError(s) => RespType::SimpleError(s.clone()),
        }
    }
}


/// The length prefix of an array or a bulk string, with its type byte, as
/// the framing reads it: the number it declares and the length of the line
/// with its ending, or nothing while the line has not ended. A line that is
/// too short or begins with another byte than `kind` is the given fault.
pub open spec fn parse_len_prefix(b: Seq<u8>, kind: u8, fault: RespFault) -> Result<
    Option<(nat, nat)>,
    RespFault,
> {
    match find_crlf(b, 0) {
        None => Ok(None),
        Some(end) => if end < 2 || b[0] != kind {
            Err(fault)
        } else {
            match parse_length(b.subrange(1, end)) {
                Ok(n) => Ok(Some((n, (end + 2) as nat))),
                Err(e) => Err(e),
            }
        },
    }
}

/// A simple string at the head of the buffer, and the bytes it takes.
pub open spec fn parse_simple_string(b: Seq<u8>) -> Result<(RespValue, nat), RespFault> {
    if b.len() == 0 {
        Err(RespFault::Incomplete)
    } else if b[0] != 43 {
        Err(RespFault::InvalidDataTypePrefix)
    } else {
        match find_crlf(b, 1) {
            None => Err(RespFault::Incomplete),
            Some(end) => if valid_utf8(b.subrange(1, end)) {
                Ok((RespValue::SimpleString(decode_utf8(b.subrange(1, end))), (end + 2) as nat))
            } else {
                Err(RespFault::Other("Invalid UTF-8 string"@))
            },
        }
    }
}

/// Whether an executable prefix result is the given mathematical one.
pub open spec fn prefix_as(
    res: Result<Option<(usize, usize)>, RespError>,
    want: Result<Option<(nat, nat)>, RespFault>,
) -> bool {
    match res {
        Ok(Some((n, used))) => want == Ok::<Option<(nat, nat)>, RespFault>(
            Some((n as nat, used as nat)),
        ),
        Ok(None) => want == Ok::<Option<(nat, nat)>, RespFault>(None),
        Err(e) => want == Err::<Option<(nat, nat)>, RespFault>(e@),
    }
}

/// Whether an executable parse result is the given mathematical one.
pub open spec fn parsed_as(
    res: Result<(RespType, usize), RespError>,
    want: Result<(RespValue, nat), RespFault>,
) -> bool {
    match res {
        Ok((v, n)) => want == Ok::<(RespValue, nat), RespFault>((v@, n as nat)),
        Err(e) => want == Err::<(RespValue, nat), RespFault>(e@),
    }
}

/// Whether an executable header result is the given mathematical one.
pub open spec fn header_as(
    res: Result<(usize, usize), RespError>,
    want: Result<(nat, nat), RespFault>,
) -> bool {
    match res {
        Ok((n, used)) => want == Ok::<(nat, nat), RespFault>((n as nat, used as nat)),
        Err(e) => want == Err::<(nat, nat), RespFault>(e@),
    }
}

/// Appends a slice of bytes to a vector.
pub fn push_bytes(out: &mut Vec<u8>, data: &[u8])
    ensures
        final(out)@ == old(out)@ + data@,
{
    out.extend_from_slice(data);
    assert(final(out)@ =~= old(out)@ + data@);
}

/// Finds the first line ending at or after `from`.
pub fn find_line_end(buf: &[u8], from: usize) -> (res: Option<usize>)
    ensures
        match res {
            Some(i) => find_crlf(buf@, from as int) == Some(i as int) && from <= i && i + 1
                < buf@.len(),
            None => find_crlf(buf@, from as int) is None,
        },
{
    let mut i: usize = from;
    while i < buf.len() && i + 1 < buf.len()
        invariant
            from <= i,
            find_crlf(buf@, from as int) == find_crlf(buf@, i as int),
        decreases buf.len() - i,
    {
        if buf[i] == 13 && buf[i + 1] == 10 {
            return Some(i);
        }
        i += 1;
    }
    None
}

/// The header of a bulk string or an array at the head of the buffer.
fn read_header(buf: &[u8]) -> (res: Result<(usize, usize), RespError>)
    ensures
        header_as(res, parse_header(buf@)),
        res matches Ok((n, used)) ==> 3 <= used <= buf@.len(),
{
    match find_line_end(buf, 1) {
        None => Err(RespError::Incomplete),
        Some(end) => {
            assert(end + 2 <= buf.len());
            let line = slice_subrange(buf, 1, end);
            match RespType::parse_usize_from_buf(line) {
                Err(e) => Err(e),
                Ok(n) => Ok((n, end + 2)),
            }
        },
    }
}

impl RespType {
    /// Reads the value at the head of the buffer and says how many bytes it
    /// takes. Bulk strings and arrays are accepted, arrays of them to any
    /// depth. A buffer that ends before the value does gives
    /// `RespError::Incomplete`.
    pub fn parse(buffer: BytesMut) -> (res: Result<(RespType, usize), RespError>)
        ensures
            parsed_as(res, parse_value(buffer_bytes(buffer))),
    {
        Self::parse_bytes(as_slice(&buffer))
    }

    /// Reads a bulk string at the head of the buffer, whose first byte is
    /// taken for the type byte without being looked at.
    pub fn new_bulk_string(buffer: BytesMut) -> (res: Result<(RespType, usize), RespError>)
        ensures
            parsed_as(res, parse_bulk(buffer_bytes(buffer))),
    {
        Self::bulk_string_from(as_slice(&buffer))
    }

    /// Reads an array at the head of the buffer, whose first byte is taken
    /// for the type byte without being looked at.
    pub fn new_array(buffer: BytesMut) -> (res: Result<(RespType, usize), RespError>)
        ensures
            parsed_as(res, parse_array(buffer_bytes(buffer))),
    {
        Self::array_from(as_slice(&buffer))
    }

    /// [`RespType::parse`] on a byte slice.
    pub fn parse_bytes(buf: &[u8]) -> (res: Result<(RespType, usize), RespError>)
        ensures
            parsed_as(res, parse_value(buf@)),
        decreases buf@.len(), 2nat,
    {
        if buf.len() == 0 {
            return Err(RespError::Incomplete);
        }
        let c = buf[0];
        if c == 36 {
            Self::bulk_string_from(buf)
        } else if c == 42 {
            Self::array_from(buf)
        } else {
            Err(RespError::InvalidDataTypePrefix)
        }
    }

    /// [`RespType::new_bulk_string`] on a byte slice.
    pub fn bulk_string_from(buf: &[u8]) -> (res: Result<(RespType, usize), RespError>)
        ensures
            parsed_as(res, parse_bulk(buf@)),
    {
        if buf.len() == 0 {
            return Err(RespError::Incomplete);
        }
        let (n, start) = match read_header(buf) {
            Ok(pair) => pair,
            Err(e) => {
                return Err(e);
            },
        };
        let total = match start.checked_add(n) {
            Some(end) => end.checked_add(2),
            None => None,
        };
        let total = match total {
            Some(t) => t,
            None => {
                return Err(RespError::Incomplete);
            },
        };
        if buf.len() < total {
            return Err(RespError::Incomplete);
        }
        let end = start + n;
        if !(buf[end] == 13 && buf[end + 1] == 10) {
            return Err(
                RespError::InvalidBulkString(String::from_str("Invalid value for bulk string")),
            );
        }
        let body = slice_to_vec(slice_subrange(buf, start, end));
        match string_from_utf8(body) {
            Some(text) => Ok((RespType::BulkString(text), total)),
            None => Err(
                RespError::InvalidBulkString(
                    String::from_str("Bulk string value is not a valid UTF-8 string"),
                ),
            ),
        }
    }

    /// [`RespType::new_array`] on a byte slice.
    pub fn array_from(buf: &[u8]) -> (res: Result<(RespType, usize), RespError>)
        ensures
            parsed_as(res, parse_array(buf@)),
        decreases buf@.len(), 1nat,
    {
        if buf.len() == 0 {
            return Err(RespError::Incomplete);
        }
        let (k, start) = match read_header(buf) {
            Ok(pair) => pair,
            Err(e) => {
                return Err(e);
            },
        };
        let mut items: Vec<RespType> = Vec::new();
        let mut used: usize = start;
        let mut i: usize = 0;
        while i < k
            invariant
                i <= k,
                0 < start <= used <= buf@.len(),
                items@.len() == i,
                parse_header(buf@) == Ok::<(nat, nat), RespFault>((k as nat, start as nat)),
                parse_items(buf@.skip(start as int), k as nat) == join_items(
                    views_of(items@),
                    (used - start) as nat,
                    parse_items(buf@.skip(used as int), (k - i) as nat),
                ),
            decreases k - i,
        {
            let rest = slice_subrange(buf, used, buf.len());
            assert(rest@ == buf@.skip(used as int));
            let ghost before = views_of(items@);
            match Self::parse_bytes(rest) {
                Ok((item, n)) => {
                    proof {
                        lemma_parse_value_bounds(rest@);
                        lemma_array_view_push(items@, item);
                        assert(rest@.skip(n as int) =~= buf@.skip(used + n));
                        assert(before + (seq![item@] + Seq::<RespValue>::empty()) =~= before.push(
                            item@,
                        ));
                        lemma_join_items_step(
                            before,
                            (used - start) as nat,
                            item@,
                            n as nat,
                            parse_items(rest@.skip(n as int), (k - i - 1) as nat),
                        );
                    }
                    items.push(item);
                    used = used + n;
                    i = i + 1;
                },
                Err(e) => {
                    return Err(e);
                },
            }
        }
        proof {
            lemma_array_view(items);
            assert(views_of(items@) + Seq::<RespValue>::empty() =~= views_of(items@));
        }
        Ok((RespType::Array(items), used))
    }


    /// Reads a simple string, `+<text>\r\n`, at the head of the buffer.
    pub fn new_simple_string(buffer: BytesMut) -> (res: Result<(RespType, usize), RespError>)
        ensures
            parsed_as(res, parse_simple_string(buffer_bytes(buffer))),
    {
        Self::simple_string_from(as_slice(&buffer))
    }

    /// [`RespType::new_simple_string`] on a byte slice.
    pub fn simple_string_from(buf: &[u8]) -> (res: Result<(RespType, usize), RespError>)
        ensures
            parsed_as(res, parse_simple_string(buf@)),
    {
        if buf.len() == 0 {
            return Err(RespError::Incomplete);
        }
        if buf[0] != 43 {
            return Err(RespError::InvalidDataTypePrefix);
        }
        match find_line_end(buf, 1) {
            None => Err(RespError::Incomplete),
            Some(end) => {
                assert(end + 2 <= buf.len());
                match string_from_utf8(slice_to_vec(slice_subrange(buf, 1, end))) {
                    Some(text) => Ok((RespType::SimpleString(text), end + 2)),
                    None => Err(RespError::Other(String::from_str("Invalid UTF-8 string"))),
                }
            },
        }
    }

    /// Appends the bytes of this value on the wire.
    pub fn write_to(&self, out: &mut Vec<u8>)
        ensures
            final(out)@ == old(out)@ + encode(self@),
        decreases self,
    {
        match self {
            RespType::SimpleString(text) => {
                out.push(43);
                push_bytes(out, text.as_str().as_bytes());
                out.push(13);
                out.push(10);
                assert(final(out)@ =~= old(out)@ + encode(self@));
            },
            RespType::SimpleError(text) => {
                out.push(45);
                push_bytes(out, text.as_str().as_bytes());
                out.push(13);
                out.push(10);
                assert(final(out)@ =~= old(out)@ + encode(self@));
            },
            RespType::BulkString(text) => {
                let body = text.as_str().as_bytes();
                out.push(36);
                push_decimal(body.len() as u64, out);
                out.push(13);
                out.push(10);
                push_bytes(out, body);
                out.push(13);
                out.push(10);
                assert(final(out)@ =~= old(out)@ + encode(self@));
            },
            RespType::NullBulkString => {
                out.push(36);
                out.push(45);
                out.push(49);
                out.push(13);
                out.push(10);
                assert(final(out)@ =~= old(out)@ + encode(self@));
            },
            RespType::Integer(n) => {
                out.push(58);
                if *n < 0 {
                    out.push(45);
                    let magnitude: u64 = (-(*n as i128)) as u64;
                    push_decimal(magnitude, out);
                } else {
                    push_decimal(*n as u64, out);
                }
                out.push(13);
                out.push(10);
                assert(final(out)@ =~= old(out)@ + encode(self@));
            },
            RespType::Array(items) => {
                out.push(42);
                push_decimal(items.len() as u64, out);
                out.push(13);
                out.push(10);
                let ghost head = out@;
                let mut i: usize = 0;
                while i < items.len()
                    invariant
                        i <= items.len(),
                        decreases_to!(self => items),
                        out@ + encode_from(views_of(items@), i as nat) == head + encode_from(
                            views_of(items@),
                            0,
                        ),
                    decreases items.len() - i,
                {
                    proof {
                        assert(decreases_to!(items => items@[i as int]));
                    }
                    let ghost before = out@;
                    items[i].write_to(out);
                    proof {
                        let all = views_of(items@);
                        assert(before + encode_from(all, i as nat) =~= out@ + encode_from(
                            all,
                            (i + 1) as nat,
                        ));
                    }
                    i += 1;
                }
                proof {
                    lemma_array_view(*items);
                    assert(final(out)@ =~= old(out)@ + encode(self@));
                }
            },
        }
    }

    /// The bytes of this value on the wire, as a vector.
    pub fn to_vec(&self) -> (res: Vec<u8>)
        ensures
            res@ == encode(self@),
    {
        let mut out: Vec<u8> = Vec::new();
        self.write_to(&mut out);
        assert(out@ =~= encode(self@));
        out
    }

    /// The bytes of this value on the wire.
    pub fn to_bytes(&self) -> (res: Bytes)
        ensures
            frozen_bytes(res) == encode(self@),
    {
        freeze(self.to_vec())
    }

    /// Reads the length prefix of an array at the head of the buffer: the
    /// number of items and the bytes the prefix takes, or `None` while the
    /// line has not ended.
    pub fn parse_array_len(src: BytesMut) -> (res: Result<Option<(usize, usize)>, RespError>)
        ensures
            prefix_as(
                res,
                parse_len_prefix(
                    buffer_bytes(src),
                    42,
                    RespFault::InvalidArray("Not a valid RESP array"@),
                ),
            ),
    {
        Self::array_len_from(as_slice(&src))
    }

    /// Reads the length prefix of a bulk string at the head of the buffer:
    /// the length of its body and the bytes the prefix takes, or `None` while
    /// the line has not ended.
    pub fn parse_bulk_string_len(src: BytesMut) -> (res: Result<Option<(usize, usize)>, RespError>)
        ensures
            prefix_as(
                res,
                parse_len_prefix(
                    buffer_bytes(src),
                    36,
                    RespFault::InvalidBulkString("Not a valid RESP bulk string"@),
                ),
            ),
    {
        Self::bulk_string_len_from(as_slice(&src))
    }

    /// [`RespType::parse_array_len`] on a byte slice.
    pub fn array_len_from(buf: &[u8]) -> (res: Result<Option<(usize, usize)>, RespError>)
        ensures
            prefix_as(
                res,
                parse_len_prefix(buf@, 42, RespFault::InvalidArray("Not a valid RESP array"@)),
            ),
            res matches Ok(Some((n, used))) ==> 4 <= used <= buf@.len(),
    {
        let (line, used) = match Self::read_till_crlf(buf) {
            Some(pair) => pair,
            None => {
                return Ok(None);
            },
        };
        if used < 4 || line[0] != 42 {
            return Err(RespError::InvalidArray(String::from_str("Not a valid RESP array")));
        }
        let digits = slice_subrange(line, 1, line.len());
        assert(digits@ =~= buf@.subrange(1, used - 2));
        match Self::parse_usize_from_buf(digits) {
            Ok(n) => Ok(Some((n, used))),
            Err(e) => Err(e),
        }
    }

    /// [`RespType::parse_bulk_string_len`] on a byte slice.
    pub fn bulk_string_len_from(buf: &[u8]) -> (res: Result<Option<(usize, usize)>, RespError>)
        ensures
            prefix_as(
                res,
                parse_len_prefix(
                    buf@,
                    36,
                    RespFault::InvalidBulkString("Not a valid RESP bulk string"@),
                ),
            ),
            res matches Ok(Some((n, used))) ==> 4 <= used <= buf@.len(),
    {
        let (line, used) = match Self::read_till_crlf(buf) {
            Some(pair) => pair,
            None => {
                return Ok(None);
            },
        };
        if used < 4 || line[0] != 36 {
            return Err(
                RespError::InvalidBulkString(String::from_str("Not a valid RESP bulk string")),
            );
        }
        let digits = slice_subrange(line, 1, line.len());
        assert(digits@ =~= buf@.subrange(1, used - 2));
        match Self::parse_usize_from_buf(digits) {
            Ok(n) => Ok(Some((n, used))),
            Err(e) => Err(e),
        }
    }

    /// Reads bytes up to the first line ending: the line without its ending,
    /// and the number of bytes read with it.
    pub fn read_till_crlf(buf: &[u8]) -> (res: Option<(&[u8], usize)>)
        ensures
            match res {
                Some((line, used)) => 2 <= used <= buf@.len() && find_crlf(buf@, 0) == Some(
                    used - 2,
                ) && line@ == buf@.subrange(0, used - 2),
                None => find_crlf(buf@, 0) is None,
            },
    {
        match find_line_end(buf, 0) {
            Some(i) => {
                assert(i + 2 <= buf.len());
                Some((slice_subrange(buf, 0, i), i + 2))
            },
            None => None,
        }
    }

    /// Reads a length field: unsigned decimal digits without sign.
    pub fn parse_usize_from_buf(buf: &[u8]) -> (res: Result<usize, RespError>)
        ensures
            match res {
                Ok(n) => parse_length(buf@) == Ok::<nat, RespFault>(n as nat),
                Err(e) => parse_length(buf@) == Err::<nat, RespFault>(e@),
            },
    {
        if string_from_utf8(slice_to_vec(buf)).is_none() {
            return Err(RespError::Other(String::from_str("Invalid UTF-8 string")));
        }
        match parse_u64_digits(buf) {
            Some(v) => {
                if v > usize::MAX as u64 {
                    Err(RespError::Other(String::from_str("Invalid value for an integer")))
                } else {
                    Ok(v as usize)
                }
            },
            None => Err(RespError::Other(String::from_str("Invalid value for an integer"))),
        }
    }
}

/// What `rest` gives, behind items already read that took `used` bytes.
pub open spec fn join_items(
    items: Seq<RespValue>,
    used: nat,
    rest: Result<(Seq<RespValue>, nat), RespFault>,
) -> Result<(Seq<RespValue>, nat), RespFault> {
    match rest {
        Ok((others, m)) => Ok((items + others, used + m)),
        Err(e) => Err(e),
    }
}

proof fn lemma_join_items_step(
    items: Seq<RespValue>,
    used: nat,
    first: RespValue,
    n: nat,
    rest: Result<(Seq<RespValue>, nat), RespFault>,
)
    ensures
        join_items(items, used, join_items(seq![first], n, rest)) == join_items(
            items.push(first),
            used + n,
            rest,
        ),
{
    match rest {
        Ok((others, m)) => {
            assert(items + (seq![first] + others) =~= items.push(first) + others);
        },
        Err(e) => {},
    }
}

proof fn lemma_array_view_push(items: Seq<RespType>, item: RespType)
    ensures
        views_of(items.push(item)) == views_of(items).push(item@),
{
    assert(views_of(items.push(item)) =~= views_of(items).push(item@));
}

/// A bulk string that was read took at least one byte and no more than the
/// buffer holds.
pub proof fn lemma_parse_bulk_bounds(b: Seq<u8>)
    ensures
        parse_bulk(b) matches Ok((v, n)) ==> 0 < n <= b.len(),
{
}

/// A value that was read took at least one byte and no more than the buffer
/// holds.
pub proof fn lemma_parse_value_bounds(b: Seq<u8>)
    ensures
        parse_value(b) matches Ok((v, n)) ==> 0 < n <= b.len(),
    decreases b.len(), 2nat,
{
    if b.len() > 0 && b[0] == 42 {
        lemma_parse_array_bounds(b);
    }
}

proof fn lemma_parse_array_bounds(b: Seq<u8>)
    ensures
        parse_array(b) matches Ok((v, n)) ==> 0 < n <= b.len(),
    decreases b.len(), 1nat,
{
    if b.len() > 0 {
        match parse_header(b) {
            Ok((k, start)) => {
                if 0 < start <= b.len() {
                    lemma_parse_items_bounds(b.skip(start as int), k);
                }
            },
            Err(_) => {},
        }
    }
}

proof fn lemma_parse_items_bounds(b: Seq<u8>, k: nat)
    ensures
        parse_items(b, k) matches Ok((items, n)) ==> n <= b.len() && items.len() == k,
    decreases b.len(), 3nat, k,
{
    if k > 0 {
        lemma_parse_value_bounds(b);
        match parse_value(b) {
            Ok((first, n)) => {
                if n <= b.len() {
                    lemma_parse_items_bounds(b.skip(n as int), (k - 1) as nat);
                }
            },
            Err(_) => {},
        }
    }
}


/// The values that the parser reads: bulk strings, and arrays of values
/// that it reads.
pub open spec fn is_command_shaped(v: RespValue) -> bool
    decreases v,
{
    match v {
        RespValue::BulkString(_) => true,
        RespValue::Array(items) => forall|i: int|
            0 <= i < items.len() ==> is_command_shaped(#[trigger] items[i]),
        _ => false,
    }
}

/// The first line ending at or after `from` is at `at` when there is one
/// there and no carriage return before it.
pub proof fn lemma_find_crlf_at(b: Seq<u8>, from: int, at: int)
    requires
        0 <= from <= at,
        at + 1 < b.len(),
        b[at] == 13,
        b[at + 1] == 10,
        forall|j: int| from <= j < at ==> b[j] != 13,
    ensures
        find_crlf(b, from) == Some(at),
    decreases at - from,
{
    if from < at {
        lemma_find_crlf_at(b, from + 1, at);
    }
}

/// The decimal spelling of a number that fits in `usize` is read as a
/// length field with that number.
pub proof fn lemma_length_of_decimal(n: nat)
    requires
        n <= usize::MAX,
    ensures
        parse_length(decimal_bytes(n)) == Ok::<nat, RespFault>(n),
{
    let d = decimal_bytes(n);
    lemma_decimal_roundtrip(n);
    assert(all_ascii(d)) by {
        assert forall|i: int| 0 <= i < d.len() implies #[trigger] d[i] < 128 by {
            assert(is_digit(d[i]));
        }
    }
    crate::text::lemma_ascii_utf8(d);
}

proof fn lemma_header_of(kind: u8, n: nat, rest: Seq<u8>)
    requires
        n <= usize::MAX,
    ensures
        parse_header(seq![kind] + decimal_bytes(n) + crlf() + rest) == Ok::<(nat, nat), RespFault>(
            (n, (decimal_bytes(n).len() + 3) as nat),
        ),
{
    let d = decimal_bytes(n);
    let b = seq![kind] + d + crlf() + rest;
    let at = 1 + d.len() as int;
    lemma_decimal_roundtrip(n);
    assert forall|j: int| 1 <= j < at implies b[j] != 13 by {
        assert(b[j] == d[j - 1]);
        assert(is_digit(d[j - 1]));
    }
    assert(b[at] == 13 && b[at + 1] == 10);
    lemma_find_crlf_at(b, 1, at);
    assert(b.subrange(1, at) =~= d);
    lemma_length_of_decimal(n);
}

/// A value that the parser reads is read back from its encoding, whatever
/// follows it in the buffer, and takes exactly the bytes of the encoding.
pub proof fn lemma_parse_encoded(v: RespValue, tail: Seq<u8>)
    requires
        is_command_shaped(v),
        encode(v).len() <= usize::MAX,
    ensures
        parse_value(encode(v) + tail) == Ok::<(RespValue, nat), RespFault>((v, encode(v).len())),
    decreases v, 0nat,
{
    let b = encode(v) + tail;
    match v {
        RespValue::BulkString(t) => {
            let body = utf8(t);
            let d = decimal_bytes(body.len());
            let rest = body + crlf() + tail;
            assert(b =~= seq![36u8] + d + crlf() + rest);
            lemma_header_of(36, body.len(), rest);
            let start = d.len() as int + 3;
            let end = start + body.len();
            assert(b.subrange(start, end) =~= body);
            assert(b[end] == 13 && b[end + 1] == 10);
            vstd::utf8::encode_utf8_valid_utf8(t);
            vstd::utf8::encode_utf8_decode_utf8(t);
            assert(encode(v).len() == end + 2);
        },
        RespValue::Array(items) => {
            let d = decimal_bytes(items.len());
            let rest = encode_from(items, 0) + tail;
            assert(b =~= seq![42u8] + d + crlf() + rest);
            lemma_encode_from_len(items, 0);
            lemma_header_of(42, items.len(), rest);
            let start = d.len() as int + 3;
            assert(b.skip(start) =~= rest);
            lemma_parse_encoded_items(items, 0, tail);
            assert(items.skip(0) =~= items);
            assert(encode(v).len() == start + encode_from(items, 0).len());
        },
        _ => {},
    }
}

/// The encoding of the items from an index on is at least as long as the
/// encoding of each of them.
pub proof fn lemma_encode_from_len(items: Seq<RespValue>, i: nat)
    ensures
        encode_from(items, i).len() + i >= items.len(),
        forall|j: int| i <= j < items.len() ==> encode(#[trigger] items[j]).len() <= encode_from(
            items,
            i,
        ).len(),
    decreases items.len() - i,
{
    if i < items.len() {
        lemma_encode_from_len(items, i + 1);
        lemma_encode_nonempty(items[i as int]);
    }
}

/// Every encoding holds at least one byte.
pub proof fn lemma_encode_nonempty(v: RespValue)
    ensures
        encode(v).len() > 0,
{
}

proof fn lemma_parse_encoded_items(items: Seq<RespValue>, i: nat, tail: Seq<u8>)
    requires
        i <= items.len(),
        forall|j: int| 0 <= j < items.len() ==> is_command_shaped(#[trigger] items[j]),
        encode_from(items, i).len() <= usize::MAX,
    ensures
        parse_items(encode_from(items, i) + tail, (items.len() - i) as nat) == Ok::<
            (Seq<RespValue>, nat),
            RespFault,
        >((items.skip(i as int), encode_from(items, i).len())),
    decreases items, items.len() - i,
{
    if i == items.len() {
        assert(items.skip(i as int) =~= Seq::<RespValue>::empty());
    } else {
        let first = items[i as int];
        let after = encode_from(items, i + 1) + tail;
        let b = encode_from(items, i) + tail;
        assert(b =~= encode(first) + after);
        lemma_parse_encoded(first, after);
        let n = encode(first).len();
        assert(b.skip(n as int) =~= after);
        lemma_parse_encoded_items(items, i + 1, tail);
        assert(seq![first] + items.skip(i as int + 1) =~= items.skip(i as int));
    }
}


/// A buffer that holds exactly the encoding of a value that the parser
/// reads is read as that value, and all of it is taken.
pub proof fn lemma_parse_serialization(s: Seq<u8>, v: RespValue)
    requires
        is_command_shaped(v),
        s == encode(v),
        s.len() <= usize::MAX,
    ensures
        parse_value(s) == Ok::<(RespValue, nat), RespFault>((v, s.len())),
{
    lemma_parse_encoded(v, Seq::empty());
    assert(encode(v) + Seq::<u8>::empty() =~= encode(v));
}

/// Encoding a value that the parser reads and parsing the bytes gives the
/// value back, with as many bytes taken as the encoding has.
pub proof fn lemma_roundtrip(v: RespValue)
    requires
        is_command_shaped(v),
        encode(v).len() <= usize::MAX,
    ensures
        parse_value(encode(v)) == Ok::<(RespValue, nat), RespFault>((v, encode(v).len())),
{
    lemma_parse_serialization(encode(v), v);
}


/// A line ending that was found is found again, at the same place, when
/// more bytes follow the buffer.
pub proof fn lemma_find_crlf_stable(b: Seq<u8>, more: Seq<u8>, from: int)
    requires
        find_crlf(b, from) is Some,
    ensures
        find_crlf(b + more, from) == find_crlf(b, from),
    decreases b.len() - from,
{
    if !(from < 0 || from + 1 >= b.len()) {
        assert((b + more)[from] == b[from]);
        assert((b + more)[from + 1] == b[from + 1]);
        if !(b[from] == 13 && b[from + 1] == 10) {
            lemma_find_crlf_stable(b, more, from + 1);
        }
    }
}

/// Where a line ending was found, the line and its ending lie in the
/// buffer, and there is none before it.
pub proof fn lemma_find_crlf_bounds(b: Seq<u8>, from: int)
    ensures
        find_crlf(b, from) matches Some(i) ==> from <= i && i + 1 < b.len() && b[i] == 13 && b[i
            + 1] == 10,
    decreases b.len() - from,
{
    if !(from < 0 || from + 1 >= b.len()) {
        if !(b[from] == 13 && b[from + 1] == 10) {
            lemma_find_crlf_bounds(b, from + 1);
        }
    }
}

/// A length prefix that was read is read again, the same, when more bytes
/// follow the buffer.
pub proof fn lemma_len_prefix_stable(b: Seq<u8>, more: Seq<u8>, kind: u8, fault: RespFault)
    requires
        parse_len_prefix(b, kind, fault) matches Ok(Some(_)),
    ensures
        parse_len_prefix(b + more, kind, fault) == parse_len_prefix(b, kind, fault),
{
    lemma_find_crlf_stable(b, more, 0);
    lemma_find_crlf_bounds(b, 0);
    let end = find_crlf(b, 0)->Some_0;
    assert((b + more)[0] == b[0]);
    assert((b + more).subrange(1, end) =~= b.subrange(1, end));
}

/// A bulk string that was read is read again, the same, when more bytes
/// follow the buffer.
pub proof fn lemma_parse_bulk_stable(b: Seq<u8>, more: Seq<u8>)
    requires
        parse_bulk(b) is Ok,
    ensures
        parse_bulk(b + more) == parse_bulk(b),
{
    lemma_find_crlf_stable(b, more, 1);
    lemma_find_crlf_bounds(b, 1);
    let line_end = find_crlf(b, 1)->Some_0;
    assert((b + more).subrange(1, line_end) =~= b.subrange(1, line_end));
    let (n, start) = parse_header(b)->Ok_0;
    let end = (start + n) as int;
    assert((b + more)[end] == b[end]);
    assert((b + more)[end + 1] == b[end + 1]);
    assert((b + more).subrange(start as int, end) =~= b.subrange(start as int, end));
}

} // verus!
