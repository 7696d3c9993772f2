use vstd::bytes::{
    lemma_auto_spec_u64_to_from_le_bytes, spec_u64_from_le_bytes, spec_u64_to_le_bytes,
    u64_from_le_bytes, u64_to_le_bytes,
};
use vstd::prelude::*;
use vstd::slice::slice_subrange;

use crate::values::{dup_bytes, push_all, CellVal, CellValue, Message, MsgVal, Reply, ReplyVal};

verus! {

/// Payload tag of a client command (ASCII `C`).
pub const TAG_COMMAND: u8 = 67;

/// Payload tag of a server reply (ASCII `R`).
pub const TAG_REPLY: u8 = 82;

/// Reply tag of plain success (ASCII `O`).
pub const TAG_OKAY: u8 = 79;

/// Reply tag of a carried value (ASCII `V`).
pub const TAG_VALUE: u8 = 86;

/// Tag of an error, at the reply and at the value level (ASCII `E`).
pub const TAG_ERROR: u8 = 69;

/// Value tag of a number (ASCII `N`).
pub const TAG_NUMBER: u8 = 78;

/// Value tag of text (ASCII `T`).
pub const TAG_TEXT: u8 = 84;

/// The lower-case hex digit of a value below sixteen.
pub open spec fn hex_char(n: u8) -> u8
    recommends
        n < 16,
{
    if n < 10 {
        (48 + n) as u8
    } else {
        (87 + n) as u8
    }
}

/// The value of a lower-case hex digit.
pub open spec fn hex_val(c: u8) -> u8 {
    if 48 <= c && c <= 57 {
        (c - 48) as u8
    } else {
        (c - 87) as u8
    }
}

pub open spec fn is_hex_char(c: u8) -> bool {
    (48 <= c && c <= 57) || (97 <= c && c <= 102)
}

/// Two lower-case hex digits for each byte, high nibble first.
pub open spec fn hex_of_bytes(bs: Seq<u8>) -> Seq<u8> {
    Seq::new(
        2 * bs.len(),
        |i: int|
            if i % 2 == 0 {
                hex_char(bs[i / 2] >> 4)
            } else {
                hex_char(bs[i / 2] & 15)
            },
    )
}

/// The bytes that a run of hex digit pairs spells, if it is one.
pub open spec fn unhex(s: Seq<u8>) -> Option<Seq<u8>> {
    if s.len() % 2 == 0 && (forall|i: int| 0 <= i < s.len() ==> is_hex_char(s[i])) {
        Some(Seq::new(s.len() / 2, |i: int| (hex_val(s[2 * i]) * 16 + hex_val(s[2 * i + 1])) as u8))
    } else {
        None
    }
}

/// Hex digit pairs decode to the bytes they were made from.
pub proof fn lemma_unhex_hex(bs: Seq<u8>)
    ensures
        unhex(hex_of_bytes(bs)) == Some(bs),
{
    let h = hex_of_bytes(bs);
    assert forall|i: int| 0 <= i < h.len() implies is_hex_char(h[i]) by {
        let b = bs[i / 2];
        assert((b >> 4) < 16 && (b & 15) < 16) by (bit_vector);
    }
    assert(unhex(h) is Some);
    let d = unhex(h).unwrap();
    assert forall|i: int| 0 <= i < bs.len() implies d[i] == bs[i] by {
        let b = bs[i];
        assert(h[2 * i] == hex_char(b >> 4));
        assert(h[2 * i + 1] == hex_char(b & 15));
        assert((b >> 4) < 16 && (b & 15) < 16 && ((b >> 4) * 16 + (b & 15)) == b) by (bit_vector);
    }
    assert(d =~= bs);
}

fn hex_char_exec(n: u8) -> (r: u8)
    requires
        n < 16,
    ensures
        r == hex_char(n),
{
    if n < 10 {
        48 + n
    } else {
        87 + n
    }
}

fn hex_val_exec(c: u8) -> (r: u8)
    requires
        is_hex_char(c),
    ensures
        r == hex_val(c),
        r < 16,
{
    if c <= 57 {
        c - 48
    } else {
        c - 87
    }
}

fn is_hex_exec(c: u8) -> (r: bool)
    ensures
        r == is_hex_char(c),
{
    (48 <= c && c <= 57) || (97 <= c && c <= 102)
}

/// Appends the hex digits of `bs` to `v`.
fn hex_push(v: &mut Vec<u8>, bs: &[u8])
    ensures
        final(v)@ == old(v)@ + hex_of_bytes(bs@),
{
    let mut i: usize = 0;
    proof {
        assert(v@ =~= old(v)@ + hex_of_bytes(bs@.take(0)));
    }
    while i < bs.len()
        invariant
            i <= bs@.len(),
            v@ == old(v)@ + hex_of_bytes(bs@.take(i as int)),
        decreases bs@.len() - i,
    {
        let b = bs[i];
        proof {
            assert((b >> 4) < 16 && (b & 15) < 16) by (bit_vector);
        }
        v.push(hex_char_exec(b >> 4));
        v.push(hex_char_exec(b & 15));
        proof {
            assert(hex_of_bytes(bs@.take(i as int + 1)) =~= hex_of_bytes(bs@.take(i as int))
                + seq![hex_char(b >> 4), hex_char(b & 15)]);
            assert(v@ =~= old(v)@ + hex_of_bytes(bs@.take(i as int + 1)));
        }
        i = i + 1;
    }
    proof {
        assert(bs@.take(bs@.len() as int) =~= bs@);
    }
}

/// Reads a run of hex digit pairs back into bytes.
fn unhex_exec(s: &[u8]) -> (r: Option<Vec<u8>>)
    ensures
        match r {
            Some(v) => unhex(s@) == Some(v@),
            None => unhex(s@) is None,
        },
{
    if s.len() % 2 != 0 {
        return None;
    }
    let mut out: Vec<u8> = Vec::new();
    let mut i: usize = 0;
    while i < s.len()
        invariant
            i <= s@.len(),
            i % 2 == 0,
            s@.len() % 2 == 0,
            forall|k: int| 0 <= k < i ==> is_hex_char(s@[k]),
            out@.len() == i / 2,
            forall|k: int|
                0 <= k < out@.len() ==> out@[k] == (hex_val(s@[2 * k]) * 16 + hex_val(
                    s@[2 * k + 1],
                )) as u8,
        decreases s@.len() - i,
    {
        let c0 = s[i];
        let c1 = s[i + 1];
        if !is_hex_exec(c0) || !is_hex_exec(c1) {
            return None;
        }
        out.push(hex_val_exec(c0) * 16 + hex_val_exec(c1));
        i = i + 2;
    }
    proof {
        let d = unhex(s@).unwrap();
        assert(out@ =~= d);
    }
    Some(out)
}

/// The payload encoding of a cell value: a tag byte, then for a number the
/// hex digits of its little-endian bit-pattern bytes, for text or an error
/// the bytes themselves.
pub open spec fn spec_encode_value(v: CellVal) -> Seq<u8> {
    match v {
        CellVal::Number(bits) => seq![TAG_NUMBER] + hex_of_bytes(spec_u64_to_le_bytes(bits)),
        CellVal::Text(t) => seq![TAG_TEXT] + t,
        CellVal::Error(e) => seq![TAG_ERROR] + e,
    }
}

/// The payload encoding of a reply: a tag byte, then the encoded value or
/// the error bytes.
pub open spec fn spec_encode_reply(r: ReplyVal) -> Seq<u8> {
    match r {
        ReplyVal::Okay => seq![TAG_OKAY],
        ReplyVal::Value(v) => seq![TAG_VALUE] + spec_encode_value(v),
        ReplyVal::Error(e) => seq![TAG_ERROR] + e,
    }
}

/// The payload encoding of a message: a tag byte, then the command bytes or
/// the encoded reply.
pub open spec fn spec_encode_message(m: MsgVal) -> Seq<u8> {
    match m {
        MsgVal::Command(c) => seq![TAG_COMMAND] + c,
        MsgVal::Reply(r) => seq![TAG_REPLY] + spec_encode_reply(r),
    }
}

pub open spec fn spec_decode_value(s: Seq<u8>) -> Option<CellVal> {
    if s.len() >= 1 && s[0] == TAG_NUMBER {
        match unhex(s.skip(1)) {
            Some(bs) => if bs.len() == 8 {
                Some(CellVal::Number(spec_u64_from_le_bytes(bs)))
            } else {
                None
            },
            None => None,
        }
    } else if s.len() >= 1 && s[0] == TAG_TEXT {
        Some(CellVal::Text(s.skip(1)))
    } else if s.len() >= 1 && s[0] == TAG_ERROR {
        Some(CellVal::Error(s.skip(1)))
    } else {
        None
    }
}

pub open spec fn spec_decode_reply(s: Seq<u8>) -> Option<ReplyVal> {
    if s.len() == 1 && s[0] == TAG_OKAY {
        Some(ReplyVal::Okay)
    } else if s.len() >= 1 && s[0] == TAG_VALUE {
        match spec_decode_value(s.skip(1)) {
            Some(v) => Some(ReplyVal::Value(v)),
            None => None,
        }
    } else if s.len() >= 1 && s[0] == TAG_ERROR {
        Some(ReplyVal::Error(s.skip(1)))
    } else {
        None
    }
}

pub open spec fn spec_decode_message(s: Seq<u8>) -> Option<MsgVal> {
    if s.len() >= 1 && s[0] == TAG_COMMAND {
        Some(MsgVal::Command(s.skip(1)))
    } else if s.len() >= 1 && s[0] == TAG_REPLY {
        match spec_decode_reply(s.skip(1)) {
            Some(r) => Some(MsgVal::Reply(r)),
            None => None,
        }
    } else {
        None
    }
}

/// Decoding undoes encoding, for every cell value.
pub proof fn lemma_value_round_trip(v: CellVal)
    ensures
        spec_decode_value(spec_encode_value(v)) == Some(v),
{
    match v {
        CellVal::Number(bits) => {
            lemma_auto_spec_u64_to_from_le_bytes();
            let bs = spec_u64_to_le_bytes(bits);
            let enc = seq![TAG_NUMBER] + hex_of_bytes(bs);
            assert(enc.skip(1) =~= hex_of_bytes(bs));
            lemma_unhex_hex(bs);
        },
        CellVal::Text(t) => {
            assert((seq![TAG_TEXT] + t).skip(1) =~= t);
        },
        CellVal::Error(e) => {
            assert((seq![TAG_ERROR] + e).skip(1) =~= e);
        },
    }
}

/// Decoding undoes encoding, for every reply.
pub proof fn lemma_reply_round_trip(r: ReplyVal)
    ensures
        spec_decode_reply(spec_encode_reply(r)) == Some(r),
{
    match r {
        ReplyVal::Okay => {
        },
        ReplyVal::Value(v) => {
            assert((seq![TAG_VALUE] + spec_encode_value(v)).skip(1) =~= spec_encode_value(v));
            lemma_value_round_trip(v);
        },
        ReplyVal::Error(e) => {
            assert((seq![TAG_ERROR] + e).skip(1) =~= e);
        },
    }
}

/// The round-trip law of the payload codec: decoding an encoded message
/// yields the message itself, whichever side sent it.
pub proof fn lemma_message_round_trip(m: MsgVal)
    ensures
        spec_decode_message(spec_encode_message(m)) == Some(m),
{
    match m {
        MsgVal::Command(c) => {
            assert((seq![TAG_COMMAND] + c).skip(1) =~= c);
        },
        MsgVal::Reply(r) => {
            assert((seq![TAG_REPLY] + spec_encode_reply(r)).skip(1) =~= spec_encode_reply(r));
            lemma_reply_round_trip(r);
        },
    }
}

fn encode_value(v: &CellValue) -> (r: Vec<u8>)
    ensures
        r@ == spec_encode_value(v@),
{
    let mut out: Vec<u8> = Vec::new();
    match v {
        CellValue::Number(bits) => {
            out.push(TAG_NUMBER);
            let bs = u64_to_le_bytes(*bits);
            hex_push(&mut out, bs.as_slice());
            proof {
                assert(out@ =~= spec_encode_value(v@));
            }
        },
        CellValue::Text(t) => {
            out.push(TAG_TEXT);
            push_all(&mut out, t.as_slice());
            proof {
                assert(out@ =~= spec_encode_value(v@));
            }
        },
        CellValue::Error(e) => {
            out.push(TAG_ERROR);
            push_all(&mut out, e.as_slice());
            proof {
                assert(out@ =~= spec_encode_value(v@));
            }
        },
    }
    out
}

fn encode_reply(r: &Reply) -> (out: Vec<u8>)
    ensures
        out@ == spec_encode_reply(r@),
{
    let mut out: Vec<u8> = Vec::new();
    match r {
        Reply::Okay => {
            out.push(TAG_OKAY);
            proof {
                assert(out@ =~= spec_encode_reply(r@));
            }
        },
        Reply::Value(v) => {
            out.push(TAG_VALUE);
            let enc = encode_value(v);
            push_all(&mut out, enc.as_slice());
            proof {
                assert(out@ =~= spec_encode_reply(r@));
            }
        },
        Reply::Error(e) => {
            out.push(TAG_ERROR);
            push_all(&mut out, e.as_slice());
            proof {
                assert(out@ =~= spec_encode_reply(r@));
            }
        },
    }
    out
}

/// Encodes a message into its self-delimiting payload bytes.
pub fn encode_message(m: &Message) -> (out: Vec<u8>)
    ensures
        out@ == spec_encode_message(m@),
{
    let mut out: Vec<u8> = Vec::new();
    match m {
        Message::Command(c) => {
            out.push(TAG_COMMAND);
            push_all(&mut out, c.as_slice());
            proof {
                assert(out@ =~= spec_encode_message(m@));
            }
        },
        Message::Reply(r) => {
            out.push(TAG_REPLY);
            let enc = encode_reply(r);
            push_all(&mut out, enc.as_slice());
            proof {
                assert(out@ =~= spec_encode_message(m@));
            }
        },
    }
    out
}

fn decode_value(s: &[u8]) -> (r: Option<CellValue>)
    ensures
        match r {
            Some(v) => spec_decode_value(s@) == Some(v@),
            None => spec_decode_value(s@) is None,
        },
{
    if s.len() < 1 {
        return None;
    }
    let tag = s[0];
    let rest = slice_subrange(s, 1, s.len());
    proof {
        assert(rest@ =~= s@.skip(1));
    }
    if tag == TAG_NUMBER {
        match unhex_exec(rest) {
            Some(bs) => {
                if bs.len() == 8 {
                    Some(CellValue::Number(u64_from_le_bytes(bs.as_slice())))
                } else {
                    None
                }
            },
            None => None,
        }
    } else if tag == TAG_TEXT {
        Some(CellValue::Text(dup_bytes(rest)))
    } else if tag == TAG_ERROR {
        Some(CellValue::Error(dup_bytes(rest)))
    } else {
        None
    }
}

fn decode_reply(s: &[u8]) -> (r: Option<Reply>)
    ensures
        match r {
            Some(rep) => spec_decode_reply(s@) == Some(rep@),
            None => spec_decode_reply(s@) is None,
        },
{
    if s.len() < 1 {
        return None;
    }
    let tag = s[0];
    if tag == TAG_OKAY && s.len() == 1 {
        return Some(Reply::Okay);
    }
    let rest = slice_subrange(s, 1, s.len());
    proof {
        assert(rest@ =~= s@.skip(1));
    }
    if tag == TAG_VALUE {
        match decode_value(rest) {
            Some(v) => Some(Reply::Value(v)),
            None => None,
        }
    } else if tag == TAG_ERROR {
        Some(Reply::Error(dup_bytes(rest)))
    } else {
        None
    }
}

/// Decodes one payload back into the message it encodes, if it does.
pub fn decode_message(s: &[u8]) -> (r: Option<Message>)
    ensures
        match r {
            Some(m) => spec_decode_message(s@) == Some(m@),
            None => spec_decode_message(s@) is None,
        },
{
    if s.len() < 1 {
        return None;
    }
    let tag = s[0];
    let rest = slice_subrange(s, 1, s.len());
    proof {
        assert(rest@ =~= s@.skip(1));
    }
    if tag == TAG_COMMAND {
        Some(Message::Command(dup_bytes(rest)))
    } else if tag == TAG_REPLY {
        match decode_reply(rest) {
            Some(rep) => Some(Message::Reply(rep)),
            None => None,
        }
    } else {
        None
    }
}

/// The four-byte big-endian length prefix of a frame.
pub open spec fn spec_u32_be(n: u32) -> Seq<u8> {
    seq![(n >> 24) as u8, (n >> 16) as u8, (n >> 8) as u8, n as u8]
}

/// The length a four-byte big-endian prefix announces.
pub open spec fn spec_u32_from_be(s: Seq<u8>) -> u32
    recommends
        s.len() == 4,
{
    ((s[0] as u32) << 24) | ((s[1] as u32) << 16) | ((s[2] as u32) << 8) | (s[3] as u32)
}

/// Builds the length prefix of a frame whose payload has `n` bytes.
pub fn frame_header(n: u32) -> (r: Vec<u8>)
    ensures
        r@ == spec_u32_be(n),
{
    let mut v: Vec<u8> = Vec::new();
    v.push((n >> 24) as u8);
    v.push((n >> 16) as u8);
    v.push((n >> 8) as u8);
    v.push(n as u8);
    proof {
        assert(v@ =~= spec_u32_be(n));
    }
    v
}

/// Reads the length out of a four-byte prefix.
pub fn frame_len(b: &[u8]) -> (r: u32)
    requires
        b@.len() == 4,
    ensures
        r == spec_u32_from_be(b@),
{
    ((b[0] as u32) << 24u32) | ((b[1] as u32) << 16u32) | ((b[2] as u32) << 8u32) | (b[3] as u32)
}

/// The length prefix reads back as the payload length it was built from.
pub proof fn lemma_header_round_trip(n: u32)
    ensures
        spec_u32_from_be(spec_u32_be(n)) == n,
{
    assert((((n >> 24) as u8 as u32) << 24) | (((n >> 16) as u8 as u32) << 16) | (((n
        >> 8) as u8 as u32) << 8) | (n as u8 as u32) == n) by (bit_vector);
}

/// A whole frame: the big-endian length prefix, then the payload itself.
pub open spec fn spec_frame(payload: Seq<u8>) -> Seq<u8>
    recommends
        payload.len() <= u32::MAX,
{
    spec_u32_be(payload.len() as u32) + payload
}

/// Builds one frame around a payload.
pub fn frame_payload(payload: &[u8]) -> (r: Vec<u8>)
    requires
        payload@.len() <= u32::MAX,
    ensures
        r@ == spec_frame(payload@),
{
    let mut v = frame_header(payload.len() as u32);
    push_all(&mut v, payload);
    v
}

/// A frame announces exactly its payload: the prefix reads back as the
/// payload's length and the rest of the frame is the payload itself.
pub proof fn lemma_frame_round_trip(payload: Seq<u8>)
    requires
        payload.len() <= u32::MAX,
    ensures
        spec_frame(payload).len() == payload.len() + 4,
        spec_u32_from_be(spec_frame(payload).subrange(0, 4)) == payload.len(),
        spec_frame(payload).skip(4) == payload,
{
    lemma_header_round_trip(payload.len() as u32);
    assert(spec_frame(payload).subrange(0, 4) =~= spec_u32_be(payload.len() as u32));
    assert(spec_frame(payload).skip(4) =~= payload);
}

} // verus!
