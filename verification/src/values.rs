use vstd::prelude::*;
use vstd::slice::slice_to_vec;
use vstd::string::StrSliceExecFns;
use vstd::string::StringSliceAdditionalSpecFns;

verus! {

/// A cell's content at the mathematical level: a number is the bit pattern
/// of an IEEE-754 binary64 value, text and error descriptions are byte
/// sequences.
pub enum CellVal {
    Number(u64),
    Text(Seq<u8>),
    Error(Seq<u8>),
}

/// A reply at the mathematical level.
pub enum ReplyVal {
    Okay,
    Value(CellVal),
    Error(Seq<u8>),
}

/// A wire message at the mathematical level.
pub enum MsgVal {
    Command(Seq<u8>),
    Reply(ReplyVal),
}

/// What a cell holds: a resolved number (the bit pattern of an IEEE-754
/// binary64 value), opaque text, or an error description that is itself a
/// legitimate stored value.
#[derive(Debug, PartialEq, Eq)]
pub enum CellValue {
    Number(u64),
    Text(Vec<u8>),
    Error(Vec<u8>),
}

/// A reply to one command: plain success, the value a `get` found, or a
/// protocol-level failure description.
#[derive(Debug, PartialEq, Eq)]
pub enum Reply {
    Okay,
    Value(CellValue),
    Error(Vec<u8>),
}

/// One wire message: a client-issued command or a server reply.
#[derive(Debug, PartialEq, Eq)]
pub enum Message {
    Command(Vec<u8>),
    Reply(Reply),
}

impl View for CellValue {
    type V = CellVal;

    open spec fn view(&self) -> CellVal {
        match self {
            CellValue::Number(n) => CellVal::Number(*n),
            CellValue::Text(t) => CellVal::Text(t@),
            CellValue::Error(e) => CellVal::Error(e@),
        }
    }
}

impl View for Reply {
    type V = ReplyVal;

    open spec fn view(&self) -> ReplyVal {
        match self {
            Reply::Okay => ReplyVal::Okay,
            Reply::Value(v) => ReplyVal::Value(v@),
            Reply::Error(e) => ReplyVal::Error(e@),
        }
    }
}

impl View for Message {
    type V = MsgVal;

    open spec fn view(&self) -> MsgVal {
        match self {
            Message::Command(c) => MsgVal::Command(c@),
            Message::Reply(r) => MsgVal::Reply(r@),
        }
    }
}

/// Copy of a byte slice as an owned vector.
pub fn dup_bytes(s: &[u8]) -> (r: Vec<u8>)
    ensures
        r@ == s@,
{
    slice_to_vec(s)
}

/// Appends all bytes of `s` to `v`.
pub fn push_all(v: &mut Vec<u8>, s: &[u8])
    ensures
        final(v)@ == old(v)@ + s@,
{
    let mut i: usize = 0;
    while i < s.len()
        invariant
            i <= s@.len(),
            v@ == old(v)@ + s@.take(i as int),
        decreases s@.len() - i,
    {
        v.push(s[i]);
        proof {
            assert(old(v)@ + s@.take(i as int) + seq![s@[i as int]] =~= old(v)@ + s@.take(
                i as int + 1,
            ));
        }
        i = i + 1;
    }
    proof {
        assert(v@ =~= old(v)@ + s@);
    }
}

impl CellValue {
    /// A copy equal (at the view level) to the value itself.
    pub fn dup(&self) -> (r: CellValue)
        ensures
            r@ == self@,
    {
        match self {
            CellValue::Number(n) => CellValue::Number(*n),
            CellValue::Text(t) => CellValue::Text(dup_bytes(t.as_slice())),
            CellValue::Error(e) => CellValue::Error(dup_bytes(e.as_slice())),
        }
    }
}

/// Reply to a command whose shape is not recognized.
pub open spec fn msg_invalid_format() -> Seq<u8> {
    "Invalid command format".spec_bytes()
}

pub fn msg_invalid_format_bytes() -> (r: Vec<u8>)
    ensures
        r@ == msg_invalid_format(),
{
    "Invalid command format".as_bytes_vec()
}

/// Value-shaped description of a `get` on a missing cell.
pub open spec fn msg_cell_not_found(id: Seq<u8>) -> Seq<u8> {
    "Cell ".spec_bytes() + id + " not found".spec_bytes()
}

pub fn msg_cell_not_found_bytes(id: &[u8]) -> (r: Vec<u8>)
    ensures
        r@ == msg_cell_not_found(id@),
{
    let mut v = "Cell ".as_bytes_vec();
    push_all(&mut v, id);
    push_all(&mut v, " not found".as_bytes());
    proof {
        assert(v@ =~= msg_cell_not_found(id@));
    }
    v
}

/// Description of an operand token that is neither a cell nor a numeric
/// literal.
pub open spec fn msg_invalid_operand(tok: Seq<u8>) -> Seq<u8> {
    "Invalid operand: ".spec_bytes() + tok
}

pub fn msg_invalid_operand_bytes(tok: &[u8]) -> (r: Vec<u8>)
    ensures
        r@ == msg_invalid_operand(tok@),
{
    let mut v = "Invalid operand: ".as_bytes_vec();
    push_all(&mut v, tok);
    v
}

/// Description of an expression that matches no recognized pattern.
pub open spec fn msg_unsupported(expr: Seq<u8>) -> Seq<u8> {
    "Unsupported expression format: ".spec_bytes() + expr
}

pub fn msg_unsupported_bytes(expr: &[u8]) -> (r: Vec<u8>)
    ensures
        r@ == msg_unsupported(expr@),
{
    let mut v = "Unsupported expression format: ".as_bytes_vec();
    push_all(&mut v, expr);
    v
}

pub open spec fn msg_division_by_zero() -> Seq<u8> {
    "Division by zero".spec_bytes()
}

pub fn msg_division_by_zero_bytes() -> (r: Vec<u8>)
    ensures
        r@ == msg_division_by_zero(),
{
    "Division by zero".as_bytes_vec()
}

} // verus!
