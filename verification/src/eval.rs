use vstd::prelude::*;
use vstd::slice::slice_subrange;
use vstd::string::StrSliceExecFns;
use vstd::string::StringSliceAdditionalSpecFns;

use crate::numbers::{
    add_num, add_numbers, div_num, div_numbers, is_zero_bits, mul_num, mul_numbers, num_is_zero,
    parse_literal, spec_parse_literal, sub_num, sub_numbers,
};
use crate::store::CellStore;
use crate::values::{dup_bytes, msg_division_by_zero, msg_division_by_zero_bytes,
    msg_invalid_operand, msg_invalid_operand_bytes, msg_unsupported, msg_unsupported_bytes,
    CellVal, CellValue};

verus! {

/// ASCII whitespace; the grammar admits it around the operator.
pub open spec fn is_ws_byte(b: u8) -> bool {
    b == 32 || (9 <= b && b <= 13)
}

pub(crate) fn ws_byte(b: u8) -> (r: bool)
    ensures
        r == is_ws_byte(b),
{
    b == 32 || (9 <= b && b <= 13)
}

/// ASCII `+`.
pub const OP_ADD: u8 = 43;

/// ASCII `-`.
pub const OP_SUB: u8 = 45;

/// ASCII `*`.
pub const OP_MUL: u8 = 42;

/// ASCII `/`.
pub const OP_DIV: u8 = 47;

/// A word byte: ASCII digit (48 to 57), upper-case letter (65 to 90),
/// lower-case letter (97 to 122) or underscore (95). Operand tokens are
/// maximal runs of these.
pub open spec fn is_word_byte(b: u8) -> bool {
    (48 <= b && b <= 57) || (65 <= b && b <= 90) || (97 <= b && b <= 122) || b == 95
}

fn word_byte(b: u8) -> (r: bool)
    ensures
        r == is_word_byte(b),
{
    (48 <= b && b <= 57) || (65 <= b && b <= 90) || (97 <= b && b <= 122) || b == 95
}

/// One of the four recognized operator bytes.
pub open spec fn is_op_byte(b: u8) -> bool {
    b == OP_ADD || b == OP_SUB || b == OP_MUL || b == OP_DIV
}

fn op_byte(b: u8) -> (r: bool)
    ensures
        r == is_op_byte(b),
{
    b == OP_ADD || b == OP_SUB || b == OP_MUL || b == OP_DIV
}

/// The end of the word-byte run that starts at `i`.
pub open spec fn word_end(s: Seq<u8>, i: int) -> int
    decreases s.len() - i when 0 <= i <= s.len()
{
    if i < s.len() && is_word_byte(s[i]) {
        word_end(s, i + 1)
    } else {
        i
    }
}

/// The end of the whitespace run that starts at `i`.
pub open spec fn ws_end(s: Seq<u8>, i: int) -> int
    decreases s.len() - i when 0 <= i <= s.len()
{
    if i < s.len() && is_ws_byte(s[i]) {
        ws_end(s, i + 1)
    } else {
        i
    }
}

fn scan_word_end(s: &[u8], from: usize) -> (r: usize)
    requires
        from <= s@.len(),
    ensures
        r == word_end(s@, from as int),
        from <= r <= s@.len(),
{
    let mut j = from;
    while j < s.len() && word_byte(s[j])
        invariant
            from <= j <= s@.len(),
            word_end(s@, from as int) == word_end(s@, j as int),
        decreases s@.len() - j,
    {
        j = j + 1;
    }
    proof {
        assert(word_end(s@, j as int) == j);
    }
    j
}

fn scan_ws_end(s: &[u8], from: usize) -> (r: usize)
    requires
        from <= s@.len(),
    ensures
        r == ws_end(s@, from as int),
        from <= r <= s@.len(),
{
    let mut j = from;
    while j < s.len() && ws_byte(s[j])
        invariant
            from <= j <= s@.len(),
            ws_end(s@, from as int) == ws_end(s@, j as int),
        decreases s@.len() - j,
    {
        j = j + 1;
    }
    proof {
        assert(ws_end(s@, j as int) == j);
    }
    j
}

/// The single binary operation `<operand> <op> <operand>` that starts at
/// position `i`, if one does: a maximal word run, optional whitespace, an
/// operator byte, optional whitespace, and a second maximal word run.
pub open spec fn match_at(s: Seq<u8>, i: int) -> Option<(Seq<u8>, u8, Seq<u8>)> {
    if 0 <= i < s.len() && is_word_byte(s[i]) {
        let j = word_end(s, i);
        let k = ws_end(s, j);
        if k < s.len() && is_op_byte(s[k]) {
            let m = ws_end(s, k + 1);
            if m < s.len() && is_word_byte(s[m]) {
                Some((s.subrange(i, j), s[k], s.subrange(m, word_end(s, m))))
            } else {
                None
            }
        } else {
            None
        }
    } else {
        None
    }
}

/// The leftmost match of the binary-operation pattern at or after `i`.
pub open spec fn find_from(s: Seq<u8>, i: int) -> Option<(Seq<u8>, u8, Seq<u8>)>
    decreases s.len() - i when 0 <= i <= s.len()
{
    if i >= s.len() {
        None
    } else if match_at(s, i) is Some {
        match_at(s, i)
    } else {
        find_from(s, i + 1)
    }
}

/// The leftmost match of the binary-operation pattern in the text.
pub open spec fn find_binop(s: Seq<u8>) -> Option<(Seq<u8>, u8, Seq<u8>)> {
    find_from(s, 0)
}

fn match_at_exec(s: &[u8], i: usize) -> (r: Option<(Vec<u8>, u8, Vec<u8>)>)
    requires
        i <= s@.len(),
    ensures
        match r {
            Some(t) => match_at(s@, i as int) == Some((t.0@, t.1, t.2@)),
            None => match_at(s@, i as int) is None,
        },
{
    if i < s.len() && word_byte(s[i]) {
        let j = scan_word_end(s, i);
        let k = scan_ws_end(s, j);
        if k < s.len() && op_byte(s[k]) {
            let m = scan_ws_end(s, k + 1);
            if m < s.len() && word_byte(s[m]) {
                let e = scan_word_end(s, m);
                let left = dup_bytes(slice_subrange(s, i, j));
                let right = dup_bytes(slice_subrange(s, m, e));
                return Some((left, s[k], right));
            }
        }
    }
    None
}

fn find_binop_exec(s: &[u8]) -> (r: Option<(Vec<u8>, u8, Vec<u8>)>)
    ensures
        match r {
            Some(t) => find_binop(s@) == Some((t.0@, t.1, t.2@)),
            None => find_binop(s@) is None,
        },
{
    let mut i: usize = 0;
    while i < s.len()
        invariant
            i <= s@.len(),
            find_from(s@, 0) == find_from(s@, i as int),
        decreases s@.len() - i,
    {
        let m = match_at_exec(s, i);
        if m.is_some() {
            return m;
        }
        i = i + 1;
    }
    None
}

/// What an operand token denotes: the current value of the cell so named,
/// else the numeric literal it spells, else an error value naming the token.
pub open spec fn spec_operand(m: Map<Seq<u8>, CellVal>, tok: Seq<u8>) -> CellVal {
    if m.contains_key(tok) {
        m[tok]
    } else {
        match spec_parse_literal(tok) {
            Some(bits) => CellVal::Number(bits),
            None => CellVal::Error(msg_invalid_operand(tok)),
        }
    }
}

pub open spec fn msg_invalid_add() -> Seq<u8> {
    "Invalid operands for addition".spec_bytes()
}

pub open spec fn msg_invalid_sub() -> Seq<u8> {
    "Invalid operands for subtraction".spec_bytes()
}

pub open spec fn msg_invalid_mul() -> Seq<u8> {
    "Invalid operands for multiplication".spec_bytes()
}

pub open spec fn msg_invalid_div() -> Seq<u8> {
    "Invalid operands for division".spec_bytes()
}

pub open spec fn msg_invalid_operator() -> Seq<u8> {
    "Invalid operator".spec_bytes()
}

pub open spec fn spec_add(l: CellVal, r: CellVal) -> CellVal {
    match (l, r) {
        (CellVal::Number(a), CellVal::Number(b)) => CellVal::Number(add_num(a, b)),
        _ => CellVal::Error(msg_invalid_add()),
    }
}

pub open spec fn spec_sub(l: CellVal, r: CellVal) -> CellVal {
    match (l, r) {
        (CellVal::Number(a), CellVal::Number(b)) => CellVal::Number(sub_num(a, b)),
        _ => CellVal::Error(msg_invalid_sub()),
    }
}

pub open spec fn spec_mul(l: CellVal, r: CellVal) -> CellVal {
    match (l, r) {
        (CellVal::Number(a), CellVal::Number(b)) => CellVal::Number(mul_num(a, b)),
        _ => CellVal::Error(msg_invalid_mul()),
    }
}

/// Division guards a zero right operand before dividing, so that no quotient
/// of a finite value by zero is ever produced.
pub open spec fn spec_div(l: CellVal, r: CellVal) -> CellVal {
    match (l, r) {
        (CellVal::Number(a), CellVal::Number(b)) => if is_zero_bits(b) {
            CellVal::Error(msg_division_by_zero())
        } else {
            CellVal::Number(div_num(a, b))
        },
        _ => CellVal::Error(msg_invalid_div()),
    }
}

pub open spec fn spec_apply(op: u8, l: CellVal, r: CellVal) -> CellVal {
    if op == OP_ADD {
        spec_add(l, r)
    } else if op == OP_SUB {
        spec_sub(l, r)
    } else if op == OP_MUL {
        spec_mul(l, r)
    } else if op == OP_DIV {
        spec_div(l, r)
    } else {
        CellVal::Error(msg_invalid_operator())
    }
}

/// What an expression evaluates to against the store contents `m`: a bare
/// numeric literal denotes its own value; otherwise the leftmost single
/// binary operation is applied to its resolved operands; otherwise the
/// expression is unsupported.
pub open spec fn spec_run(m: Map<Seq<u8>, CellVal>, expr: Seq<u8>) -> CellVal {
    match spec_parse_literal(expr) {
        Some(bits) => CellVal::Number(bits),
        None => match find_binop(expr) {
            Some(t) => spec_apply(t.1, spec_operand(m, t.0), spec_operand(m, t.2)),
            None => CellVal::Error(msg_unsupported(expr)),
        },
    }
}

/// Evaluates expressions against a snapshot of the store.
pub struct CommandRunner<'a> {
    values: &'a CellStore,
}

impl<'a> CommandRunner<'a> {
    /// The store contents the runner reads.
    pub closed spec fn store(&self) -> Map<Seq<u8>, CellVal> {
        self.values@
    }

    pub fn new(values: &'a CellStore) -> (r: CommandRunner<'a>)
        ensures
            r.store() == values@,
    {
        CommandRunner { values }
    }

    fn eval_operand(&self, operand: &[u8]) -> (r: CellValue)
        ensures
            r@ == spec_operand(self.store(), operand@),
    {
        match self.values.get(operand) {
            Some(v) => v.dup(),
            None => match parse_literal(operand) {
                Some(bits) => CellValue::Number(bits),
                None => CellValue::Error(msg_invalid_operand_bytes(operand)),
            },
        }
    }

    fn add(&self, lhs: CellValue, rhs: CellValue) -> (r: CellValue)
        ensures
            r@ == spec_add(lhs@, rhs@),
    {
        match (lhs, rhs) {
            (CellValue::Number(a), CellValue::Number(b)) => CellValue::Number(add_numbers(a, b)),
            _ => CellValue::Error("Invalid operands for addition".as_bytes_vec()),
        }
    }

    fn sub(&self, lhs: CellValue, rhs: CellValue) -> (r: CellValue)
        ensures
            r@ == spec_sub(lhs@, rhs@),
    {
        match (lhs, rhs) {
            (CellValue::Number(a), CellValue::Number(b)) => CellValue::Number(sub_numbers(a, b)),
            _ => CellValue::Error("Invalid operands for subtraction".as_bytes_vec()),
        }
    }

    fn mul(&self, lhs: CellValue, rhs: CellValue) -> (r: CellValue)
        ensures
            r@ == spec_mul(lhs@, rhs@),
    {
        match (lhs, rhs) {
            (CellValue::Number(a), CellValue::Number(b)) => CellValue::Number(mul_numbers(a, b)),
            _ => CellValue::Error("Invalid operands for multiplication".as_bytes_vec()),
        }
    }

    fn div(&self, lhs: CellValue, rhs: CellValue) -> (r: CellValue)
        ensures
            r@ == spec_div(lhs@, rhs@),
    {
        match (lhs, rhs) {
            (CellValue::Number(a), CellValue::Number(b)) => if num_is_zero(b) {
                CellValue::Error(msg_division_by_zero_bytes())
            } else {
                CellValue::Number(div_numbers(a, b))
            },
            _ => CellValue::Error("Invalid operands for division".as_bytes_vec()),
        }
    }

    /// Evaluates one expression: a bare numeric literal, or the leftmost
    /// single binary operation over cell or literal operands.
    pub fn run(&self, expr: &[u8]) -> (r: CellValue)
        ensures
            r@ == spec_run(self.store(), expr@),
    {
        match parse_literal(expr) {
            Some(bits) => CellValue::Number(bits),
            None => match find_binop_exec(expr) {
                Some(t) => {
                    let left = self.eval_operand(t.0.as_slice());
                    let right = self.eval_operand(t.2.as_slice());
                    let op = t.1;
                    if op == OP_ADD {
                        self.add(left, right)
                    } else if op == OP_SUB {
                        self.sub(left, right)
                    } else if op == OP_MUL {
                        self.mul(left, right)
                    } else if op == OP_DIV {
                        self.div(left, right)
                    } else {
                        CellValue::Error("Invalid operator".as_bytes_vec())
                    }
                },
                None => CellValue::Error(msg_unsupported_bytes(expr)),
            },
        }
    }
}

} // verus!
