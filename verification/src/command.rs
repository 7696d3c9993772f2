use vstd::prelude::*;
use vstd::string::StrSliceExecFns;
use vstd::string::StringSliceAdditionalSpecFns;

use crate::eval::{is_ws_byte, spec_run, ws_byte, CommandRunner};
use crate::numbers::spec_parse_literal;
use crate::store::{bytes_eq, CellStore};
use crate::values::{dup_bytes, msg_cell_not_found, msg_cell_not_found_bytes, msg_invalid_format,
    msg_invalid_format_bytes, CellVal, CellValue, Message, MsgVal, Reply, ReplyVal};

verus! {

/// The views of a sequence of byte vectors.
pub open spec fn views(vs: Seq<Vec<u8>>) -> Seq<Seq<u8>> {
    vs.map_values(|v: Vec<u8>| v@)
}

/// The tokens of `s` from position `i` on, given the partial token `cur`
/// and the tokens `acc` already read: tokens are maximal runs of
/// non-whitespace bytes.
pub open spec fn tokens_acc(s: Seq<u8>, i: int, cur: Seq<u8>, acc: Seq<Seq<u8>>) -> Seq<Seq<u8>>
    decreases s.len() - i when 0 <= i <= s.len()
{
    if i >= s.len() {
        if cur.len() > 0 {
            acc.push(cur)
        } else {
            acc
        }
    } else if is_ws_byte(s[i]) {
        if cur.len() > 0 {
            tokens_acc(s, i + 1, Seq::empty(), acc.push(cur))
        } else {
            tokens_acc(s, i + 1, cur, acc)
        }
    } else {
        tokens_acc(s, i + 1, cur.push(s[i]), acc)
    }
}

/// The whitespace-separated tokens of the command text.
pub open spec fn tokens_of(s: Seq<u8>) -> Seq<Seq<u8>> {
    tokens_acc(s, 0, Seq::empty(), Seq::empty())
}

/// Splits the command text on whitespace.
pub fn tokenize(s: &[u8]) -> (r: Vec<Vec<u8>>)
    ensures
        views(r@) == tokens_of(s@),
{
    let mut acc: Vec<Vec<u8>> = Vec::new();
    let mut cur: Vec<u8> = Vec::new();
    let mut i: usize = 0;
    proof {
        assert(views(acc@) =~= Seq::<Seq<u8>>::empty());
    }
    while i < s.len()
        invariant
            i <= s@.len(),
            tokens_of(s@) == tokens_acc(s@, i as int, cur@, views(acc@)),
        decreases s@.len() - i,
    {
        if ws_byte(s[i]) {
            if cur.len() > 0 {
                let ghost oldacc = acc@;
                let ghost oldcur = cur@;
                acc.push(cur);
                cur = Vec::new();
                proof {
                    assert(views(acc@) =~= views(oldacc).push(oldcur));
                }
            }
        } else {
            cur.push(s[i]);
        }
        i = i + 1;
    }
    if cur.len() > 0 {
        let ghost oldacc = acc@;
        let ghost oldcur = cur@;
        acc.push(cur);
        proof {
            assert(views(acc@) =~= views(oldacc).push(oldcur));
        }
    }
    acc
}

/// The effect of a `set`: the expression is evaluated against the current
/// contents; an evaluation error is returned and the store left unchanged,
/// any other value is bound to the cell.
pub open spec fn spec_set(m: Map<Seq<u8>, CellVal>, cell: Seq<u8>, expr: Seq<u8>) -> (Map<
    Seq<u8>,
    CellVal,
>, ReplyVal) {
    let v = spec_run(m, expr);
    match v {
        CellVal::Error(e) => (m, ReplyVal::Error(e)),
        _ => (m.insert(cell, v), ReplyVal::Okay),
    }
}

/// The reply to a `get`: the cell's value, or a value-shaped error naming
/// the missing cell.
pub open spec fn spec_get(m: Map<Seq<u8>, CellVal>, cell: Seq<u8>) -> ReplyVal {
    ReplyVal::Value(
        if m.contains_key(cell) {
            m[cell]
        } else {
            CellVal::Error(msg_cell_not_found(cell))
        },
    )
}

/// The store after one command, and the reply to it. A `set` needs exactly
/// three tokens and a `get` exactly two; any other shape is refused and
/// leaves the store unchanged.
pub open spec fn spec_handle(m: Map<Seq<u8>, CellVal>, cmd: Seq<u8>) -> (Map<Seq<u8>, CellVal>,
    ReplyVal,
) {
    let ts = tokens_of(cmd);
    if ts.len() == 3 && ts[0] == "set".spec_bytes() {
        spec_set(m, ts[1], ts[2])
    } else if ts.len() == 2 && ts[0] == "get".spec_bytes() {
        (m, spec_get(m, ts[1]))
    } else {
        (m, ReplyVal::Error(msg_invalid_format()))
    }
}

/// For every numeric literal: a `set` of a cell to the literal succeeds and
/// stores its value, and a `get` of the same cell then returns exactly that
/// value.
pub proof fn lemma_set_literal_then_get(
    m: Map<Seq<u8>, CellVal>,
    set_cmd: Seq<u8>,
    get_cmd: Seq<u8>,
    bits: u64,
)
    requires
        tokens_of(set_cmd).len() == 3,
        tokens_of(set_cmd)[0] == "set".spec_bytes(),
        spec_parse_literal(tokens_of(set_cmd)[2]) == Some(bits),
        tokens_of(get_cmd) == seq!["get".spec_bytes(), tokens_of(set_cmd)[1]],
    ensures
        spec_handle(m, set_cmd).1 == ReplyVal::Okay,
        spec_handle(spec_handle(m, set_cmd).0, get_cmd).1 == ReplyVal::Value(
            CellVal::Number(bits),
        ),
{
}

/// A `set` whose expression evaluates to an error reports that error and
/// leaves the store exactly as it was: no cell is created or changed.
pub proof fn lemma_failed_set_changes_nothing(m: Map<Seq<u8>, CellVal>, cmd: Seq<u8>)
    requires
        tokens_of(cmd).len() == 3,
        tokens_of(cmd)[0] == "set".spec_bytes(),
        spec_run(m, tokens_of(cmd)[2]) is Error,
    ensures
        spec_handle(m, cmd).0 == m,
        spec_handle(m, cmd).1 == ReplyVal::Error(spec_run(m, tokens_of(cmd)[2])->Error_0),
{
}

/// No command loses a committed binding of another cell: whatever `cmd` is,
/// a cell it does not name as the target of a well-formed `set` keeps its
/// value. Interleaved commands against distinct cells therefore never
/// overwrite one another's results, in whatever order they run.
pub proof fn lemma_other_cells_kept(m: Map<Seq<u8>, CellVal>, cmd: Seq<u8>, k: Seq<u8>)
    requires
        m.contains_key(k),
        !(tokens_of(cmd).len() == 3 && tokens_of(cmd)[0] == "set".spec_bytes() && tokens_of(cmd)[1]
            == k),
    ensures
        spec_handle(m, cmd).0.contains_key(k),
        spec_handle(m, cmd).0[k] == m[k],
{
}

/// The shared cell store with its command dispatcher.
pub struct RSheet {
    cells: CellStore,
}

impl View for RSheet {
    type V = Map<Seq<u8>, CellVal>;

    closed spec fn view(&self) -> Map<Seq<u8>, CellVal> {
        self.cells@
    }
}

impl RSheet {
    /// A sheet with no cells bound.
    pub fn new() -> (r: RSheet)
        ensures
            r@ == Map::<Seq<u8>, CellVal>::empty(),
    {
        RSheet { cells: CellStore::new() }
    }

    fn get_cell(&self, cell: &[u8]) -> (r: Reply)
        ensures
            r@ == spec_get(self@, cell@),
    {
        match self.cells.get(cell) {
            Some(v) => Reply::Value(v.dup()),
            None => Reply::Value(CellValue::Error(msg_cell_not_found_bytes(cell))),
        }
    }

    fn set_cell(&mut self, cell: &[u8], expr: &[u8]) -> (r: Reply)
        ensures
            final(self)@ == spec_set(old(self)@, cell@, expr@).0,
            r@ == spec_set(old(self)@, cell@, expr@).1,
    {
        let result = CommandRunner::new(&self.cells).run(expr);
        match result {
            CellValue::Error(e) => Reply::Error(e),
            value => {
                let key = dup_bytes(cell);
                self.cells.insert(key, value);
                Reply::Okay
            },
        }
    }

    /// Runs one command against the store: `set <cell> <value-or-expression>`
    /// or `get <cell>`.
    pub fn handle_command(&mut self, command: &[u8]) -> (r: Reply)
        ensures
            final(self)@ == spec_handle(old(self)@, command@).0,
            r@ == spec_handle(old(self)@, command@).1,
    {
        let ts = tokenize(command);
        proof {
            assert forall|k: int| 0 <= k < ts@.len() implies views(ts@)[k] == ts@[k]@ by {}
        }
        if ts.len() == 3 && bytes_eq(ts[0].as_slice(), "set".as_bytes()) {
            self.set_cell(ts[1].as_slice(), ts[2].as_slice())
        } else if ts.len() == 2 && bytes_eq(ts[0].as_slice(), "get".as_bytes()) {
            self.get_cell(ts[1].as_slice())
        } else {
            Reply::Error(msg_invalid_format_bytes())
        }
    }

    /// One step of a session: a decoded `Command` is dispatched and its
    /// reply returned for writing back; any other message is a protocol
    /// violation, answered by `None` (the session terminates) with the
    /// store untouched.
    pub fn handle_message(&mut self, msg: Message) -> (r: Option<Reply>)
        ensures
            match msg@ {
                MsgVal::Command(c) => {
                    &&& final(self)@ == spec_handle(old(self)@, c).0
                    &&& r matches Some(rep) && rep@ == spec_handle(old(self)@, c).1
                },
                MsgVal::Reply(_) => r is None && final(self)@ == old(self)@,
            },
    {
        match msg {
            Message::Command(c) => Some(self.handle_command(c.as_slice())),
            Message::Reply(_) => None,
        }
    }
}

} // verus!
