//! A minimal networked key/value cell store with arithmetic expression
//! evaluation, verified end to end: the length-prefixed frame codec, the
//! cell store with its command dispatcher, and the expression evaluator
//! that resolves cell references and single binary operations.
//!
//! Numbers are carried as the bit patterns of IEEE-754 binary64 values;
//! the arithmetic itself is performed by `rustc_apfloat` behind trusted
//! wrappers, and everything around it is proved. Command and reply text is
//! carried as bytes, exactly as it travels on the wire.

pub mod codec;
pub mod command;
pub mod eval;
pub mod numbers;
pub mod store;
pub mod values;

use vstd::prelude::*;

pub use command::RSheet;
pub use eval::CommandRunner;
pub use store::CellStore;
pub use values::{CellValue, Message, Reply};

verus! {

/// A named endpoint that the listener binds to.
pub trait Manager {
    /// The address the manager names.
    spec fn spec_address(&self) -> Seq<char>;

    fn address(&self) -> (r: &str)
        ensures
            r@ == self.spec_address(),
    ;
}

/// Manager for a plain TCP endpoint, identified by its address string.
pub struct TcpManager {
    address: String,
}

impl View for TcpManager {
    type V = Seq<char>;

    closed spec fn view(&self) -> Seq<char> {
        self.address@
    }
}

impl TcpManager {
    pub fn new(address: String) -> (r: TcpManager)
        ensures
            r@ == address@,
    {
        TcpManager { address }
    }
}

impl Manager for TcpManager {
    open spec fn spec_address(&self) -> Seq<char> {
        self@
    }

    fn address(&self) -> (r: &str)
        ensures
            r@ == self.spec_address(),
    {
        self.address.as_str()
    }
}

} // verus!
