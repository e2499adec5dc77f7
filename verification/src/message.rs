//! A message: where it goes, and what it carries.

use vstd::prelude::*;
use crate::arg::{ArgValue, OscArg};

verus! {

/// An address pattern and the arguments sent to it, in order.
///
/// The address is taken as it is given: nothing here checks that it begins
/// with `/` or is free of blanks.
#[derive(Clone, Debug, PartialEq, Eq)]
pub struct OscMessage {
    pub addr: String,
    pub args: Vec<OscArg>,
}

/// What a message holds, as a mathematical value.
pub struct MessageValue {
    pub addr: Seq<char>,
    pub args: Seq<ArgValue>,
}

impl View for OscMessage {
    type V = MessageValue;

    open spec fn view(&self) -> MessageValue {
        MessageValue { addr: self.addr@, args: self.args@.map_values(|a: OscArg| a@) }
    }
}

} // verus!
