//! The base value types of the protocol.

use std::collections::HashMap;
use vstd::prelude::*;

verus! {

pub type Integer = i32;

pub type UInteger = usize;

pub type Decimal = u64;

pub type LSPArray = Vec<LSPAny>;

pub type LSPObject = HashMap<String, LSPAny>;

/// Any value of the protocol but `null`.
#[derive(Debug)]
pub enum LSPAny {
    LSPObject(LSPObject),
    LSPArray(LSPArray),
    String(String),
    Integer(Integer),
    UInteger(UInteger),
    Decimal(Decimal),
    Boolean(bool),
}

} // verus!
