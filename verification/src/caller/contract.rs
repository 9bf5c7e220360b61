//! A compiled contract: a name and its functions.

use crate::caller::Func;
use crate::operation::{lazy_ok, lazy_val, Context, Operation};
use vstd::prelude::*;

verus! {

pub struct Contract {
    pub name: String,
    pub funcs: Vec<Func>,
}

impl Contract {
    pub(crate) fn new(name: String, funcs: Vec<Func>) -> (r: Contract)
        ensures
            r.name@ == name@,
            r.funcs@ == funcs@,
    {
        Contract { name, funcs }
    }

    /// Evaluate the contract's first function against an operation set.
    pub fn apply<O: Operation>(&self, op: &O) -> (r: Context)
        requires
            self.funcs@.len() > 0,
            lazy_ok(self.funcs@[0].ret.func),
        ensures
            r.v@ =~= seq![lazy_val(self.funcs@[0].ret.func) as u32],
    {
        self.funcs[0].apply(op)
    }
}

} // verus!
