//! A compiled function: a name and the deferred computation of its result.

use crate::operation::{lazy_ok, lazy_val, Context, LazyOp, Operation};
use vstd::prelude::*;

verus! {

pub struct Func {
    pub name: String,
    pub ret: LazyOp,
}

impl Func {
    pub(crate) fn new(name: String, ret: LazyOp) -> (r: Func)
        ensures
            r.name@ == name@,
            r.ret == ret,
    {
        Func { name, ret }
    }

    /// Evaluate the function's result against an operation set.
    pub fn apply<O: Operation>(&self, op: &O) -> (r: Context)
        requires
            lazy_ok(self.ret.func),
        ensures
            r.v@ =~= seq![lazy_val(self.ret.func) as u32],
    {
        crate::utils::Runner::new(crate::operation::clone_lazy(&self.ret.func)).run(op)
    }
}

} // verus!
