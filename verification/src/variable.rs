//! Named variables bound to deferred operation trees.

use crate::operation::{clone_lazy, lazy_private, lazy_public, LazyFn, LazyOp};
use crate::parser::ast::clone_string;
use crate::utils::Runner;
use vstd::prelude::*;

verus! {

/// A variable: its source name and the deferred computation that yields its
/// value.
pub struct Variable {
    pub name: String,
    pub lazy: LazyOp,
}

impl Variable {
    /// A private (witness) input, initially zero.
    pub fn private(name: String) -> (r: Variable)
        ensures
            r.name@ == name@,
            r.lazy.func == LazyFn::Private(name, 0),
    {
        let n2 = clone_string(&name);
        Variable { name: n2, lazy: lazy_private(name, 0) }
    }

    /// A public input, initially zero.
    pub fn public(name: String) -> (r: Variable)
        ensures
            r.name@ == name@,
            r.lazy.func == LazyFn::Public(name, 0),
    {
        let n2 = clone_string(&name);
        Variable { name: n2, lazy: lazy_public(name, 0) }
    }

    /// An unnamed intermediate bound to a deferred computation.
    pub fn temp(lazy: LazyOp) -> (r: Variable)
        ensures
            r.name@ == Seq::<char>::empty(),
            r.lazy == lazy,
    {
        let r = Variable { name: String::new(), lazy };
        r
    }

    pub fn name(&self) -> (r: String)
        ensures
            r@ == self.name@,
    {
        clone_string(&self.name)
    }

    /// A copy with the same name and computation.
    pub fn capture(&self) -> (r: Variable)
        ensures
            r.name@ == self.name@,
            r.lazy.func == self.lazy.func,
    {
        Variable { name: clone_string(&self.name), lazy: Runner::new(clone_lazy(&self.lazy.func)) }
    }

    /// The deferred computation behind this variable.
    pub fn inject(&self) -> (r: LazyOp)
        ensures
            r.func == self.lazy.func,
    {
        Runner::new(clone_lazy(&self.lazy.func))
    }
}

} // verus!
