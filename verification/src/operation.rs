//! Deferred arithmetic over an abstract operation set: expression trees
//! built by the compiler and evaluated later against a concrete
//! implementation.

pub mod calculation;

use crate::operation::calculation::COperation;
use crate::parser::ast::clone_string;
use crate::utils::Runner;
use vstd::prelude::*;

verus! {

/// A deferred operation tree: leaves carry constants and named inputs,
/// inner nodes the four arithmetic operators.
pub enum LazyFn {
    Constant(u64),
    Private(String, u64),
    Public(String, u64),
    Add(Box<LazyFn>, Box<LazyFn>),
    Sub(Box<LazyFn>, Box<LazyFn>),
    Mul(Box<LazyFn>, Box<LazyFn>),
    Div(Box<LazyFn>, Box<LazyFn>),
}

/// The value a tree evaluates to; leaves truncate to 32 bits.
pub open spec fn lazy_val(f: LazyFn) -> int
    decreases f,
{
    match f {
        LazyFn::Constant(v) => (v as u32) as int,
        LazyFn::Private(_, v) => (v as u32) as int,
        LazyFn::Public(_, v) => (v as u32) as int,
        LazyFn::Add(a, b) => lazy_val(*a) + lazy_val(*b),
        LazyFn::Sub(a, b) => lazy_val(*a) - lazy_val(*b),
        LazyFn::Mul(a, b) => lazy_val(*a) * lazy_val(*b),
        LazyFn::Div(a, b) => if lazy_val(*b) != 0 {
            lazy_val(*a) / lazy_val(*b)
        } else {
            0
        },
    }
}

/// The tree evaluates without overflow, underflow or division by zero.
pub open spec fn lazy_ok(f: LazyFn) -> bool
    decreases f,
{
    match f {
        LazyFn::Constant(_) => true,
        LazyFn::Private(_, _) => true,
        LazyFn::Public(_, _) => true,
        LazyFn::Add(a, b) => lazy_ok(*a) && lazy_ok(*b) && lazy_val(*a) + lazy_val(*b)
            <= u32::MAX,
        LazyFn::Sub(a, b) => lazy_ok(*a) && lazy_ok(*b) && lazy_val(*b) <= lazy_val(*a),
        LazyFn::Mul(a, b) => lazy_ok(*a) && lazy_ok(*b) && lazy_val(*a) * lazy_val(*b)
            <= u32::MAX,
        LazyFn::Div(a, b) => lazy_ok(*a) && lazy_ok(*b) && lazy_val(*b) != 0,
    }
}

/// A tree that evaluates cleanly yields a 32-bit value.
pub proof fn lemma_lazy_val_bounds(f: LazyFn)
    requires
        lazy_ok(f),
    ensures
        0 <= lazy_val(f) <= u32::MAX,
    decreases f,
{
    match f {
        LazyFn::Constant(_) => {},
        LazyFn::Private(_, _) => {},
        LazyFn::Public(_, _) => {},
        LazyFn::Add(a, b) => {
            lemma_lazy_val_bounds(*a);
            lemma_lazy_val_bounds(*b);
        },
        LazyFn::Sub(a, b) => {
            lemma_lazy_val_bounds(*a);
            lemma_lazy_val_bounds(*b);
        },
        LazyFn::Mul(a, b) => {
            lemma_lazy_val_bounds(*a);
            lemma_lazy_val_bounds(*b);
            assert(lazy_val(*a) * lazy_val(*b) >= 0) by (nonlinear_arith)
                requires
                    lazy_val(*a) >= 0,
                    lazy_val(*b) >= 0,
            ;
        },
        LazyFn::Div(a, b) => {
            lemma_lazy_val_bounds(*a);
            lemma_lazy_val_bounds(*b);
            assert(lazy_val(*a) / lazy_val(*b) >= 0 && lazy_val(*a) / lazy_val(*b) <= lazy_val(*a))
                by (nonlinear_arith)
                requires
                    lazy_val(*a) >= 0,
                    lazy_val(*b) >= 1,
            ;
        },
    }
}

/// A structurally equal copy of a tree.
pub fn clone_lazy(f: &LazyFn) -> (r: LazyFn)
    ensures
        r == *f,
    decreases *f,
{
    match f {
        LazyFn::Constant(v) => LazyFn::Constant(*v),
        LazyFn::Private(name, v) => LazyFn::Private(clone_string(name), *v),
        LazyFn::Public(name, v) => LazyFn::Public(clone_string(name), *v),
        LazyFn::Add(a, b) => LazyFn::Add(Box::new(clone_lazy(a)), Box::new(clone_lazy(b))),
        LazyFn::Sub(a, b) => LazyFn::Sub(Box::new(clone_lazy(a)), Box::new(clone_lazy(b))),
        LazyFn::Mul(a, b) => LazyFn::Mul(Box::new(clone_lazy(a)), Box::new(clone_lazy(b))),
        LazyFn::Div(a, b) => LazyFn::Div(Box::new(clone_lazy(a)), Box::new(clone_lazy(b))),
    }
}

/// The abstract operation set a deferred tree is evaluated against.
pub trait Operation: Sized {
    fn constant(&self, v: u64) -> (r: Context)
        ensures
            r.name is None,
            r.v@ =~= seq![v as u32],
    ;

    fn public(&self, name: String, v: u64) -> (r: Context)
        ensures
            r.name matches Some(n) && n@ == name@,
            r.v@ =~= seq![v as u32],
    ;

    fn private(&self, name: String, v: u64) -> (r: Context)
        ensures
            r.name matches Some(n) && n@ == name@,
            r.v@ =~= seq![v as u32],
    ;

    fn add(&self, a: Context, b: Context) -> (r: Context)
        requires
            a.v@.len() == 1,
            b.v@.len() == 1,
            a.v@[0] + b.v@[0] <= u32::MAX,
        ensures
            r.v@ =~= seq![(a.v@[0] + b.v@[0]) as u32],
    ;

    fn sub(&self, a: Context, b: Context) -> (r: Context)
        requires
            a.v@.len() == 1,
            b.v@.len() == 1,
            b.v@[0] <= a.v@[0],
        ensures
            r.v@ =~= seq![(a.v@[0] - b.v@[0]) as u32],
    ;

    fn mul(&self, a: Context, b: Context) -> (r: Context)
        requires
            a.v@.len() == 1,
            b.v@.len() == 1,
            a.v@[0] * b.v@[0] <= u32::MAX,
        ensures
            r.v@ =~= seq![(a.v@[0] * b.v@[0]) as u32],
    ;

    fn div(&self, a: Context, b: Context) -> (r: Context)
        requires
            a.v@.len() == 1,
            b.v@.len() == 1,
            b.v@[0] != 0,
        ensures
            r.v@ =~= seq![(a.v@[0] / b.v@[0]) as u32],
    ;
}

/// The plain computing implementation of the operation set.
pub fn calc_operation() -> (r: COperation) {
    COperation {  }
}

pub(crate) type LazyOp = Runner;

pub fn lazy_constant(a: u64) -> (r: LazyOp)
    ensures
        r.func == LazyFn::Constant(a),
{
    Runner::new(LazyFn::Constant(a))
}

pub fn lazy_private(name: String, a: u64) -> (r: LazyOp)
    ensures
        r.func == LazyFn::Private(name, a),
{
    Runner::new(LazyFn::Private(name, a))
}

pub fn lazy_public(name: String, a: u64) -> (r: LazyOp)
    ensures
        r.func == LazyFn::Public(name, a),
{
    Runner::new(LazyFn::Public(name, a))
}

pub fn lazy_add(a: LazyOp, b: LazyOp) -> (r: LazyOp)
    ensures
        r.func matches LazyFn::Add(x, y) && *x == a.func && *y == b.func,
{
    Runner::new(LazyFn::Add(Box::new(a.func), Box::new(b.func)))
}

pub fn lazy_sub(a: LazyOp, b: LazyOp) -> (r: LazyOp)
    ensures
        r.func matches LazyFn::Sub(x, y) && *x == a.func && *y == b.func,
{
    Runner::new(LazyFn::Sub(Box::new(a.func), Box::new(b.func)))
}

pub fn lazy_mul(a: LazyOp, b: LazyOp) -> (r: LazyOp)
    ensures
        r.func matches LazyFn::Mul(x, y) && *x == a.func && *y == b.func,
{
    Runner::new(LazyFn::Mul(Box::new(a.func), Box::new(b.func)))
}

pub fn lazy_div(a: LazyOp, b: LazyOp) -> (r: LazyOp)
    ensures
        r.func matches LazyFn::Div(x, y) && *x == a.func && *y == b.func,
{
    Runner::new(LazyFn::Div(Box::new(a.func), Box::new(b.func)))
}

/// A variable binding for deferred evaluation: an optional name and the
/// value words behind it.
pub struct Context {
    pub name: Option<String>,
    pub v: Vec<u32>,
}

impl Context {
    /// A named value.
    pub fn var(name: String, v: u32) -> (r: Context)
        ensures
            r.name matches Some(n) && n == name,
            r.v@ =~= seq![v],
    {
        Context { name: Some(name), v: vec![v] }
    }

    /// An unnamed intermediate value.
    pub fn temp(v: u32) -> (r: Context)
        ensures
            r.name is None,
            r.v@ =~= seq![v],
    {
        Context { name: None, v: vec![v] }
    }

    /// A copy with the same name and values.
    pub fn capture(&self) -> (r: Context)
        ensures
            r.v@ == self.v@,
            r.name is Some <==> self.name is Some,
            r.name matches Some(n) ==> n@ == self.name->0@,
    {
        let name = match &self.name {
            Some(n) => Some(clone_string(n)),
            None => None,
        };
        let v = self.v.clone();
        proof {
            assert(v@ =~= self.v@);
        }
        Context { name, v }
    }

    /// Surrender the value words.
    pub fn finalize(self) -> (r: Vec<u32>)
        ensures
            r@ == self.v@,
    {
        self.v
    }
}

} // verus!
