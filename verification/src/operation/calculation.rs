//! The computing implementation of the operation set: plain 32-bit
//! arithmetic on the spot.

use crate::operation::{Context, Operation};
use vstd::prelude::*;

verus! {

pub struct COperation {}

impl Operation for COperation {
    fn constant(&self, v: u64) -> (r: Context) {
        Context::temp(#[verifier::truncate] (v as u32))
    }

    fn public(&self, name: String, v: u64) -> (r: Context) {
        Context::var(name, #[verifier::truncate] (v as u32))
    }

    fn private(&self, name: String, v: u64) -> (r: Context) {
        Context::var(name, #[verifier::truncate] (v as u32))
    }

    fn add(&self, a: Context, b: Context) -> (r: Context) {
        Context::temp(a.v[0] + b.v[0])
    }

    fn sub(&self, a: Context, b: Context) -> (r: Context) {
        Context::temp(a.v[0] - b.v[0])
    }

    fn mul(&self, a: Context, b: Context) -> (r: Context) {
        Context::temp(a.v[0] * b.v[0])
    }

    fn div(&self, a: Context, b: Context) -> (r: Context) {
        Context::temp(a.v[0] / b.v[0])
    }
}

} // verus!
