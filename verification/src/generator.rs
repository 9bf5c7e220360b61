//! The interface a textual code generator implements.

use crate::variable::Variable;
use vstd::prelude::*;

verus! {

pub trait Generator {
    fn generate(&self, var: Variable) -> String;
}

} // verus!
