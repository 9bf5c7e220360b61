pub mod ast_traverser;
pub mod prf_traverser;
pub mod vc_traverser;

pub use ast_traverser::ASTTraverser;
pub use prf_traverser::ProofTraverser;
pub use vc_traverser::VCTraverser;
