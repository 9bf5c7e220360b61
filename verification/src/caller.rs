pub mod contract;
pub mod function;

pub use contract::Contract;
pub use function::Func;
