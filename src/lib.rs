//! A tree-walking evaluator for a small expression language of integers and
//! booleans, with its parser.
pub mod ast;
pub mod env;
pub mod errors;
pub mod grammar;
pub mod interpret;
pub mod laws;
pub mod parser;
pub mod text;

pub use ast::{BinaryOperator, Node, NodeModel};
pub use env::Env;
pub use errors::{Error, ErrorModel};
pub use interpret::{interpret, run, type_operator, Value};
pub use parser::{parse, parse_operator, run_source};
