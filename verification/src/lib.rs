pub mod ast;
pub mod text;
pub mod tokenizer;
pub mod parser;
pub mod render;
pub mod round_trip;

pub use ast::{Expr, ExprModel, ParseError, ParseErrorModel};
pub use parser::parse_expression;
pub use tokenizer::tokenize;
