//! Front end of an embedded graph database: expressions are compiled from text
//! into an operator tree and evaluated, and the records of a mutation statement
//! are matched against the schema of the tables they are written to.
pub mod arith;
pub mod climb;
pub mod error;
pub mod eval;
pub mod expr;
pub mod float;
pub mod lexer;
pub mod literal;
pub mod mutation;
pub mod op;
pub mod order;
pub mod parser;
pub mod schema;
pub mod table;
pub mod text;
pub mod token;
pub mod value;
