pub mod ast;
pub mod doctype;
pub mod error;
pub mod parser;
pub mod type_enum;
