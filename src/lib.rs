pub mod ast;
pub mod byte_buffer;
pub mod cst;
pub mod encoding;
pub mod id;
pub mod native;
pub mod scope;
pub mod rst;
pub mod cst_parser;
pub mod compiler;
pub mod literal;
