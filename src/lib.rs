pub mod atom;
pub mod ast;
pub mod bytecode_gen;
pub mod scope;
pub mod builtin;
pub mod interpreter;
pub mod util;
