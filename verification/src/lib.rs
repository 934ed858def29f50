pub mod ast;
pub mod interpreter;
pub mod semantics;
pub mod value;
pub mod laws;
pub mod text;
pub mod pretty;
