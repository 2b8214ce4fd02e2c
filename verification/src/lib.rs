//! The tie language: values and the stepwise interpreter, the table and message
//! runtime, and the generator that turns an annotated program into LLVM IR text.
pub mod text;
pub mod ast;
pub mod dict;
pub mod value;
pub mod msg;
pub mod pattern;
pub mod table;
pub mod host;
pub mod builtins;
pub mod semantics;
pub mod interp;
pub mod irtext;
pub mod numbering;
pub mod emit;
pub mod frames;
pub mod calm;
pub mod module_text;
pub mod irtable;
pub mod lower;
pub mod ir;
pub mod paths;
pub mod http;
pub mod optimizer;
pub mod backend;
pub mod driver;
pub mod agreement;
pub mod args;
pub mod laws;
pub mod operators;
pub mod provided;
pub mod llvm;
pub mod flow;
pub mod counting;
pub mod choices;
pub mod guards;
pub mod compiled;
pub mod stored;
pub mod emitted;
pub mod meaning;
pub mod builds;
pub mod places;
