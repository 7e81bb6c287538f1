//! A two-stage toolchain for a 16-bit stack machine: an assembler that turns
//! symbolic assembly into 16-bit binary words, and a translator that lowers
//! stack-machine commands into that assembly.

pub mod text;
pub mod errors;
pub mod symbol_table;
pub mod parser;
pub mod code;
pub mod assembler;
pub mod code_writer;
pub mod vm_parser;
