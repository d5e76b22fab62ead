//! Compiler for the event script language: source text is read into a
//! `Script`, a table from section names to ordered instruction lists.
//!
//! `grammar` states the language as spec functions over the characters of
//! the source; `parser` reads it and is proved to read exactly that; `laws`
//! holds what follows for every source text.
pub mod lexer;
pub mod expr;
pub mod script;
pub mod grammar;
pub mod parser;
pub mod laws;
pub mod town;

pub use expr::Expr;
pub use parser::{
    end_line, instruction, jump_if_instruction, jump_instruction, parse, section_start,
    special_instruction, talk_instruction, talk_instruction_with_choices, PakCompileError,
};
pub use script::{Instruction, Script, SpecialInstruction};
