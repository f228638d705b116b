//! A compiler and execution engine for a minimal eight-instruction
//! tape-machine language.
//!
//! The pipeline is: tokenization with positional tracking
//! ([`tokenize`]), multi-pass peephole optimization ([`optimize`]),
//! loop jump-target resolution ([`generate_jumping_map`]), and code
//! generation, either as portable textual source ([`c_translate`]) or
//! as native machine code in memory ([`codegen::compile`]).  An
//! interpreter ([`interpret`]) runs the same instruction stream
//! directly against a fixed 30000-cell tape.

pub mod balance;
pub mod clif;
pub mod codegen;
pub mod emit;
pub mod error;
pub mod interp;
pub mod jumps;
pub mod laws;
pub mod optimize;
pub mod semantics;
pub mod token;

pub use emit::c_translate;
pub use error::Error;
pub use interp::RunOutcome;
pub use interp::interpret;
pub use interp::interpret_fueled;
pub use jumps::generate_jumping_map;
pub use optimize::optimize;
pub use token::BracketState;
pub use token::CodePos;
pub use token::Token;
pub use token::TokenKind;
pub use token::tokenize;
