//! Translation of programs for a stack machine into assembly for a 16-bit
//! machine with two registers.
//!
//! A source text is read command by command ([`parser`]), and every command
//! is handed by the dispatcher ([`writer`]) to an emitter, which appends the
//! assembly for it to a listing ([`listing`]). Two emitters exist behind one
//! interface ([`emit`]): one that keeps its code easy to read
//! ([`simple_emitter`]) and one that keeps it small ([`compact_emitter`]).
//! [`transform`] puts the pieces together for a whole text.
//!
//! What the emitted code does is not left to trust. [`machine`] is a model
//! of the target machine and [`assembler`] says how a listing becomes a
//! program in its memory. [`vm`] tells what each command of the stack
//! machine means and [`frames`] what the calling convention is. The modules
//! of laws then state, for each command, what the machine has done when it
//! has run the command's code: [`code_laws`] for the code that both
//! emitters share, [`simple_laws`] and [`simple_calls`], [`compact_laws`]
//! and [`compact_calls`] for each emitter's own. [`implements`] sums them
//! up: both emitters implement the stack machine. [`laws`] holds the laws
//! of whole translations, and [`labels`] and [`symbols`] those of the
//! labels that the translator makes up.

pub mod assembler;
pub mod assembly;
pub mod chars;
pub mod code;
pub mod code_laws;
pub mod compact_calls;
pub mod compact_emitter;
pub mod compact_laws;
pub mod emit;
pub mod frames;
pub mod implements;
pub mod labels;
pub mod laws;
pub mod listing;
pub mod machine;
pub mod parser;
pub mod scanner;
pub mod simple_calls;
pub mod simple_emitter;
pub mod simple_laws;
pub mod symbols;
pub mod transform;
pub mod vm;
pub mod writer;
