//! Ktnack: a small stack language with an interpreter and a compiler to
//! x86-64 assembly.
//!
//! A source text goes through the scanner, the classifier, the macro
//! preprocessor and the parser ([`src`], [`strings`]) and comes out as a
//! program of the intermediate representation ([`ltypes`]), stored in
//! reverse: the instruction with the instruction pointer `p` stands at
//! the index `len - 1 - p`. The interpreter ([`runtime`], [`stack`])
//! runs a program; the code generator ([`compile`], [`asmfile`]) writes
//! it as NASM text and plans the build of the executable. [`args`] and [`cmds`] read the command
//! line. [`rescan`] and [`landing`] hold laws of the scanner and the
//! parser.
//!
//! The library reads no file, starts no tool and prints nothing: it
//! takes texts and hands back texts, programs and plans.

pub mod args;
pub mod asmfile;
pub mod base;
pub mod cmds;
pub mod compile;
pub mod landing;
pub mod ltypes;
pub mod rescan;
pub mod runtime;
pub mod src;
pub mod stack;
pub mod strings;
pub mod text;
