//! An interpreter for small two-symbol tape machines and the puzzle levels
//! they are run against.
//!
//! A program is a list of cards; a card holds one instruction for each of
//! the two symbols that the head can read. A level is a list of test cases,
//! each an initial tape and, optionally, a target that the halted machine
//! has to meet. `machine` says what a step is, once and for all; `engine`
//! and `execution` carry it out on stored tapes; `program_dto` and
//! `level_dto` are the written forms of programs and levels; `programs` and
//! `levels` are the catalogues that come with the interpreter; `render` and
//! `command` compute what the command line shows.

pub mod command;
pub mod engine;
pub mod execution;
pub mod level;
pub mod level_dto;
pub mod levels;
pub mod machine;
pub mod outcome;
pub mod program;
pub mod program_dto;
pub mod programs;
pub mod render;
pub mod tape;
pub mod text;
