//! A small ahead-of-time compiler for a subset of C that targets x86-64
//! assembly. Every stage of the pipeline, from the token stream down to the
//! assembly text, is executable Rust with a verified contract. The laws of
//! the compiler as a whole are proved over the models of its stages: jumps
//! go to labels that are defined once, two compilations differ in the
//! numbers of the names alone, and the listing of a function without loops
//! and calls returns what the function computes.

pub mod error;
pub mod text;
pub mod views;
pub mod name_map;
pub mod name_generator;
pub mod renaming;
pub mod lexer;
pub mod parser;
pub mod validator;
pub mod tacky;
pub mod codegen;
pub mod semantics;
pub mod compiler;
