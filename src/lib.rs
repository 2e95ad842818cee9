//! A verified lexical scanner for the Lox scripting language.
//!
//! The scanner turns source text into an ordered sequence of tokens that
//! always ends in an end-of-input token. Every exec function is proved against
//! a mathematical model of the scan (`model`), stated as spec functions over
//! `Seq<char>`; `laws` proves what holds of every scan.

pub mod laws;
pub mod lox;
pub mod model;
pub mod scanner;
pub mod token;
