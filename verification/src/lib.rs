//! Checks for environment-variable definition files (`KEY=VALUE`, one per line).
//!
//! The library models a line of such a file, the key it defines, and the
//! warnings that a check may raise about it. Every function is verified
//! against a mathematical model of the text it works on.

pub mod checks;
pub mod common;
pub mod text;
