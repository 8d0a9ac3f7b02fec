//! Compiles a compact inline markup (`%r:`, `%b^`, `%__`, ...) into ANSI
//! terminal styling sequences, with every function verified by Verus.

pub mod styling;
