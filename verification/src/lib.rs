//! Arithmetic over quantities of digital storage, such as `1 + 2 KiB + 3 MiB`.
//!
//! An expression is read in three steps, each with its own module under
//! [`interpreter`]: the lexer turns bytes into tokens, the parser turns tokens into a
//! tree, and the evaluator turns the tree into a value with a unit. Every step is a
//! function of its input alone, and each is specified by a function on sequences of
//! bytes or tokens that the executable code is proved to compute.
//!
//! A value's magnitude is a number in double precision. The library settles which
//! arithmetic makes up the magnitude and in which unit it counts, and leaves the
//! arithmetic itself to the caller: see [`interpreter::value::Magnitude`].

pub mod format;
pub mod interpreter;
pub mod unit_prefix;
