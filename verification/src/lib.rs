//! Vizsink: a line-oriented language for drawing on a canvas.
//!
//! A line such as `draw circle x=1 y=2 r=3` is split into [`tokens`], read by
//! the [`parser`] into the syntax tree of [`ast`], and turned by the
//! [`generator`] into canvas commands. [`color`] reads hex color codes and
//! [`dsl`] reads a simpler, space-separated format. Numbers are kept as the
//! decimal literals that were written ([`numbers`]).
pub mod ast;
pub mod color;
pub mod dsl;
pub mod generator;
pub mod numbers;
pub mod params;
pub mod parser;
pub mod text;
pub mod tokens;
