//! Verified core of a suite of deterministic micro-benchmark programs.
//!
//! Each benchmark parses numeric size parameters, fills its working data from
//! a fixed-seed pseudo-random generator, runs one arithmetic kernel inside a
//! pair of clock readings, and prints a single `key=value` result line whose
//! checksum field keeps the kernel observable. The integer parts of that
//! convention — the generator, the wrapping Fibonacci kernel, the sort kernel
//! with its XOR checksum, argument parsing, decimal rendering of the result
//! line, and the timing arithmetic — live here with full contracts. The
//! floating-point kernels cannot be verified and stay with the drivers.

pub mod fib;
pub mod parse;
pub mod render;
pub mod rng;
pub mod sorting;
pub mod timing;
