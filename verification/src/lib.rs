//! A fixed-size pool of workers that execute one-shot jobs.
//!
//! The pool routes each submitted job to the lowest-numbered worker whose
//! busy flag reads idle, refuses the submission when every worker is busy,
//! and tears down by draining every routed job before any worker retires.
//! The `pool` module carries the dispatch and lifecycle state machine with
//! its contracts; running the workers on real threads, and feeding the pool
//! from a network listener, is left to the surrounding program.

pub mod pool;
