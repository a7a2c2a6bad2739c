//! A minimal runtime for resumable computations with algebraic effects.
//!
//! Computations are explicit data (a defunctionalized suspension protocol)
//! driven by a trampoline. A computation may yield plain values, delegate to
//! an inner computation, or perform a typed effect that an installed handler
//! intercepts and answers; the handler either resumes the suspended
//! computation with a value of the effect's declared output type or aborts
//! the whole run with an immediate result.

pub mod cell;
pub mod examples;
pub mod fib;
pub mod interp;
pub mod laws;
pub mod effect;
pub mod runtime;
pub mod value;
