//! Escape-time membership and boundary-distance estimation for the
//! Mandelbrot and Julia sets.
//!
//! The iteration engine and the distance estimator are written once,
//! generically, over the [`backend::BasicFloat`] arithmetic contract, and
//! verified against the exact recurrence their contracts state.  A
//! saturating integer backend implemented and verified here instantiates
//! them; fixed-width and arbitrary-precision floating backends are
//! supplied by the embedding program, which implements the same
//! executable operations.  Argument handling is verified too: the
//! precision selector and the numeric-literal grammar each carry an
//! exact acceptance contract.

pub mod backend;
pub mod engine;
pub mod literal;
pub mod estimator;
pub mod prec;
pub mod sat64;

pub use backend::BasicFloat;
pub use engine::{m_iter_f, build_params, MandelParams};
pub use estimator::distance;
pub use literal::{parse_float, LiteralKind, LiteralError};
pub use prec::{parse_prec, Precision, ParsePrecError};
pub use sat64::SatI64;
