//! An OpenTracing-style distributed-tracing API: spans, span contexts,
//! samplers, a tracer that hands finished spans to a channel, and carrier
//! interfaces for propagating span contexts across process boundaries.
use vstd::prelude::*;

pub use crate::error::{Error, ErrorKind};
pub use crate::tracer::Tracer;

mod clock;
mod error;
mod tracer;

pub mod carrier;
pub mod convert;
pub mod log;
pub mod order;
pub mod sampler;
pub mod span;
pub mod tag;

verus! {

/// This crate specific `Result` type.
pub type Result<T> = core::result::Result<T, Error>;

} // verus!
