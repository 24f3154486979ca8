//! Safe, verified logic around a coordinate transformation library: the
//! structure of definition strings, the kinds of coordinates that pipeline
//! steps read and write, the inversion of pipelines, and how the outcome of
//! each call on an engine is decided.
pub mod definition;
pub mod direction;
pub mod error;
pub mod outcome;
pub mod pipeline;

pub use direction::Direction;
pub use error::ProjError;
pub use pipeline::{DefinitionError, Pipeline};
