//! Uniform sampling of values from a range.
//!
//! A [`Uniform`] sampler is built once from a pair of bounds and can then be
//! asked for any number of values, each drawn from a caller-supplied [`Rng`].
//! The work is done by a back-end chosen by the type of the bounds:
//! [`UniformInt`] for the primitive integers and [`UniformDuration`] for
//! [`Duration`]. Further types join by implementing [`SampleUniform`] and
//! [`UniformSampler`].
//!
//! Every sample is proved to lie within the range it was asked from. The
//! module [`shares`] proves in addition how evenly the integer sampler deals
//! the raw words of its source out among the values of a range. The module
//! [`unit_interval`] holds the integer half of a sampler for floating-point
//! ranges.

pub mod duration;
pub mod integer;
pub mod rng;
pub mod sampler;
pub mod shares;
pub mod uniform_duration;
pub mod uniform_int;
pub mod unit_interval;
pub mod wmul;

pub use crate::duration::Duration;
pub use crate::integer::Integer;
pub use crate::rng::Rng;
pub use crate::sampler::{SampleBorrow, SampleUniform, Uniform, UniformSampler};
pub use crate::uniform_duration::UniformDuration;
pub use crate::uniform_int::UniformInt;
