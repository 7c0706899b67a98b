//! Functional utilities: mapping over containers with a uniform interface.

pub mod applicative;
pub mod functor;
