//! Concatenates several text inputs into one tagged envelope, each input
//! headed by a comment line that names it.

pub mod comment;
pub mod resolve;
pub mod load;
pub mod envelope;
pub mod pipeline;
