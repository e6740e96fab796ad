//! Signal-processing helpers.

pub mod spectrum;
