//! Building blocks for a small feedforward network: zero-filled weight
//! matrices of a declared shape, and a decoder for the IDX dataset container
//! (gzip-compressed label and image streams).

pub mod error;
pub mod idx;
pub mod matrix;

pub use error::Error;
pub use idx::{load_data, records_from, MnistData, MnistImage};
pub use matrix::{create_layer, create_network, Matrix};
