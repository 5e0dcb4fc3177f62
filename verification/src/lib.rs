//! A T5 sequence-to-sequence transformer core: an encoder-decoder stack with a
//! shared token embedding table, an autoregressive language-modeling head, and a
//! per-layer key/value cache protocol for incremental decoding.
//!
//! Tensor arithmetic runs on an exact integer reference kernel so that the
//! orchestration contracts — encoder reuse, cache threading, logits scaling and
//! cache-kind dispatch — can be stated and proved precisely.
#![verifier::loop_isolation(false)]

pub mod attention;
pub mod config;
pub mod encoder;
pub mod generation_utils;
pub mod laws;
pub mod linalg;
pub mod t5_model;

use vstd::prelude::*;

verus! {

/// The failures this crate raises or propagates.
#[derive(Debug)]
pub enum ModelError {
    /// A caller handed an argument that can never be valid for this model.
    ValueError(String),
}

} // verus!
