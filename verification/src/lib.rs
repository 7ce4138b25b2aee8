//! Inference front ends for the Parakeet family of speech models.
//!
//! Three models are driven here: the CTC model ([`model`]), the streaming
//! end-of-utterance model ([`model_eou`]) and the token-and-duration transducer
//! ([`model_tdt`]). The network itself is evaluated by `rten`, array storage is
//! `ndarray`'s; what this crate proves is everything around them: which inputs
//! are handed to a network and under which names, how its outputs are taken
//! apart, and how the greedy transducer search moves through the frames.
//!
//! No floating-point arithmetic happens in this crate. A float is carried as its
//! 32-bit pattern in an `i32` cell, and the only thing ever asked of two floats
//! is which one is larger ([`logits`]).

pub mod array;
pub mod config;
pub mod error;
pub mod execution;
pub mod files;
pub mod logits;
pub mod model;
pub mod model_eou;
pub mod model_tdt;
pub mod runtime;
pub mod search;
pub mod text;
