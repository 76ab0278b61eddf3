//! Backends of the gateway and the decoder that they share.
//!
//! A backend offers the seven operations of [`Operation`]. The gateway
//! forwards each call to whatever backend it holds.
use vstd::prelude::*;

pub mod binary;
pub mod json_response_converters;
pub mod rest;

verus! {

/// The operations that every backend offers.
#[derive(Clone, Copy, Debug, PartialEq, Eq, Structural)]
pub enum Operation {
    HealthCheck,
    Embeddings,
    QuestionAnswering,
    SentenceTransformers,
    SequenceClassification,
    TokenClassification,
    Metadata,
}

} // verus!
