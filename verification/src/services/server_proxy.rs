//! The gateway in front of a backend.
//!
//! The gateway hands every call to the backend as it came and the answer
//! back as it came. Only a failure is changed on the way: the caller gets an
//! internal error whose message names the operation and then the cause.
use vstd::prelude::*;

use crate::services::clients::Operation;
use crate::status::Status;
use crate::text::join_texts;

verus! {

/// How the message of the gateway's error for a failed operation begins.
pub open spec fn gateway_error_prefix(op: Operation) -> Seq<char> {
    match op {
        Operation::HealthCheck => "Error getting healthcheck: "@,
        Operation::Embeddings => "Error fetching embeddings: "@,
        Operation::QuestionAnswering => "Error fetching question answering: "@,
        Operation::SentenceTransformers => "Error fetching sentence transformers: "@,
        Operation::SequenceClassification => "Error fetching sequence classification: "@,
        Operation::TokenClassification => "Error fetching token classification: "@,
        Operation::Metadata => "Error fetching metadata: "@,
    }
}

fn gateway_error_prefix_of(op: Operation) -> (prefix: &'static str)
    ensures
        prefix@ == gateway_error_prefix(op),
{
    match op {
        Operation::HealthCheck => "Error getting healthcheck: ",
        Operation::Embeddings => "Error fetching embeddings: ",
        Operation::QuestionAnswering => "Error fetching question answering: ",
        Operation::SentenceTransformers => "Error fetching sentence transformers: ",
        Operation::SequenceClassification => "Error fetching sequence classification: ",
        Operation::TokenClassification => "Error fetching token classification: ",
        Operation::Metadata => "Error fetching metadata: ",
    }
}

/// The error that the caller of a failed operation gets: an internal error
/// whose message is the operation's prefix followed by the cause.
pub fn gateway_error(op: Operation, cause: &str) -> (status: Status)
    ensures
        status@ == Status::internal_model(gateway_error_prefix(op) + cause@),
{
    Status::internal(join_texts(gateway_error_prefix_of(op), cause))
}

/// What the gateway returns for the outcome of the backend's call: the
/// response itself, or for a failure, given by its cause in words, the
/// gateway's error for the operation.
pub fn relay<T>(op: Operation, outcome: Result<T, String>) -> (answer: Result<T, Status>)
    ensures
        match outcome {
            Ok(response) => answer == Ok::<T, Status>(response),
            Err(cause) => answer matches Err(e) && e@ == Status::internal_model(
                gateway_error_prefix(op) + cause@,
            ),
        },
{
    match outcome {
        Ok(response) => Ok(response),
        Err(cause) => Err(gateway_error(op, cause.as_str())),
    }
}

} // verus!
