//! The backend behind an HTTP interface.
//!
//! Every operation is one GET request. This module says where each request
//! goes and what an answer means; sending the request is left to the
//! caller, who hands back the status code or the body that came.
use serde_json::Value;
use vstd::prelude::*;
use vstd::string::StringExecFns;
use vstd::utf8::encode_utf8;

use crate::json::{json_error_text, json_model, json_parse, parse_json};
use crate::proto::mighty_proto::{
    EmbeddingsResponse, HealthcheckResponse, MetadataResponse, QuestionAnswerRequest,
    QuestionAnswerResponse, SentenceTransformersResponse, SequenceClassificationResponse,
    TextRequest, TokenClassificationResponse,
};
use crate::services::clients::json_response_converters::{
    decode_embeddings, decode_metadata, decode_question_answer, decode_sequence_classification,
    decode_token_classification, json_to_embeddings_response, json_to_metadata_response,
    json_to_question_answer_response, json_to_sentence_transformers_response,
    json_to_sequence_classification_response, json_to_token_classification_response,
    NOT_AN_OBJECT,
};
use crate::services::clients::Operation;
use crate::status::{Code, Status, StatusModel};
use crate::text::{join_texts, percent_encode, percent_encoded};

verus! {

/// The message of the error for a health check that was not answered with
/// status 200.
pub const HEALTHCHECK_FAILED: &'static str = "Healthcheck failed";

/// The path of an operation's endpoint below the base URL.
pub open spec fn endpoint_path(op: Operation) -> Seq<char> {
    match op {
        Operation::HealthCheck => "/healthcheck"@,
        Operation::Embeddings => "/embeddings"@,
        Operation::QuestionAnswering => "/question-answering"@,
        Operation::SentenceTransformers => "/sentence-transformers"@,
        Operation::SequenceClassification => "/sequence-classification"@,
        Operation::TokenClassification => "/token-classification"@,
        Operation::Metadata => "/metadata"@,
    }
}

/// How the message of an error begins when the answer to an operation's
/// request could not be had or was no JSON document.
pub open spec fn fetch_failure_prefix(op: Operation) -> Seq<char> {
    match op {
        Operation::HealthCheck => "HTTP request error: "@,
        Operation::Embeddings => "Error fetching embeddings: "@,
        Operation::QuestionAnswering => "Failed to parse JSON: "@,
        Operation::SentenceTransformers => "Failed to parse JSON: "@,
        Operation::SequenceClassification => "Failed to parse JSON: "@,
        Operation::TokenClassification => "Failed to parse JSON: "@,
        Operation::Metadata => "Failed to fetch metadata JSON: "@,
    }
}

/// A text as the value of a query parameter.
pub open spec fn query_value(text: Seq<char>) -> Seq<char> {
    percent_encoded(encode_utf8(text))
}

/// Whether a status is an internal error whose message begins as the
/// failed fetch of `op` has it.
pub open spec fn is_fetch_failure(status: StatusModel, op: Operation) -> bool {
    &&& status.code == Code::Internal
    &&& fetch_failure_prefix(op).is_prefix_of(status.message)
}

fn path_of(op: Operation) -> (path: &'static str)
    ensures
        path@ == endpoint_path(op),
{
    match op {
        Operation::HealthCheck => "/healthcheck",
        Operation::Embeddings => "/embeddings",
        Operation::QuestionAnswering => "/question-answering",
        Operation::SentenceTransformers => "/sentence-transformers",
        Operation::SequenceClassification => "/sequence-classification",
        Operation::TokenClassification => "/token-classification",
        Operation::Metadata => "/metadata",
    }
}

fn fetch_failure_prefix_of(op: Operation) -> (prefix: &'static str)
    ensures
        prefix@ == fetch_failure_prefix(op),
{
    match op {
        Operation::HealthCheck => "HTTP request error: ",
        Operation::Embeddings => "Error fetching embeddings: ",
        Operation::QuestionAnswering => "Failed to parse JSON: ",
        Operation::SentenceTransformers => "Failed to parse JSON: ",
        Operation::SequenceClassification => "Failed to parse JSON: ",
        Operation::TokenClassification => "Failed to parse JSON: ",
        Operation::Metadata => "Failed to fetch metadata JSON: ",
    }
}

/// The error for an operation whose request failed in transit or whose
/// answer was no JSON document: an internal error that names the cause.
pub fn fetch_failure(op: Operation, cause: &str) -> (status: Status)
    ensures
        status@ == Status::internal_model(fetch_failure_prefix(op) + cause@),
        is_fetch_failure(status@, op),
{
    Status::internal(join_texts(fetch_failure_prefix_of(op), cause))
}

/// What the status code of the answer to a health check means: 200 is
/// success, and any other code is an error, not a response without success.
pub fn health_check_response(status_code: u16) -> (response: Result<HealthcheckResponse, Status>)
    ensures
        match response {
            Ok(r) => status_code == 200 && r.success,
            Err(e) => status_code != 200 && e@ == Status::internal_model(HEALTHCHECK_FAILED@),
        },
{
    if status_code == 200 {
        Ok(HealthcheckResponse { success: true })
    } else {
        Err(Status::internal(HEALTHCHECK_FAILED.to_owned()))
    }
}

fn parse_body(op: Operation, body: &str) -> (parsed: Result<Value, Status>)
    ensures
        match parsed {
            Ok(json) => json_parse(body@) == Some(json_model(json)),
            Err(e) => json_parse(body@) is None && is_fetch_failure(e@, op),
        },
{
    match parse_json(body) {
        Ok(json) => Ok(json),
        Err(error) => {
            let cause = json_error_text(&error);
            Err(fetch_failure(op, cause.as_str()))
        },
    }
}

/// What the body of the answer to an embeddings request means.
pub fn embeddings_response(body: &str) -> (response: Result<EmbeddingsResponse, Status>)
    ensures
        match response {
            Ok(r) => json_parse(body@) matches Some(m) && r@ == decode_embeddings(m),
            Err(e) => json_parse(body@) is None && is_fetch_failure(e@, Operation::Embeddings),
        },
{
    match parse_body(Operation::Embeddings, body) {
        Ok(json) => json_to_embeddings_response(&json),
        Err(e) => Err(e),
    }
}

/// What the body of the answer to a question-answering request means for
/// the question and the context that were sent.
pub fn question_answering_response(
    body: &str,
    question: String,
    context: String,
) -> (response: Result<QuestionAnswerResponse, Status>)
    ensures
        match response {
            Ok(r) => json_parse(body@) matches Some(m) && r@ == decode_question_answer(
                m,
                question@,
                context@,
            ),
            Err(e) => json_parse(body@) is None && is_fetch_failure(
                e@,
                Operation::QuestionAnswering,
            ),
        },
{
    match parse_body(Operation::QuestionAnswering, body) {
        Ok(json) => json_to_question_answer_response(&json, question, context),
        Err(e) => Err(e),
    }
}

/// What the body of the answer to a sentence-embedding request means.
pub fn sentence_transformers_response(body: &str) -> (response: Result<
    SentenceTransformersResponse,
    Status,
>)
    ensures
        match response {
            Ok(r) => json_parse(body@) matches Some(m) && r@ == decode_embeddings(m),
            Err(e) => json_parse(body@) is None && is_fetch_failure(
                e@,
                Operation::SentenceTransformers,
            ),
        },
{
    match parse_body(Operation::SentenceTransformers, body) {
        Ok(json) => json_to_sentence_transformers_response(&json),
        Err(e) => Err(e),
    }
}

/// What the body of the answer to a sequence-classification request means.
pub fn sequence_classification_response(body: &str) -> (response: Result<
    SequenceClassificationResponse,
    Status,
>)
    ensures
        match response {
            Ok(r) => json_parse(body@) matches Some(m) && r@ == decode_sequence_classification(m),
            Err(e) => json_parse(body@) is None && is_fetch_failure(
                e@,
                Operation::SequenceClassification,
            ),
        },
{
    match parse_body(Operation::SequenceClassification, body) {
        Ok(json) => json_to_sequence_classification_response(&json),
        Err(e) => Err(e),
    }
}

/// What the body of the answer to a token-classification request means.
pub fn token_classification_response(body: &str) -> (response: Result<
    TokenClassificationResponse,
    Status,
>)
    ensures
        match response {
            Ok(r) => json_parse(body@) matches Some(m) && r@ == decode_token_classification(m),
            Err(e) => json_parse(body@) is None && is_fetch_failure(
                e@,
                Operation::TokenClassification,
            ),
        },
{
    match parse_body(Operation::TokenClassification, body) {
        Ok(json) => json_to_token_classification_response(&json),
        Err(e) => Err(e),
    }
}

/// What the body of the answer to a metadata request means. A body that is
/// no JSON document and a document that is no object are two different
/// errors.
pub fn metadata_response(body: &str) -> (response: Result<MetadataResponse, Status>)
    ensures
        match response {
            Ok(r) => json_parse(body@) matches Some(m) && decode_metadata(m) == Some(r@) && r.wf(),
            Err(e) => match json_parse(body@) {
                Some(m) => decode_metadata(m) is None && e@ == Status::internal_model(
                    NOT_AN_OBJECT@,
                ),
                None => is_fetch_failure(e@, Operation::Metadata),
            },
        },
{
    match parse_body(Operation::Metadata, body) {
        Ok(json) => json_to_metadata_response(&json),
        Err(e) => Err(e),
    }
}

/// The client of a backend behind an HTTP interface: it knows the base URL
/// and, from it, the address of every operation.
#[derive(Clone, Debug, Default, PartialEq, Eq)]
pub struct MightyServerRestClient {
    base_url: String,
}

impl MightyServerRestClient {
    /// The base URL, as given to [`MightyServerRestClient::new`].
    pub closed spec fn base(&self) -> Seq<char> {
        self.base_url@
    }

    /// The address of an operation's endpoint.
    pub open spec fn endpoint(&self, op: Operation) -> Seq<char> {
        self.base() + endpoint_path(op)
    }

    /// The address of an operation on one text.
    pub open spec fn text_query(&self, op: Operation, text: Seq<char>) -> Seq<char> {
        self.endpoint(op) + "?text="@ + query_value(text)
    }

    /// The address of a question-answering request.
    pub open spec fn question_query(&self, question: Seq<char>, context: Seq<char>) -> Seq<char> {
        self.endpoint(Operation::QuestionAnswering) + "?question="@ + query_value(question)
            + "&context="@ + query_value(context)
    }

    /// A client of the backend at `base_url`.
    pub fn new(base_url: String) -> (client: Self)
        ensures
            client.base() == base_url@,
    {
        MightyServerRestClient { base_url }
    }

    /// The base URL.
    pub fn base_url(&self) -> (url: &str)
        ensures
            url@ == self.base(),
    {
        self.base_url.as_str()
    }

    fn endpoint_url(&self, op: Operation) -> (url: String)
        ensures
            url@ == self.endpoint(op),
    {
        join_texts(self.base_url.as_str(), path_of(op))
    }

    fn text_query_url(&self, op: Operation, text: &str) -> (url: String)
        ensures
            url@ == self.text_query(op, text@),
    {
        let mut url = self.endpoint_url(op);
        url.append("?text=");
        let value = percent_encode(text);
        url.append(value.as_str());
        url
    }

    /// Where a health check goes.
    pub fn health_check_url(&self) -> (url: String)
        ensures
            url@ == self.endpoint(Operation::HealthCheck),
    {
        self.endpoint_url(Operation::HealthCheck)
    }

    /// Where an embeddings request goes.
    pub fn embeddings_url(&self, request: &TextRequest) -> (url: String)
        ensures
            url@ == self.text_query(Operation::Embeddings, request.text@),
    {
        self.text_query_url(Operation::Embeddings, request.text.as_str())
    }

    /// Where a question-answering request goes.
    pub fn question_answering_url(&self, request: &QuestionAnswerRequest) -> (url: String)
        ensures
            url@ == self.question_query(request.question@, request.context@),
    {
        let mut url = self.endpoint_url(Operation::QuestionAnswering);
        url.append("?question=");
        let question = percent_encode(request.question.as_str());
        url.append(question.as_str());
        url.append("&context=");
        let context = percent_encode(request.context.as_str());
        url.append(context.as_str());
        url
    }

    /// Where a sentence-embedding request goes.
    pub fn sentence_transformers_url(&self, request: &TextRequest) -> (url: String)
        ensures
            url@ == self.text_query(Operation::SentenceTransformers, request.text@),
    {
        self.text_query_url(Operation::SentenceTransformers, request.text.as_str())
    }

    /// Where a sequence-classification request goes.
    pub fn sequence_classification_url(&self, request: &TextRequest) -> (url: String)
        ensures
            url@ == self.text_query(Operation::SequenceClassification, request.text@),
    {
        self.text_query_url(Operation::SequenceClassification, request.text.as_str())
    }

    /// Where a token-classification request goes.
    pub fn token_classification_url(&self, request: &TextRequest) -> (url: String)
        ensures
            url@ == self.text_query(Operation::TokenClassification, request.text@),
    {
        self.text_query_url(Operation::TokenClassification, request.text.as_str())
    }

    /// Where a metadata request goes.
    pub fn metadata_url(&self) -> (url: String)
        ensures
            url@ == self.endpoint(Operation::Metadata),
    {
        self.endpoint_url(Operation::Metadata)
    }
}

} // verus!
