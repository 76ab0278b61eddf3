use mighty_grpc::proto::mighty_proto::{
    Embedding, HealthcheckResponse, QuestionAnswerRequest, QuestionAnswerResponse, Shape,
    TextRequest,
};
use mighty_grpc::services::clients::binary::BinaryClient;
use mighty_grpc::services::clients::rest::{
    embeddings_response, fetch_failure, health_check_response, metadata_response,
    question_answering_response, sentence_transformers_response,
    sequence_classification_response, token_classification_response, MightyServerRestClient,
    HEALTHCHECK_FAILED,
};
use mighty_grpc::services::clients::Operation;
use mighty_grpc::status::{Code, Status};
use serde_json::Value;

fn client() -> MightyServerRestClient {
    MightyServerRestClient::new("http://localhost:5050".to_string())
}

fn text(text: &str) -> TextRequest {
    TextRequest { text: text.to_string() }
}

fn internal(message: &str) -> Status {
    Status { code: Code::Internal, message: message.to_string() }
}

fn parse_error(body: &str) -> String {
    serde_json::from_str::<Value>(body).unwrap_err().to_string()
}

fn rows(embeddings: &[Embedding]) -> Vec<Vec<f32>> {
    embeddings
        .iter()
        .map(|e| e.values.iter().map(|d| f64::from_bits(d.bits) as f32).collect())
        .collect()
}

#[test]
fn client_keeps_its_base_url() {
    assert_eq!(client().base_url(), "http://localhost:5050");
    assert_eq!(MightyServerRestClient::new(String::new()).base_url(), "");
    assert_eq!(MightyServerRestClient::default().base_url(), "");
}

#[test]
fn addresses_without_parameters() {
    assert_eq!(client().health_check_url(), "http://localhost:5050/healthcheck");
    assert_eq!(client().metadata_url(), "http://localhost:5050/metadata");
    assert_eq!(
        MightyServerRestClient::new("https://mighty.example/api".to_string()).metadata_url(),
        "https://mighty.example/api/metadata"
    );
}

#[test]
fn addresses_of_the_operations_on_a_text() {
    let request = text("test");
    assert_eq!(
        client().embeddings_url(&request),
        "http://localhost:5050/embeddings?text=test"
    );
    assert_eq!(
        client().sentence_transformers_url(&request),
        "http://localhost:5050/sentence-transformers?text=test"
    );
    assert_eq!(
        client().sequence_classification_url(&request),
        "http://localhost:5050/sequence-classification?text=test"
    );
    assert_eq!(
        client().token_classification_url(&request),
        "http://localhost:5050/token-classification?text=test"
    );
}

#[test]
fn address_of_a_question() {
    let request = QuestionAnswerRequest {
        question: "What is the answer?".to_string(),
        context: "This is the context.".to_string(),
    };
    assert_eq!(
        client().question_answering_url(&request),
        "http://localhost:5050/question-answering?question=What%20is%20the%20answer%3F&context=This%20is%20the%20context."
    );
}

#[test]
fn parameters_are_percent_encoded() {
    assert_eq!(
        client().embeddings_url(&text("test text")),
        "http://localhost:5050/embeddings?text=test%20text"
    );
    assert_eq!(
        client().embeddings_url(&text("a&text=b#c")),
        "http://localhost:5050/embeddings?text=a%26text%3Db%23c"
    );
    assert_eq!(
        client().embeddings_url(&text("")),
        "http://localhost:5050/embeddings?text="
    );
    assert_eq!(
        client().token_classification_url(&text("Zoë went to 東京.")),
        "http://localhost:5050/token-classification?text=Zo%C3%AB%20went%20to%20%E6%9D%B1%E4%BA%AC."
    );
    let request = QuestionAnswerRequest {
        question: "1+1=?".to_string(),
        context: "a&context=b".to_string(),
    };
    assert_eq!(
        client().question_answering_url(&request),
        "http://localhost:5050/question-answering?question=1%2B1%3D%3F&context=a%26context%3Db"
    );
}

#[test]
fn health_check_succeeds_on_status_200_only() {
    assert_eq!(health_check_response(200), Ok(HealthcheckResponse { success: true }));
    assert_eq!(HEALTHCHECK_FAILED, "Healthcheck failed");
    for status in [0u16, 100, 199, 201, 204, 301, 404, 500, 503, u16::MAX] {
        assert_eq!(health_check_response(status), Err(internal("Healthcheck failed")));
    }
}

#[test]
fn failed_fetch_names_the_cause() {
    assert_eq!(
        fetch_failure(Operation::HealthCheck, "connection refused"),
        internal("HTTP request error: connection refused")
    );
    assert_eq!(
        fetch_failure(Operation::Embeddings, "connection refused"),
        internal("Error fetching embeddings: connection refused")
    );
    assert_eq!(
        fetch_failure(Operation::QuestionAnswering, "timed out"),
        internal("Failed to parse JSON: timed out")
    );
    assert_eq!(
        fetch_failure(Operation::SentenceTransformers, "timed out"),
        internal("Failed to parse JSON: timed out")
    );
    assert_eq!(
        fetch_failure(Operation::SequenceClassification, ""),
        internal("Failed to parse JSON: ")
    );
    assert_eq!(
        fetch_failure(Operation::TokenClassification, "x"),
        internal("Failed to parse JSON: x")
    );
    assert_eq!(
        fetch_failure(Operation::Metadata, "dns error"),
        internal("Failed to fetch metadata JSON: dns error")
    );
}

#[test]
fn embeddings_body_is_parsed_and_decoded() {
    let body = r#"{"outputs":[[0.1,0.2,0.3],[0.4,0.5,0.6]],"took":9,"text":"Sample text","shape":[1,3]}"#;
    let response = embeddings_response(body).unwrap();
    assert_eq!(
        rows(&response.embeddings),
        vec![vec![0.1f32, 0.2, 0.3], vec![0.4f32, 0.5, 0.6]]
    );
    assert_eq!(response.took, 9);
    assert_eq!(response.text, "Sample text");
    assert_eq!(response.shape, Some(Shape { dim1: 1, dim2: 3 }));
}

#[test]
fn body_that_is_no_json_is_an_error_of_the_operation() {
    let body = "<html>502 Bad Gateway</html>";
    let cause = parse_error(body);
    assert!(!cause.is_empty());
    assert_eq!(
        embeddings_response(body),
        Err(internal(&format!("Error fetching embeddings: {}", cause)))
    );
    assert_eq!(
        question_answering_response(body, "q".to_string(), "c".to_string()),
        Err(internal(&format!("Failed to parse JSON: {}", cause)))
    );
    assert_eq!(
        sentence_transformers_response(body),
        Err(internal(&format!("Failed to parse JSON: {}", cause)))
    );
    assert_eq!(
        sequence_classification_response(body),
        Err(internal(&format!("Failed to parse JSON: {}", cause)))
    );
    assert_eq!(
        token_classification_response(body),
        Err(internal(&format!("Failed to parse JSON: {}", cause)))
    );
    assert_eq!(
        metadata_response(body),
        Err(internal(&format!("Failed to fetch metadata JSON: {}", cause)))
    );
}

#[test]
fn empty_and_cut_off_bodies_are_errors() {
    for body in ["", "   ", "{\"took\": 9", "{\"took\": 9} trailing", "{took: 9}"] {
        let cause = parse_error(body);
        assert_eq!(
            embeddings_response(body),
            Err(internal(&format!("Error fetching embeddings: {}", cause)))
        );
    }
}

#[test]
fn question_answering_body_echoes_the_request() {
    let body = r#"{"answer": "This is the answer.", "start_idx": 10, "end_idx": 50, "took": 9, "question": "not this"}"#;
    let response = question_answering_response(
        body,
        "What is the answer?".to_string(),
        "This is the context.".to_string(),
    )
    .unwrap();
    let expected = QuestionAnswerResponse {
        answer: "This is the answer.".to_string(),
        start_idx: 10,
        end_idx: 50,
        question: "What is the answer?".to_string(),
        context: "This is the context.".to_string(),
        took: 9,
    };
    assert_eq!(response, expected);
}

#[test]
fn sentence_transformers_body_is_parsed_and_decoded() {
    let response = sentence_transformers_response(r#"{"outputs": [[2, 4]], "took": 3}"#).unwrap();
    assert_eq!(rows(&response.embeddings), vec![vec![2.0f32, 4.0]]);
    assert_eq!(response.took, 3);
    assert_eq!(response.text, "");
    assert_eq!(response.shape, None);
}

#[test]
fn sequence_classification_body_is_parsed_and_decoded() {
    let body = r#"{"logits":[[0.1,0.2,0.3],[0.4,0.5,0.6]],"took":5,"text":"Sample text","shape":[1,3]}"#;
    let response = sequence_classification_response(body).unwrap();
    let logits: Vec<f32> =
        response.logits.iter().map(|d| f64::from_bits(d.bits) as f32).collect();
    assert_eq!(logits, vec![0.1f32, 0.2, 0.3, 0.4, 0.5, 0.6]);
    assert_eq!(response.took, 5);
    assert_eq!(response.text, "Sample text");
    assert_eq!(response.shape, Some(Shape { dim1: 1, dim2: 3 }));
}

#[test]
fn token_classification_body_is_parsed_and_decoded() {
    let body = r#"{"text": "John Doe", "entities": [{"id": "entity1", "label": "Person", "text": "John Doe", "offsets": [0, 8]}]}"#;
    let response = token_classification_response(body).unwrap();
    assert_eq!(response.text, "John Doe");
    assert_eq!(response.entities.len(), 1);
    assert_eq!(response.entities[0].id, "entity1");
    assert_eq!(response.entities[0].label, "Person");
    assert_eq!(response.entities[0].start_offset, 0);
    assert_eq!(response.entities[0].end_offset, 8);
}

#[test]
fn metadata_body_is_parsed_and_decoded() {
    let response = metadata_response(r#"{"model_name": "model.onnx", "input_names": ["input_ids", "attention_mask"]}"#).unwrap();
    assert_eq!(response.metadata.len(), 2);
    assert_eq!(response.get("model_name"), Some(&"model.onnx".to_string()));
    assert_eq!(
        response.get("input_names"),
        Some(&"[\"input_ids\",\"attention_mask\"]".to_string())
    );
}

#[test]
fn metadata_body_that_is_no_object_is_refused() {
    for body in ["17", "[1, 2]", "\"{}\"", "null", "false"] {
        assert_eq!(
            metadata_response(body),
            Err(internal("Failed to parse metadata JSON as object"))
        );
    }
}

#[test]
fn binary_client_is_made_without_arguments() {
    assert_eq!(BinaryClient::new(), BinaryClient);
    assert_eq!(BinaryClient::default(), BinaryClient::new());
}
