use mighty_grpc::config::{AppSettings, LoggingConfig, MightyServerConfig, ServerConfig};
use mighty_grpc::proto::mighty_proto::{Empty, HealthcheckResponse, TextRequest};
use mighty_grpc::services::clients::Operation;
use mighty_grpc::services::server_proxy::{gateway_error, relay};
use mighty_grpc::status::{Code, Status};

#[test]
fn gateway_error_names_the_operation_and_the_cause() {
    let cases = [
        (Operation::HealthCheck, "Error getting healthcheck: "),
        (Operation::Embeddings, "Error fetching embeddings: "),
        (Operation::QuestionAnswering, "Error fetching question answering: "),
        (Operation::SentenceTransformers, "Error fetching sentence transformers: "),
        (Operation::SequenceClassification, "Error fetching sequence classification: "),
        (Operation::TokenClassification, "Error fetching token classification: "),
        (Operation::Metadata, "Error fetching metadata: "),
    ];
    for (op, prefix) in cases {
        let status = gateway_error(op, "backend is down");
        assert_eq!(status.code, Code::Internal);
        assert_eq!(status.message, format!("{}backend is down", prefix));
        assert_eq!(gateway_error(op, "").message, prefix);
    }
}

#[test]
fn gateway_hands_a_response_back_unchanged() {
    let response = HealthcheckResponse { success: true };
    assert_eq!(relay(Operation::HealthCheck, Ok(response)), Ok(response));
    let request = TextRequest { text: "as it came".to_string() };
    assert_eq!(relay(Operation::Embeddings, Ok(request.clone())), Ok(request));
    assert_eq!(relay(Operation::Metadata, Ok(Empty {})), Ok(Empty {}));
}

#[test]
fn gateway_wraps_a_failure() {
    let outcome: Result<HealthcheckResponse, String> = Err("Healthcheck failed".to_string());
    assert_eq!(
        relay(Operation::HealthCheck, outcome),
        Err(Status {
            code: Code::Internal,
            message: "Error getting healthcheck: Healthcheck failed".to_string(),
        })
    );
    let outcome: Result<Empty, String> = Err(String::new());
    assert_eq!(
        relay(Operation::Metadata, outcome),
        Err(Status { code: Code::Internal, message: "Error fetching metadata: ".to_string() })
    );
}

#[test]
fn status_holds_its_code_and_message() {
    let status = Status::internal("Healthcheck failed".to_string());
    assert_eq!(status.code(), Code::Internal);
    assert_eq!(status.message(), "Healthcheck failed");
    assert_eq!(
        status,
        Status { code: Code::Internal, message: "Healthcheck failed".to_string() }
    );

    let status = Status::new(Code::Unavailable, "down".to_string());
    assert_eq!(status.code(), Code::Unavailable);
    assert_eq!(status.message(), "down");
    assert_ne!(status, Status::internal("down".to_string()));
}

#[test]
fn settings_hold_what_they_are_given() {
    let settings = AppSettings {
        grpc_server: ServerConfig { address: "127.0.0.1".to_string(), port: 50051 },
        api_server: None,
        mighty_server: Some(MightyServerConfig {
            base_url: Some("http://localhost:5050".to_string()),
        }),
        logging: LoggingConfig { level: "info".to_string() },
    };
    assert_eq!(settings.grpc_server.address, "127.0.0.1");
    assert_eq!(settings.grpc_server.port, 50051);
    assert_eq!(settings.api_server, None);
    assert_eq!(
        settings.mighty_server.clone().unwrap().base_url,
        Some("http://localhost:5050".to_string())
    );
    assert_eq!(settings.logging.level, "info");
    assert_eq!(settings.clone(), settings);
}
