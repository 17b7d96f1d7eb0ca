use secret_vault::errors::SecretVaultError;
use secret_vault::{error_from_grpc_code, error_from_grpc_status};

#[test]
fn grpc_code_mapping() {
    assert!(matches!(
        error_from_grpc_code(5, "NotFound".to_string(), "gone".to_string()),
        SecretVaultError::DataNotFoundError(_)
    ));
    assert!(matches!(
        error_from_grpc_code(2, "Unknown".to_string(), "reset".to_string()),
        SecretVaultError::NetworkError(_)
    ));
    assert!(matches!(
        error_from_grpc_code(7, "PermissionDenied".to_string(), "no".to_string()),
        SecretVaultError::SystemError(_)
    ));
}

#[test]
fn grpc_status_mapping() {
    match error_from_grpc_status(&tonic::Status::not_found("missing secret")) {
        SecretVaultError::DataNotFoundError(e) => {
            assert_eq!(e.public.code, "NotFound");
            assert!(e.data_detail_message.contains("missing secret"));
        }
        other => panic!("unexpected: {:?}", other),
    }
    match error_from_grpc_status(&tonic::Status::permission_denied("no")) {
        SecretVaultError::SystemError(e) => assert_eq!(e.public.code, "PermissionDenied"),
        other => panic!("unexpected: {:?}", other),
    }
    assert!(matches!(
        error_from_grpc_status(&tonic::Status::unknown("reset")),
        SecretVaultError::NetworkError(_)
    ));
}
