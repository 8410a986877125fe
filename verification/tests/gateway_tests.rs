use squad_translate::gateway::{translate_batch, translate_dataset, GatewayConfig};
use squad_translate::model::{Dataset, TransformError};

fn config() -> GatewayConfig {
    GatewayConfig {
        api_key: "unused-test-key".to_string(),
        source_language: "EN".to_string(),
        target_language: "JA".to_string(),
    }
}

#[test]
fn empty_batch_needs_no_backend() {
    let out = translate_batch(&config(), vec![]).unwrap();
    assert!(out.is_empty());
}

#[test]
fn unreachable_backend_is_a_gateway_failure() {
    let r = translate_batch(&config(), vec!["hello".to_string()]);
    assert_eq!(r.unwrap_err(), TransformError::GatewayFailure);
}

#[test]
fn empty_dataset_translates_without_backend() {
    let d = Dataset { version: "x".to_string(), data: vec![] };
    let out = translate_dataset(&config(), &d).unwrap();
    assert!(out.data.is_empty());
    assert_eq!(out.version, "v2.0");
}
