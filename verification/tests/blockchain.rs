use entropy_engine::blockchain::{base64_encode, verdict_from_body, BlockchainValidator};

#[test]
fn base64_rfc4648_vectors() {
    assert_eq!(base64_encode(""), "");
    assert_eq!(base64_encode("f"), "Zg==");
    assert_eq!(base64_encode("fo"), "Zm8=");
    assert_eq!(base64_encode("foo"), "Zm9v");
    assert_eq!(base64_encode("foob"), "Zm9vYg==");
    assert_eq!(base64_encode("fooba"), "Zm9vYmE=");
    assert_eq!(base64_encode("foobar"), "Zm9vYmFy");
}

#[test]
fn base64_encodes_utf8_bytes() {
    assert_eq!(base64_encode("é"), "w6k=");
    assert_eq!(base64_encode("\u{ff}\u{ff}"), "w7/Dvw==");
}

#[test]
fn validator_settings() {
    let v = BlockchainValidator::new(
        "http://localhost:6740".to_string(),
        "multichainrpc".to_string(),
        "secret".to_string(),
    );
    assert_eq!(v.rpc_url(), "http://localhost:6740");
    assert_eq!(v.stream_name(), "valid-macs");
    assert_eq!(v.auth_header(), "Basic bXVsdGljaGFpbnJwYzpzZWNyZXQ=");
}

#[test]
fn auth_header_with_empty_password() {
    let v = BlockchainValidator::new(String::new(), "user".to_string(), String::new());
    assert_eq!(v.auth_header(), "Basic dXNlcjo=");
}

#[test]
fn reply_verdicts() {
    assert_eq!(BlockchainValidator::reply_verdict(Some(2), None), Ok(true));
    assert_eq!(BlockchainValidator::reply_verdict(Some(0), Some("ignored".to_string())), Ok(false));
    assert_eq!(
        BlockchainValidator::reply_verdict(None, Some("{\"code\":-708}".to_string())),
        Err("MultiChain RPC error: {\"code\":-708}".to_string())
    );
    assert_eq!(BlockchainValidator::reply_verdict(None, None), Ok(false));
}

#[test]
fn verdicts_from_reply_bodies() {
    assert_eq!(verdict_from_body("{\"result\":[{\"key\":\"AA\"}],\"error\":null,\"id\":\"mac-check\"}"), Ok(true));
    assert_eq!(verdict_from_body("{\"result\":[],\"error\":null}"), Ok(false));
    assert_eq!(
        verdict_from_body("{\"result\":null,\"error\":{\"code\":-708,\"message\":\"no stream\"}}"),
        Err("MultiChain RPC error: {\"code\":-708,\"message\":\"no stream\"}".to_string())
    );
    assert_eq!(verdict_from_body("{}"), Ok(false));
    let err = verdict_from_body("<html>").unwrap_err();
    assert!(err.starts_with("Failed to parse MultiChain response: "));
}
