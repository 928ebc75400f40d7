use signaling_broker::req_helpers::required_query;
use signaling_broker::BrokerError;

fn pairs(kv: &[(&str, &str)]) -> Vec<(String, String)> {
    kv.iter().map(|(k, v)| (k.to_string(), v.to_string())).collect()
}

#[test]
fn required_query_finds_present_keys() {
    let q = pairs(&[("session_name", "red fox jumps"), ("host_secret", "s3cr3t")]);
    assert_eq!(required_query(&q, "session_name").unwrap(), "red fox jumps");
    assert_eq!(required_query(&q, "host_secret").unwrap(), "s3cr3t");
}

#[test]
fn required_query_missing_key_is_invalid_input() {
    let q = pairs(&[("session_name", "red fox jumps")]);
    match required_query(&q, "client_secret") {
        Err(BrokerError::InvalidInput) => {}
        _ => panic!("expected InvalidInput"),
    }
    let empty: Vec<(String, String)> = Vec::new();
    match required_query(&empty, "anything") {
        Err(BrokerError::InvalidInput) => {}
        _ => panic!("expected InvalidInput"),
    }
}

#[test]
fn required_query_first_binding_wins() {
    let q = pairs(&[("name", "first"), ("name", "second")]);
    assert_eq!(required_query(&q, "name").unwrap(), "first");
}
