use profiler_render::{resolve_source_uri, ResolvedSource};

#[test]
fn declared_none_uses_first_available() {
    let connected = vec![
        "zmq://127.0.0.1:9005".to_string(),
        "zmq://127.0.0.1:9006".to_string(),
    ];
    let resolved = resolve_source_uri(None, &connected);
    assert_eq!(
        resolved,
        ResolvedSource {
            uri: Some("zmq://127.0.0.1:9005".to_string()),
            fallback_applied: false,
        },
    );
}

#[test]
fn declared_matching_uri_is_honoured() {
    let connected = vec![
        "zmq://127.0.0.1:9005".to_string(),
        "zmq://127.0.0.1:9006".to_string(),
    ];
    let resolved = resolve_source_uri(Some("zmq://127.0.0.1:9006"), &connected);
    assert_eq!(
        resolved,
        ResolvedSource {
            uri: Some("zmq://127.0.0.1:9006".to_string()),
            fallback_applied: false,
        },
    );
}

#[test]
fn declared_unknown_uri_falls_back_with_warning_flag() {
    let connected = vec![
        "zmq://127.0.0.1:9005".to_string(),
    ];
    let resolved = resolve_source_uri(Some("zmq://nonexistent:9999"), &connected);
    assert_eq!(
        resolved,
        ResolvedSource {
            uri: Some("zmq://127.0.0.1:9005".to_string()),
            fallback_applied: true,
        },
        "missing pinned URI falls back to first available and flags the warning",
    );
}

#[test]
fn declared_unknown_uri_no_sources_returns_none() {
    let resolved = resolve_source_uri(Some("zmq://nonexistent:9999"), &[]);
    assert_eq!(
        resolved,
        ResolvedSource {
            uri: None,
            fallback_applied: true,
        },
    );
}

#[test]
fn declared_none_no_sources_returns_none_without_warning() {
    let resolved = resolve_source_uri(None, &[]);
    assert_eq!(
        resolved,
        ResolvedSource {
            uri: None,
            fallback_applied: false,
        },
    );
}

#[test]
fn fallback_picks_first_in_insertion_order() {
    let connected = vec![
        "mavlink://0.0.0.0:14550".to_string(),
        "zmq://127.0.0.1:9005".to_string(),
        "zmq://127.0.0.1:9006".to_string(),
    ];
    let resolved = resolve_source_uri(Some("zmq://nope:0"), &connected);
    assert_eq!(
        resolved.uri.as_deref(),
        Some("mavlink://0.0.0.0:14550"),
        "first connected URI wins the fallback",
    );
    assert!(resolved.fallback_applied);
}
