use stream_infra::embedded_assets::{asset_file_name, asset_names_for_digest, to_hex_lower};
use stream_infra::metrics::{health_body, health_response, Metrics};

#[test]
fn metrics_count_connections() {
    let mut metrics = Metrics::new();
    metrics.record_connect();
    metrics.record_connect();
    metrics.record_disconnect();
    assert_eq!(metrics.total(), 2);
    assert_eq!(metrics.active(), 1);
}

#[test]
fn health_response_frames_the_body() {
    let body = "{\"status\":\"OK\",\"active_connections\":1,\"total_connections\":2}\n";
    assert_eq!(
        health_response(body),
        format!(
            "HTTP/1.1 200 OK\r\nContent-Type: application/json\r\nContent-Length: {}\r\nConnection: close\r\n\r\n{}",
            body.len(),
            body
        )
    );
    assert!(health_response("é").contains("Content-Length: 2\r\n"));
}

#[test]
fn asset_names_carry_a_hash_prefix() {
    assert_eq!(to_hex_lower(&[0x00, 0xab, 0x7f]), "00ab7f");
    let (file, hash) = asset_file_name("tailwind", "css", b"");
    assert_eq!(hash, "e3b0c44298fc1c149afbf4c8996fb92427ae41e4649b934ca495991b7852b855");
    assert_eq!(file, "tailwind-e3b0c44298fc1c14.css");
}

#[test]
fn health_body_reports_both_counters() {
    assert_eq!(
        health_body(2, 17),
        "{\"status\":\"OK\",\"active_connections\":2,\"total_connections\":17}\n"
    );
    assert_eq!(health_body(0, 0), "{\"status\":\"OK\",\"active_connections\":0,\"total_connections\":0}\n");
}

#[test]
fn asset_names_are_built_from_the_digest() {
    let digest: Vec<u8> = (0u8..32).collect();
    let (file, hash) = asset_names_for_digest("hls-player", "js", &digest);
    assert_eq!(hash, "000102030405060708090a0b0c0d0e0f101112131415161718191a1b1c1d1e1f");
    assert_eq!(file, "hls-player-0001020304050607.js");
}

#[test]
fn counters_wrap_around_at_their_limits() {
    let mut metrics = Metrics::new();
    assert_eq!((metrics.active(), metrics.total()), (0, 0));
    metrics.record_disconnect();
    assert_eq!(metrics.active(), u64::MAX);
    assert_eq!(metrics.total(), 0);
    metrics.record_connect();
    assert_eq!(metrics.active(), 0);
    assert_eq!(metrics.total(), 1);
}
