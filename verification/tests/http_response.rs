use native_high_performance::response::render_telemetry_response;

fn reference(actual_written: u64, micros: u128) -> String {
    let response_body = format!(
        "{{\n  \"engine_status\": \"HYPERTOWER_ACTIVE\",\n  \"telemetry\": {{\n    \"bytes_written_delta_100ms\": {},\n    \"latency_us\": {}\n  }}\n}}",
        actual_written, micros
    );
    format!(
        "HTTP/1.1 200 OK\r\nContent-Type: application/json\r\nContent-Length: {}\r\nConnection: close\r\n\r\n{}",
        response_body.len(),
        response_body
    )
}

#[test]
fn response_matches_the_json_report() {
    for (w, l) in [(0u64, 0u128), (42, 7), (1_048_576, 123_456), (u64::MAX, u128::MAX), (9, 10), (10, 9)] {
        let got = String::from_utf8(render_telemetry_response(w, l)).unwrap();
        assert_eq!(got, reference(w, l));
    }
}

#[test]
fn content_length_counts_the_body() {
    let got = String::from_utf8(render_telemetry_response(512, 33)).unwrap();
    let (head, body) = got.split_once("\r\n\r\n").unwrap();
    let length: usize = head
        .lines()
        .find_map(|l| l.strip_prefix("Content-Length: "))
        .unwrap()
        .parse()
        .unwrap();
    assert_eq!(length, body.len());
    assert!(body.contains("\"bytes_written_delta_100ms\": 512,"));
    assert!(body.contains("\"latency_us\": 33\n"));
}
