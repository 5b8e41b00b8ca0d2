use esp_sensor::influx::{diagnostic, is_success, Client, Diagnostic, Error, Header};

fn header(name: &str, value: &str) -> Header {
    Header { name: name.to_string(), value: value.to_string() }
}

#[test]
fn write_request() {
    let client = Client::new("http://influx.local:8086", "s3cr3t");
    let request = client.write("home", "sensors", b"dht22 humidity=55.5\n");
    assert_eq!(
        request.target,
        "http://influx.local:8086/api/v2/write?org=home&bucket=sensors&precision=ns"
    );
    assert_eq!(
        request.headers,
        vec![
            header("Authorization", "Token s3cr3t"),
            header("Content-Type", "text/plain"),
            header("Accept", "application/json"),
        ]
    );
    assert_eq!(request.body, b"dht22 humidity=55.5\n".to_vec());
}

#[test]
fn write_request_with_empty_parts() {
    let request = Client::new("", "").write("", "", b"");
    assert_eq!(request.target, "/api/v2/write?org=&bucket=&precision=ns");
    assert_eq!(request.headers[0], header("Authorization", "Token "));
    assert_eq!(request.body, Vec::<u8>::new());
}

#[test]
fn accepting_statuses() {
    assert!(is_success(200));
    assert!(is_success(201));
    assert!(is_success(202));
    for status in [0, 100, 199, 203, 204, 299, 300, 400, 401, 404, 500, 503, u16::MAX] {
        assert!(!is_success(status), "{}", status);
    }
}

#[test]
fn response_to_a_write() {
    assert_eq!(Client::check_response(200, b""), Ok(()));
    assert_eq!(Client::check_response(201, b"{}"), Ok(()));
    assert_eq!(Client::check_response(202, &[0xff]), Ok(()));
    assert_eq!(Client::check_response(204, b""), Err(Error::Api));
    assert_eq!(Client::check_response(400, b"{\"code\":\"invalid\"}"), Err(Error::Api));
    assert_eq!(Client::check_response(401, "gr\u{fc}n".as_bytes()), Err(Error::Api));
    assert_eq!(Client::check_response(500, &[0xff, 0xfe]), Err(Error::Utf8));
    assert_eq!(Client::check_response(500, &[0xc3]), Err(Error::Utf8));
    assert_eq!(Client::check_response(500, &[0xed, 0xa0, 0x80]), Err(Error::Utf8));
}

#[test]
fn body_for_the_log() {
    assert_eq!(diagnostic(b""), Diagnostic::Empty);
    assert_eq!(diagnostic(b"not found"), Diagnostic::Text("not found".to_string()));
    assert_eq!(diagnostic("gr\u{fc}n".as_bytes()), Diagnostic::Text("gr\u{fc}n".to_string()));
    assert_eq!(diagnostic(&[b'a', 0xff]), Diagnostic::Undecodable);
}

#[test]
fn body_for_the_log_is_cut() {
    let long = vec![b'x'; 300];
    assert_eq!(diagnostic(&long), Diagnostic::Text("x".repeat(128)));
    let exact = vec![b'y'; 128];
    assert_eq!(diagnostic(&exact), Diagnostic::Text("y".repeat(128)));
    let mut late = vec![b'z'; 128];
    late.push(0xff);
    assert_eq!(diagnostic(&late), Diagnostic::Text("z".repeat(128)));
    let mut split = vec![b'a'; 127];
    split.extend_from_slice("\u{fc}".as_bytes());
    assert_eq!(diagnostic(&split), Diagnostic::Undecodable);
}
