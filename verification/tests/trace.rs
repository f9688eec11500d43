use hyper::header::HeaderValue;
use hyper::{Body, Request};
use rpc_intercept::trace::read_text;
use rpc_intercept::{extract, trace_id_or_fresh, Header, Options};
use uuid::{Uuid, Variant, Version};

fn request_with(name: &str, value: &[u8]) -> Request<Body> {
    let mut req = Request::builder().uri("/Greeter/SayHello").body(Body::empty()).unwrap();
    req.headers_mut().insert(
        hyper::header::HeaderName::from_bytes(name.as_bytes()).unwrap(),
        HeaderValue::from_bytes(value).unwrap(),
    );
    req
}

fn bare_request() -> Request<Body> {
    Request::builder().uri("/Greeter/SayHello").body(Body::empty()).unwrap()
}

fn assert_random_id(id: &str) {
    assert_eq!(id.len(), 36);
    for (i, c) in id.chars().enumerate() {
        if i == 8 || i == 13 || i == 18 || i == 23 {
            assert_eq!(c, '-');
        } else {
            assert!(c.is_ascii_digit() || ('a'..='f').contains(&c));
        }
    }
    let parsed = Uuid::parse_str(id).unwrap();
    assert_eq!(parsed.get_version(), Some(Version::Random));
    assert_eq!(parsed.get_variant(), Variant::RFC4122);
}

#[test]
fn default_header_is_x_trace_id() {
    assert_eq!(Header::default().0, "x-trace-id");
    let options = Options::default();
    assert_eq!(options.header.0, "x-trace-id");
    assert!(!options.verbose_name);
}

#[test]
fn present_header_is_the_trace_id() {
    let req = request_with("x-trace-id", b"abc-123");
    assert_eq!(extract(&req, &Header::default()), "abc-123");
}

#[test]
fn absent_header_gives_a_random_id() {
    let id = extract(&bare_request(), &Header::default());
    assert_random_id(&id);
}

#[test]
fn random_ids_differ_between_calls() {
    let req = bare_request();
    let first = extract(&req, &Header::default());
    let second = extract(&req, &Header::default());
    assert_ne!(first, second);
}

#[test]
fn unreadable_header_gives_a_random_id() {
    let req = request_with("x-trace-id", &[b'a', 0xff, b'b']);
    let id = extract(&req, &Header::default());
    assert_random_id(&id);
}

#[test]
fn configured_header_is_consulted() {
    let req = request_with("x-request-id", b"req-77");
    assert_eq!(extract(&req, &Header("x-request-id".to_string())), "req-77");
    assert_random_id(&extract(&req, &Header::default()));
}

#[test]
fn header_name_is_matched_without_regard_to_case() {
    let req = request_with("x-trace-id", b"abc-123");
    assert_eq!(extract(&req, &Header("X-Trace-Id".to_string())), "abc-123");
}

#[test]
fn header_name_that_is_no_name_gives_a_random_id() {
    let req = request_with("x-trace-id", b"abc-123");
    assert_random_id(&extract(&req, &Header("x trace id".to_string())));
    assert_random_id(&extract(&req, &Header(String::new())));
}

#[test]
fn first_of_several_values_is_taken() {
    let mut req = request_with("x-trace-id", b"first");
    req.headers_mut().append("x-trace-id", HeaderValue::from_static("second"));
    assert_eq!(extract(&req, &Header::default()), "first");
}

#[test]
fn empty_header_value_is_an_empty_trace_id() {
    let req = request_with("x-trace-id", b"");
    assert_eq!(extract(&req, &Header::default()), "");
}

#[test]
fn found_text_is_kept() {
    assert_eq!(trace_id_or_fresh(Some(b"abc-123".to_vec())), "abc-123");
    assert_eq!(trace_id_or_fresh(Some(b"a b\tc~".to_vec())), "a b\tc~");
}

#[test]
fn nothing_found_gives_a_random_id() {
    assert_random_id(&trace_id_or_fresh(None));
}

#[test]
fn found_bytes_that_are_no_text_give_a_random_id() {
    assert_random_id(&trace_id_or_fresh(Some(vec![0x80])));
    assert_random_id(&trace_id_or_fresh(Some(vec![b'a', 127])));
    assert_random_id(&trace_id_or_fresh(Some(vec![b'a', 31])));
}

#[test]
fn visible_bytes_read_as_text() {
    assert_eq!(read_text(&b"abc-123".to_vec()), Some("abc-123".to_string()));
    assert_eq!(read_text(&vec![32, 126, 9]), Some(" ~\t".to_string()));
    assert_eq!(read_text(&Vec::new()), Some(String::new()));
}

#[test]
fn invisible_bytes_do_not_read_as_text() {
    assert_eq!(read_text(&vec![b'a', 0]), None);
    assert_eq!(read_text(&vec![31]), None);
    assert_eq!(read_text(&vec![127]), None);
    assert_eq!(read_text(&vec![200, b'a']), None);
    assert_eq!(read_text(&vec![b'\n']), None);
}
