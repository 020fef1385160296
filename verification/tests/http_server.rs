use http::header::{HeaderName, HeaderValue};
use http::HeaderMap;
use omicron::http_server::{
    demo_handler_args_1, demo_handler_args_2json, demo_handler_args_2query, demo_handler_args_3,
    generate_request_id, headers_have_room, http_request_handle, http_request_handle_wrap,
    register_test_endpoints, DemoHandler, DemoJsonBody, DemoQueryArgs, HttpError, Response,
    ServerConfig, MAX_HEADERS,
};

fn query() -> DemoQueryArgs {
    DemoQueryArgs { test1: "bar \"baz\"\n".to_string(), test2: Some(7) }
}

fn body() -> DemoJsonBody {
    DemoJsonBody { test1: "bar".to_string(), test2: None }
}

fn error() -> HttpError {
    HttpError {
        status_code: 404,
        external_message: "Not Found".to_string(),
        internal_message: "no route".to_string(),
    }
}

#[test]
fn servers_take_small_bodies() {
    assert_eq!(ServerConfig::new().request_body_max_bytes, 1024);
}

#[test]
fn demo_endpoints_have_paths() {
    let routes = register_test_endpoints();
    let paths: Vec<&str> = routes.iter().map(|route| route.path).collect();
    assert_eq!(
        paths,
        vec!["/testing/demo1", "/testing/demo2query", "/testing/demo2json", "/testing/demo3"]
    );
    assert_eq!(routes[2].handler, DemoHandler::Args2Json);
}

#[test]
fn strings_are_escaped_in_json() {
    let test1 = "\"\\/\u{8}\t\n\u{c}\r\0\u{1f}\u{7f}\u{e9}\u{1f600}".to_string();
    let response = demo_handler_args_2query(&DemoQueryArgs { test1, test2: None });
    assert_eq!(
        response.body,
        "{\"test1\":\"\\\"\\\\/\\b\\t\\n\\f\\r\\u0000\\u001f\u{7f}\u{e9}\u{1f600}\",\"test2\":null}"
    );
}

#[test]
fn demo_handlers_answer_with_json() {
    let response = demo_handler_args_1();
    assert_eq!(response.status, 200);
    assert_eq!(response.body, "demo_handler_args_1\n");
    assert_eq!(response.headers.len(), 1);
    assert_eq!(response.headers["content-type"], "application/json");
    let response = demo_handler_args_2query(&query());
    assert_eq!(response.body, "{\"test1\":\"bar \\\"baz\\\"\\n\",\"test2\":7}");
    assert_eq!(response.headers["content-type"], "application/json");
    let response = demo_handler_args_2json(&body());
    assert_eq!(response.body, "{\"test1\":\"bar\",\"test2\":null}");
    let response = demo_handler_args_3(query(), body());
    assert_eq!(
        response.body,
        "{\"query\":{\"test1\":\"bar \\\"baz\\\"\\n\",\"test2\":7},\
         \"json\":{\"test1\":\"bar\",\"test2\":null}}"
    );
}

#[test]
fn responses_tell_the_request_id() {
    let id = generate_request_id();
    assert_eq!(id.len(), 36);
    assert_ne!(id, generate_request_id());
    let response = http_request_handle(Ok(demo_handler_args_1()), &id).unwrap();
    assert_eq!(response.headers["x-request-id"], id.as_str());
    assert_eq!(response.headers["content-type"], "application/json");
    assert_eq!(response.body, "demo_handler_args_1\n");
    // A second id takes the place of the first.
    let response = http_request_handle(Ok(response), "other").unwrap();
    assert_eq!(response.headers.get_all("x-request-id").iter().count(), 1);
    assert_eq!(response.headers["x-request-id"], "other");
    let response = http_request_handle(Ok(response), "caf\u{e9}").unwrap();
    assert_eq!(response.headers["x-request-id"].as_bytes(), "caf\u{e9}".as_bytes());
}

#[test]
fn errors_are_answered() {
    let result = http_request_handle(Err(error()), "id");
    let message = result.as_ref().unwrap_err().external_message.clone();
    assert_eq!(message, "Not Found");
    let made = Response { status: 404, headers: HeaderMap::new(), body: message };
    let answered = http_request_handle_wrap(result, made);
    assert_eq!((answered.status, answered.body.as_str()), (404, "Not Found"));

    let made = Response { status: 500, headers: HeaderMap::new(), body: String::new() };
    let answered = http_request_handle_wrap(Ok(demo_handler_args_1()), made);
    assert_eq!(answered.status, 200);
}

#[test]
fn room_for_headers_is_limited() {
    let mut headers = HeaderMap::new();
    assert!(headers_have_room(&headers));
    for i in 0..=MAX_HEADERS {
        assert!(headers_have_room(&headers));
        let name = HeaderName::from_bytes(format!("x-{i}").as_bytes()).unwrap();
        headers.insert(name, HeaderValue::from_static("1"));
    }
    assert!(!headers_have_room(&headers));
}
