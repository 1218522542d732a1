use backtalk::json::{error_body, parse_query};
use backtalk::reply::{Body, Reply};
use backtalk::request::{normalize_path, same_text, Method, Req};
use backtalk::json::Json;
use backtalk::server::{
    http_to_req, read_body, req_from_http, req_from_message, websocket_to_req, BodyRead, Resource, Server, Verb,
};

type Handler = fn(Req) -> Reply;

fn hello_list(req: Req) -> Reply {
    req.into_reply(200, "{\"msg\":\"hi\"}".to_string())
}

fn hello_post(req: Req) -> Reply {
    let data = req.data.clone();
    req.into_reply(200, data)
}

fn hello_server() -> Server<Handler> {
    let mut server: Server<Handler> = Server::new();
    let mut resource = Resource::new();
    resource.on(Method::List, hello_list as Handler);
    resource.on(Method::Post, hello_post as Handler);
    server.mount("/hello".to_string(), resource);
    server
}

fn query(q: &str) -> Option<String> {
    queryst::parse(q).ok().map(|v| v.to_string())
}

fn error_of(msg: &str) -> String {
    format!("[\"error!\",\"{}\"]", msg)
}

fn value_of(reply: &Reply) -> String {
    reply.data().expect("a single value").clone()
}

#[test]
fn get_hello_lists() {
    let server = hello_server();
    let req = http_to_req(&Verb::Get, "/hello", query(""), Some(Vec::new()), &server).ok().unwrap();
    assert!(matches!(req.method, Method::List));
    assert_eq!(req.resource, "/hello");
    assert_eq!(req.data, "null");
    let (h, q) = server.handle(req).ok().unwrap();
    let resp = h(q).to_http();
    assert_eq!(resp.status, 200);
    match resp.body {
        Body::Once(t) => assert_eq!(t, "{\"msg\":\"hi\"}"),
        Body::Stream(_) => panic!("expected a single value"),
    }
}

#[test]
fn other_verbs_post() {
    let server = hello_server();
    for verb in [Verb::Post, Verb::Put, Verb::Delete, Verb::Patch] {
        let req = http_to_req(&verb, "/hello/", query(""), Some(b"{\"a\":1}".to_vec()), &server).ok().unwrap();
        assert!(matches!(req.method, Method::Post));
        assert_eq!(req.resource, "/hello");
        assert_eq!(req.data, "{\"a\":1}");
    }
}

#[test]
fn get_on_unknown_route_posts() {
    let server = hello_server();
    let req = http_to_req(&Verb::Get, "/missing", query(""), Some(Vec::new()), &server).ok().unwrap();
    assert!(matches!(req.method, Method::Post));
    assert_eq!(req.data, "null");
}

#[test]
fn post_bad_json_is_400() {
    let server = hello_server();
    let e = http_to_req(&Verb::Post, "/hello", query(""), Some(b"not json".to_vec()), &server).err().unwrap();
    assert_eq!(e.code(), 400);
    assert_eq!(value_of(&e), error_of("invalid JSON in request body"));
}

#[test]
fn unparsed_query_is_400() {
    let server = hello_server();
    let e = http_to_req(&Verb::Get, "/hello", None, Some(Vec::new()), &server).err().unwrap();
    assert_eq!(value_of(&e), error_of("failed to parse query string"));
    let e = http_to_req(&Verb::Get, "/hello", Some("\"s\"".to_string()), Some(Vec::new()), &server).err().unwrap();
    assert_eq!(e.code(), 400);
}

#[test]
fn empty_body_posts_null() {
    let server = hello_server();
    let req = http_to_req(&Verb::Post, "/hello", query(""), Some(Vec::new()), &server).ok().unwrap();
    assert!(matches!(req.method, Method::Post));
    assert_eq!(req.data, "null");
    let req = http_to_req(&Verb::Get, "/hello/", query(""), Some(Vec::new()), &server).ok().unwrap();
    assert!(matches!(req.method, Method::List));
    assert_eq!(req.resource, "/hello");
}

#[test]
fn missing_body_is_400() {
    let server = hello_server();
    let e = http_to_req(&Verb::Post, "/hello", query(""), None, &server).err().unwrap();
    assert_eq!(e.code(), 400);
    assert_eq!(value_of(&e), error_of("missing request body"));
}

#[test]
fn bad_unicode_is_400() {
    let server = hello_server();
    let e = http_to_req(&Verb::Post, "/hello", query(""), Some(vec![0xff, 0xfe]), &server).err().unwrap();
    assert_eq!(value_of(&e), error_of("invalid unicode in request body"));
}

#[test]
fn query_becomes_params() {
    let server = hello_server();
    let req = http_to_req(&Verb::Get, "/hello", query("a=1&b=x"), Some(Vec::new()), &server).ok().unwrap();
    let mut params = req.params.clone();
    params.sort();
    assert_eq!(params, vec![("a".to_string(), "\"1\"".to_string()), ("b".to_string(), "\"x\"".to_string())]);
}

#[test]
fn get_missing_is_404() {
    let server = hello_server();
    let req = Req::new("/missing".to_string(), Method::List, None, "null".to_string(), Vec::new());
    let e = server.handle(req).err().unwrap();
    assert_eq!(e.code(), 404);
    assert_eq!(value_of(&e), error_of("resource not found"));
    let resp = e.to_http();
    assert_eq!(resp.status, 404);
    let req = http_to_req(&Verb::Get, "/missing", query(""), Some(Vec::new()), &server).ok().unwrap();
    let e = server.handle(req).err().unwrap();
    assert_eq!(e.code(), 404);
    assert_eq!(value_of(&e), error_of("resource not found"));
}

#[test]
fn unknown_route_is_404_for_any_method() {
    let server = hello_server();
    for m in [Method::Get, Method::Post, Method::Delete, Method::Action("x".to_string())] {
        let req = Req::new("/nope".to_string(), m, None, "[1]".to_string(), Vec::new());
        assert_eq!(server.handle(req).err().unwrap().code(), 404);
    }
}

#[test]
fn unsupported_method_is_405() {
    let server = hello_server();
    let req = Req::new("/hello".to_string(), Method::Delete, None, "null".to_string(), Vec::new());
    let e = server.handle(req).err().unwrap();
    assert_eq!(e.code(), 405);
    assert_eq!(value_of(&e), error_of("method not supported"));
}

#[test]
fn mount_replaces_resource() {
    let mut server = hello_server();
    let mut resource = Resource::new();
    resource.on(Method::Delete, hello_post as Handler);
    server.mount("/hello".to_string(), resource);
    assert!(server.has_resource("/hello"));
    assert_eq!(server.route_table.len(), 1);
    let req = Req::new("/hello".to_string(), Method::List, None, "null".to_string(), Vec::new());
    assert_eq!(server.handle(req).err().unwrap().code(), 405);
    assert!(!server.has_resource("/other"));
}

#[test]
fn paths_normalize() {
    assert_eq!(normalize_path("/a/b/"), "/a/b");
    assert_eq!(normalize_path("/a/b"), "/a/b");
    assert_eq!(normalize_path(""), "/");
    assert_eq!(normalize_path("/"), "/");
    assert_eq!(normalize_path("/a//"), "/a/");
    assert_eq!(normalize_path("x/y"), "/y");
}

#[test]
fn ws_message_normalizes() {
    let req = websocket_to_req("[\"get\", {\"k\": 2}, \"7\", {\"x\": [1]}]".to_string(), "/hello").ok().unwrap();
    assert_eq!(req.resource, "/hello");
    assert!(matches!(req.method, Method::Get));
    assert_eq!(req.id, Some("7".to_string()));
    assert_eq!(req.data, "{\"x\":[1]}");
    assert_eq!(req.params, vec![("k".to_string(), "2".to_string())]);
}

#[test]
fn ws_unknown_method_is_action() {
    let req = websocket_to_req("[\"frob\", {}, null, null]".to_string(), "/r").ok().unwrap();
    assert!(matches!(req.method, Method::Action(ref a) if a == "frob"));
    assert_eq!(req.id, None);
    assert_eq!(req.data, "null");
}

#[test]
fn ws_faults_name_the_field() {
    let cases = [
        ("nope", "could not parse input as json"),
        ("{}", "was not array"),
        ("[]", "missing method in request"),
        ("[1, {}, null, 0]", "method must be a string"),
        ("[\"get\"]", "missing params in request"),
        ("[\"get\", 3, null, 0]", "params must be an object"),
        ("[\"get\", {}]", "missing id in request"),
        ("[\"get\", {}, 5, 0]", "id must be a string or null"),
        ("[\"get\", {}, null]", "missing data in request"),
    ];
    for (msg, why) in cases {
        let e = websocket_to_req(msg.to_string(), "/r").err().unwrap();
        assert_eq!(e.code(), 400);
        assert_eq!(value_of(&e), error_of(why), "for {}", msg);
    }
}

#[test]
fn method_names() {
    assert!(matches!(Method::from_str("list".to_string()), Method::List));
    assert!(matches!(Method::from_str("listen".to_string()), Method::Listen));
    assert!(matches!(Method::from_str("put".to_string()), Method::Put));
    assert!(matches!(Method::from_str("delete".to_string()), Method::Delete));
    assert!(matches!(Method::from_str("post".to_string()), Method::Post));
    assert!(matches!(Method::from_str("List".to_string()), Method::Action(_)));
}

#[test]
fn json_values_carried_as_text() {
    let req = websocket_to_req("[\"get\", {}, null, 12]".to_string(), "/r").ok().unwrap();
    assert_eq!(req.data, "12");
    let req = websocket_to_req("[\"get\", {}, null, [1, \"b\", [2]]]".to_string(), "/r").ok().unwrap();
    assert_eq!(req.data, "[1,\"b\",[2]]");
    let req = websocket_to_req("[\"get\", {}, null, true]".to_string(), "/r").ok().unwrap();
    assert_eq!(req.data, "true");
    assert!(websocket_to_req("[\"get\", {}, null, {]".to_string(), "/r").is_err());
}

#[test]
fn error_bodies_are_quoted() {
    assert_eq!(error_body("x"), "[\"error!\",\"x\"]");
    assert_eq!(error_body("\\\n\t\u{1}\u{1f}\u{8}\u{c}\r"), "[\"error!\",\"\\\\\\n\\t\\u0001\\u001f\\b\\f\\r\"]");
    assert_eq!(error_body("a\"b"), "[\"error!\",\"a\\\"b\"]");
}

#[test]
fn query_and_text_helpers() {
    assert_eq!(parse_query(query("a=1")), Some(vec![("a".to_string(), "\"1\"".to_string())]));
    assert_eq!(parse_query(Some("null".to_string())), Some(Vec::new()));
    assert_eq!(parse_query(Some("[1]".to_string())), None);
    assert_eq!(parse_query(None), None);
    assert!(same_text("ab", "ab"));
    assert!(!same_text("ab", "abc"));
    assert!(!same_text("ab", "ac"));
}

#[test]
fn bodies_read() {
    assert!(matches!(read_body(None), BodyRead::Missing));
    assert!(matches!(read_body(Some(vec![0xc3])), BodyRead::NotText));
    assert!(matches!(read_body(Some(b"{".to_vec())), BodyRead::NotJson));
    assert!(matches!(read_body(Some(Vec::new())), BodyRead::Payload(ref d) if d == "null"));
    assert!(matches!(read_body(Some(b" [1] ".to_vec())), BodyRead::Payload(ref d) if d == " [1] "));
}

#[test]
fn request_from_read_parts() {
    let server = hello_server();
    let params = Some(vec![("a".to_string(), "1".to_string())]);
    let q = req_from_http(&Verb::Get, "/hello/", BodyRead::Payload("5".to_string()), params.clone(), &server).ok().unwrap();
    assert!(matches!(q.method, Method::List));
    assert_eq!(q.data, "null");
    assert_eq!(q.params, params.clone().unwrap());
    let q = req_from_http(&Verb::Put, "/hello", BodyRead::Payload("5".to_string()), params.clone(), &server).ok().unwrap();
    assert!(matches!(q.method, Method::Post));
    assert_eq!(q.data, "5");
    let e = req_from_http(&Verb::Get, "/hello", BodyRead::Payload("5".to_string()), None, &server).err().unwrap();
    assert_eq!(value_of(&e), error_of("failed to parse query string"));
    let e = req_from_http(&Verb::Get, "/hello", BodyRead::NotJson, params, &server).err().unwrap();
    assert_eq!(e.code(), 400);
}

#[test]
fn request_from_read_message() {
    let items = vec!["\"m\"".to_string(), "{}".to_string(), "null".to_string(), "[2]".to_string()];
    let heads = vec![Some(Json::Str("listen".to_string())), Some(Json::Object(Vec::new())), Some(Json::Null)];
    let q = req_from_message(Some(Json::Array(items.clone())), heads, "/r").ok().unwrap();
    assert!(matches!(q.method, Method::Listen));
    assert_eq!(q.id, None);
    assert_eq!(q.data, "[2]");
    let heads = vec![Some(Json::Str("get".to_string())), Some(Json::Null)];
    let e = req_from_message(Some(Json::Array(items)), heads, "/r").err().unwrap();
    assert_eq!(value_of(&e), error_of("params must be an object"));
    let e = req_from_message(Some(Json::Bool(true)), Vec::new(), "/r").err().unwrap();
    assert_eq!(value_of(&e), error_of("was not array"));
}
