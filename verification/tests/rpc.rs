use uwe::jsonrpc::{
    into_response, not_found, Broker, Error, JsonRpcRequest, JsonRpcResponse, Service,
    INTERNAL_ERROR, INVALID_PARAMS, METHOD_NOT_FOUND, PARSE_ERROR,
};
use uwe::jsonrpc::{project_call, ProjectCall};
use uwe::render::{is_error_file, sitemap_files};
use uwe::text::decimal_of;

fn request(method: &str, params: Option<&str>) -> JsonRpcRequest {
    JsonRpcRequest {
        jsonrpc: "2.0".to_string(),
        id: "7".to_string(),
        method: method.to_string(),
        params: params.map(|p| p.to_string()),
    }
}

#[test]
fn numbers_are_written_in_decimal() {
    assert_eq!(decimal_of(0), "0");
    assert_eq!(decimal_of(9), "9");
    assert_eq!(decimal_of(10), "10");
    assert_eq!(decimal_of(1234567890), "1234567890");
    assert_eq!(decimal_of(u64::MAX), "18446744073709551615");
}

#[test]
fn sitemaps_list_pages_in_windows() {
    let files: Vec<String> = ["a.md", "404.html", "b.md", "c.md", "d.md"].iter().map(|s| s.to_string()).collect();
    let maps = sitemap_files(2, &files);
    assert_eq!(maps.len(), 3);
    assert_eq!(maps[0].href, "1.xml");
    assert_eq!(maps[0].files, vec!["a.md".to_string()]);
    assert_eq!(maps[1].href, "2.xml");
    assert_eq!(maps[1].files, vec!["b.md".to_string(), "c.md".to_string()]);
    assert_eq!(maps[2].href, "3.xml");
    assert_eq!(maps[2].files, vec!["d.md".to_string()]);
    assert!(sitemap_files(10, &vec![]).is_empty());
    assert!(is_error_file("/site/404.md"));
    assert!(!is_error_file("/site/4040.md"));
}

#[test]
fn error_messages_and_codes() {
    let e = Error::MethodNotFound { name: "open".to_string(), id: "\"x\"".to_string() };
    assert_eq!(e.message(), "JSON-RPC service method open not found (id: \"x\")");
    assert_eq!(e.code(), METHOD_NOT_FOUND);
    assert_eq!(Error::InvalidParams.message(), "Parameters are invalid");
    assert_eq!(Error::InvalidParams.code(), INTERNAL_ERROR);
    assert_eq!(Error::Json("eof".to_string()).code(), PARSE_ERROR);
    assert_eq!(Error::Boxed("io".to_string()).message(), "io");
}

#[test]
fn responses_echo_the_request_id() {
    let req = request("open", None);
    let r = JsonRpcResponse::response(&req, Some("true".to_string()));
    assert_eq!(r.jsonrpc, "2.0");
    assert_eq!(r.id, "7");
    assert_eq!(r.result, Some("true".to_string()));
    assert!(JsonRpcResponse::reply(&req).result.is_none());
    let d = JsonRpcResponse::default();
    assert_eq!(d.id, "null");
    let de = d.error.unwrap();
    assert_eq!(de.code, 0);
    assert_eq!(de.message, "Unknown service method");
    assert_eq!(JsonRpcResponse::for_id(42).id, "42");
    let err = into_response(&req, Error::Json("bad".to_string())).error.unwrap();
    assert_eq!(err.code, PARSE_ERROR);
    assert_eq!(err.message, "bad");
}

#[test]
fn requests_match_methods_and_give_params_once() {
    let mut req = request("open", Some("[1]"));
    assert!(req.matches("open"));
    assert!(!req.matches("close"));
    assert_eq!(req.method(), "open");
    assert_eq!(req.id(), "7");
    assert!(matches!(req.take_params(), Ok(p) if p == "[1]"));
    assert!(matches!(req.take_params(), Err(Error::InvalidParams)));
}

struct Echo;
impl Service for Echo {
    fn handle(&self, req: &mut JsonRpcRequest) -> Result<Option<JsonRpcResponse>, Error> {
        if req.matches("echo") {
            Ok(Some(JsonRpcResponse::response(req, req.params.clone())))
        } else {
            Ok(None)
        }
    }
}

struct Fails;
impl Service for Fails {
    fn handle(&self, req: &mut JsonRpcRequest) -> Result<Option<JsonRpcResponse>, Error> {
        if req.matches("fail") {
            Err(Error::Boxed("failed".to_string()))
        } else {
            Ok(None)
        }
    }
}

struct TakesParams;
impl Service for TakesParams {
    fn handle(&self, req: &mut JsonRpcRequest) -> Result<Option<JsonRpcResponse>, Error> {
        let _ = req.take_params();
        Ok(None)
    }
}

#[test]
fn the_broker_hands_on_the_request_as_a_service_left_it() {
    let takes: Box<dyn Service> = Box::new(TakesParams);
    let echo: Box<dyn Service> = Box::new(Echo);
    let services = vec![&takes, &echo];
    let mut req = request("echo", Some("\"hi\""));
    let r = Broker.handle(&services, &mut req).unwrap();
    assert_eq!(r.result, None);
    assert_eq!(r.id, "7");
    assert!(req.params.is_none());
}

#[test]
fn the_broker_asks_each_service_in_turn() {
    let echo: Box<dyn Service> = Box::new(Echo);
    let fails: Box<dyn Service> = Box::new(Fails);
    let services = vec![&echo, &fails];
    let mut req = request("echo", Some("\"hi\""));
    let r = Broker.handle(&services, &mut req).unwrap();
    assert_eq!(r.result, Some("\"hi\"".to_string()));
    let mut req = request("fail", None);
    assert!(matches!(Broker.handle(&services, &mut req), Err(Error::Boxed(m)) if m == "failed"));
    let mut req = request("missing", None);
    let r = Broker.handle(&services, &mut req).unwrap();
    let e = r.error.unwrap();
    assert_eq!(e.code, METHOD_NOT_FOUND);
    assert_eq!(e.message, "JSON-RPC service method missing not found (id: 7)");
    assert_eq!(not_found(&req).id, "7");
}

use uwe::error::Error as HostError;
use uwe::ids::{generate_id, hex_of, id_from_bytes};
use uwe::json_path::{find_field, find_path, merge_objects, parse_index, sort, Json};

fn obj(entries: Vec<(&str, Json)>) -> Json {
    Json::Object(entries.into_iter().map(|(k, v)| (k.to_string(), v)).collect())
}

#[test]
fn paths_look_into_objects_and_arrays() {
    let doc = obj(vec![
        ("title", Json::Str("Home".to_string())),
        ("authors", Json::Array(vec![obj(vec![("name", Json::Str("Ann".to_string()))]), Json::Null])),
        ("draft", Json::Null),
    ]);
    assert!(matches!(find_path("title", &doc), Some(Json::Str(s)) if s == "Home"));
    assert!(matches!(find_path("authors.0.name", &doc), Some(Json::Str(s)) if s == "Ann"));
    assert!(matches!(find_path("authors.+0.name", &doc), Some(Json::Str(s)) if s == "Ann"));
    assert!(find_path("authors.1.name", &doc).is_none());
    assert!(find_path("authors.2", &doc).is_none());
    assert!(find_path("draft.x", &doc).is_none());
    assert!(matches!(find_path("draft", &doc), Some(Json::Null)));
    assert!(find_path("missing", &doc).is_none());
    assert!(find_path("0", &Json::Array(vec![Json::Bool(true)])).is_none());
    assert!(matches!(find_field("0", &Json::Array(vec![Json::Bool(true)])), Some(Json::Bool(true))));
    assert!(find_field("x", &Json::Bool(true)).is_none());
}

#[test]
fn a_path_looks_up_its_fields_one_after_another() {
    let doc = obj(vec![("a", obj(vec![("b", Json::Array(vec![Json::Bool(false), Json::Bool(true)]))]))]);
    let a = find_field("a", &doc).unwrap();
    let b = find_field("b", a).unwrap();
    assert!(matches!(find_field("1", b), Some(Json::Bool(true))));
    assert!(matches!(find_path("a.b.1", &doc), Some(Json::Bool(true))));
    assert!(find_path("a.x.1", &doc).is_none());
    assert!(find_path("a.b", &Json::Array(vec![])).is_none());
}

#[test]
fn indices_read_like_usize() {
    assert_eq!(parse_index("12"), Some(12));
    assert_eq!(parse_index("+3"), Some(3));
    assert_eq!(parse_index("+"), None);
    assert_eq!(parse_index(""), None);
    assert_eq!(parse_index("-1"), None);
    assert_eq!(parse_index("1a"), None);
    assert_eq!(parse_index("99999999999999999999999"), None);
}

#[test]
fn ids_are_hexadecimal_bytes() {
    assert_eq!(hex_of(0), "0");
    assert_eq!(hex_of(10), "a");
    assert_eq!(hex_of(255), "ff");
    assert_eq!(hex_of(16), "10");
    assert_eq!(id_from_bytes(&vec![1, 171, 15]), "1abf");
    assert_eq!(generate_id(0), "");
    assert_eq!(generate_id(-3), "");
    let id = generate_id(16);
    assert!(id.len() >= 16 && id.len() <= 32);
    assert!(id.chars().all(|c| c.is_ascii_hexdigit() && !c.is_ascii_uppercase()));
}

#[test]
fn host_errors_have_messages() {
    assert_eq!(HostError::MonitorTimeout(300).message(), "Certificate status monitor exceeded timeout period of 300 seconds");
    assert_eq!(HostError::UnknownDnsRecordType("X".to_string()).message(), "Unknown record type X");
    assert_eq!(HostError::NoCertificateArn.message(), "Unable to get certificate ARN from response");
    assert_eq!(
        HostError::DnsValidationTimeout(30).message(),
        "Unable to get DNS record for certificate validation in timeout period of 30 seconds"
    );
}

#[test]
fn the_project_service_takes_the_first_parameter() {
    let params = vec!["\"a\"".to_string(), "\"b\"".to_string()];
    assert!(matches!(project_call("project.find", &params), Ok(Some(ProjectCall::Find(p))) if p == "\"a\""));
    assert!(matches!(project_call("project.create", &params), Ok(Some(ProjectCall::Create(p))) if p == "\"a\""));
    assert!(matches!(project_call("project.add", &params), Ok(Some(ProjectCall::Add(_)))));
    assert!(matches!(project_call("project.remove", &params), Ok(Some(ProjectCall::Remove(_)))));
    assert!(matches!(project_call("project.list", &vec![]), Ok(Some(ProjectCall::List))));
    assert!(matches!(project_call("project.open", &params), Ok(None)));
    assert!(matches!(
        project_call("project.find", &vec![]),
        Err(Error::ParamsExpected(m)) if m == "Method expects parameters"
    ));
    let req = request("project.add", Some("[]"));
    let e = project_call("project.add", &vec![]).unwrap_err();
    let r = into_response(&req, e).error.unwrap();
    assert_eq!(r.code, INVALID_PARAMS);
    assert_eq!(r.message, "Method expects parameters");
}

#[test]
fn sorting_orders_by_key_and_keeps_ties_in_order() {
    let mut keys: Vec<String> = vec!["b", "a", "c", "a", "", "ab"].into_iter().map(String::from).collect();
    let mut values = vec![0, 1, 2, 3, 4, 5];
    sort(&mut keys, &mut values);
    assert_eq!(keys, vec!["", "a", "a", "ab", "b", "c"]);
    assert_eq!(values, vec![4, 1, 3, 5, 0, 2]);
    let mut none: Vec<String> = vec![];
    let mut empty: Vec<u8> = vec![];
    sort(&mut none, &mut empty);
    assert!(empty.is_empty());
    let mut wide: Vec<String> = vec!["é", "z", "Z"].into_iter().map(String::from).collect();
    let mut idx = vec![0, 1, 2];
    sort(&mut wide, &mut idx);
    assert_eq!(idx, vec![2, 1, 0]);
}

#[test]
fn merging_lays_the_fields_of_one_object_over_another() {
    let base = obj(vec![("title", Json::Str("Home".to_string())), ("draft", Json::Bool(true))]);
    let from = obj(vec![("draft", Json::Bool(false)), ("lang", Json::Str("en".to_string()))]);
    let merged = merge_objects(base, from);
    match merged {
        Json::Object(entries) => {
            let keys: Vec<&str> = entries.iter().map(|(k, _)| k.as_str()).collect();
            assert_eq!(keys, vec!["title", "draft", "lang"]);
            assert!(matches!(entries[1].1, Json::Bool(false)));
            assert!(matches!(&entries[2].1, Json::Str(s) if s == "en"));
        }
        _ => panic!("not an object"),
    }
    assert!(matches!(merge_objects(obj(vec![]), obj(vec![])), Json::Object(e) if e.is_empty()));
}
