use gerust::message::{
    contains_method, find_header, join_methods, Header, Method, Request, ResponseBuilder,
};

fn field(name: &str, value: &str) -> Header {
    Header { name: name.to_string(), value: value.to_string() }
}

#[test]
fn methods_are_named_and_compared() {
    assert_eq!(Method::Get.as_str(), "GET");
    assert_eq!(Method::Options.as_str(), "OPTIONS");
    assert_eq!(Method::Extension("PURGE".to_string()).as_str(), "PURGE");
    assert!(Method::Get.same(&Method::Get));
    assert!(!Method::Get.same(&Method::Head));
    assert!(Method::Extension("PURGE".to_string()).same(&Method::Extension("PURGE".to_string())));
    assert!(!Method::Extension("PURGE".to_string()).same(&Method::Extension("purge".to_string())));
    assert!(!Method::Extension("GET".to_string()).same(&Method::Get));
}

#[test]
fn methods_are_looked_up_and_joined() {
    let list = vec![Method::Get, Method::Head, Method::Extension("PURGE".to_string())];
    assert!(contains_method(&list, &Method::Head));
    assert!(contains_method(&list, &Method::Extension("PURGE".to_string())));
    assert!(!contains_method(&list, &Method::Post));
    assert!(!contains_method(&Vec::new(), &Method::Get));
    assert_eq!(join_methods(&list), "GET, HEAD, PURGE");
    assert_eq!(join_methods(&vec![Method::Put]), "PUT");
    assert_eq!(join_methods(&Vec::new()), "");
}

#[test]
fn the_first_field_of_a_name_is_found_whatever_its_case() {
    let headers = vec![
        field("Host", "example.org"),
        field("accept", "text/html"),
        field("Accept", "text/plain"),
    ];
    assert_eq!(find_header(&headers, "Accept"), Some("text/html"));
    assert_eq!(find_header(&headers, "ACCEPT"), Some("text/html"));
    assert_eq!(find_header(&headers, "host"), Some("example.org"));
    assert_eq!(find_header(&headers, "Accep"), None);
    assert_eq!(find_header(&headers, "Accept-Language"), None);
    assert_eq!(find_header(&Vec::new(), "Accept"), None);
}

#[test]
fn requests_are_built_field_by_field() {
    let request = Request::new(Method::Put, "/orders/1")
        .header("Content-Type", "application/json")
        .header("If-Match", "*");
    assert!(request.method.same(&Method::Put));
    assert_eq!(request.uri, "/orders/1");
    assert_eq!(request.headers.len(), 2);
    assert_eq!(request.header_named("if-match"), Some("*"));
    assert_eq!(request.header_named("Accept"), None);
    assert!(request.body.is_empty());
    assert_eq!(request.received_at, 0);
}

#[test]
fn a_builder_stands_for_a_head() {
    let mut builder = ResponseBuilder::new();
    builder.header("Allow", "GET");
    builder.status(405);
    builder.header("X-Second", "2");
    assert_eq!(builder.header_named("allow"), Some("GET"));
    let head = builder.head();
    assert_eq!(head.status, 405);
    assert_eq!(head.headers.len(), 2);
    assert_eq!(head.headers[0].name, "Allow");
    assert_eq!(head.headers[1].value, "2");
    assert_eq!(ResponseBuilder::new().head().status, 200);
}

#[test]
fn a_name_gives_the_method_that_bears_it() {
    assert!(Method::from_name("GET").same(&Method::Get));
    assert!(Method::from_name("HEAD").same(&Method::Head));
    assert!(Method::from_name("POST").same(&Method::Post));
    assert!(Method::from_name("PUT").same(&Method::Put));
    assert!(Method::from_name("DELETE").same(&Method::Delete));
    assert!(Method::from_name("TRACE").same(&Method::Trace));
    assert!(Method::from_name("CONNECT").same(&Method::Connect));
    assert!(Method::from_name("OPTIONS").same(&Method::Options));
    assert!(Method::from_name("PATCH").same(&Method::Patch));
    assert!(Method::from_name("PURGE").same(&Method::Extension("PURGE".to_string())));
    assert!(Method::from_name("get").same(&Method::Extension("get".to_string())));
    assert!(Method::from_name("").same(&Method::Extension(String::new())));
    assert!(!Method::from_name("GET").same(&Method::Extension("GET".to_string())));
}

#[test]
fn the_name_of_a_method_gives_the_method_back() {
    let methods = [
        Method::Get,
        Method::Head,
        Method::Post,
        Method::Put,
        Method::Delete,
        Method::Trace,
        Method::Connect,
        Method::Options,
        Method::Patch,
        Method::Extension("LINK".to_string()),
    ];
    for method in methods.iter() {
        assert!(Method::from_name(method.as_str()).same(method));
        assert_eq!(Method::from_name(method.as_str()).as_str(), method.as_str());
    }
}
