use gerust::exchange::{Exchange, Phase};
use gerust::flow::{
    ChunkSink, DelayedResponse, Ending, Flow, HttpFlow, Outcomes, ResourceWrapper, Response,
};
use gerust::graph::Node;
use gerust::media::MediaType;
use gerust::message::{Method, Request};
use gerust::resource::{AcceptedPair, Callback, ProvidedPair, Resource};

type Input = fn(&mut Probe, &mut Request, &mut DelayedResponse);
type Output = fn(&mut Probe, &mut DelayedResponse);

/// A resource whose every answer can be set.
#[derive(Debug, Clone)]
struct Probe {
    exists: bool,
    available: bool,
    authorized: bool,
    forbidden: bool,
    allow_missing_post: bool,
    malformed: bool,
    uri_too_long: bool,
    known_content_type: bool,
    valid_content_headers: bool,
    max_length: u64,
    allowed: Vec<&'static str>,
    delete_enacted: bool,
    delete_completed: bool,
    post_is_create: bool,
    process_post: bool,
    announce_entity: bool,
    provided: Vec<&'static str>,
    accepted: Vec<&'static str>,
    charsets: Vec<&'static str>,
    languages: Vec<&'static str>,
    encodings: Vec<&'static str>,
    conflict: bool,
    multiple_choices: bool,
    previously_existed: bool,
    moved_permanently: Option<&'static str>,
    moved_temporarily: Option<&'static str>,
    last_modified: Option<u64>,
    etag: Option<&'static str>,
    checksum: Option<bool>,
    order: Option<String>,
    started_when_produced: Option<bool>,
    started_when_accepted: Option<bool>,
}

impl Default for Probe {
    fn default() -> Probe {
        Probe {
            exists: true,
            available: true,
            authorized: true,
            forbidden: false,
            allow_missing_post: false,
            malformed: false,
            uri_too_long: false,
            known_content_type: true,
            valid_content_headers: true,
            max_length: u64::MAX,
            allowed: vec!["GET", "HEAD"],
            delete_enacted: false,
            delete_completed: true,
            post_is_create: false,
            process_post: false,
            announce_entity: false,
            provided: vec!["text/html"],
            accepted: vec![],
            charsets: vec![],
            languages: vec![],
            encodings: vec![],
            conflict: false,
            multiple_choices: false,
            previously_existed: false,
            moved_permanently: None,
            moved_temporarily: None,
            last_modified: None,
            etag: None,
            checksum: None,
            order: None,
            started_when_produced: None,
            started_when_accepted: None,
        }
    }
}

fn method(name: &str) -> Method {
    Method::from_name(name)
}

impl Probe {
    fn write(&mut self, response: &mut DelayedResponse) {
        self.started_when_produced = Some(response.is_started());
        response.response_body().send(b"Hello, ".to_vec());
        response.response_body().send(b"World!".to_vec());
    }

    fn read(&mut self, request: &mut Request, response: &mut DelayedResponse) {
        self.started_when_accepted = Some(response.is_started());
        let body: Vec<u8> = request.take_body().into_iter().flatten().collect();
        self.order = Some(String::from_utf8(body).unwrap());
    }
}

impl Resource for Probe {
    type Input = Input;
    type Output = Output;

    fn keeps(&self, _callback: Callback) -> bool {
        false
    }

    fn resource_exists(&self) -> bool {
        self.exists
    }

    fn service_available(&self) -> bool {
        self.available
    }

    fn is_authorized(&self, _authorization_header: Option<&str>) -> bool {
        self.authorized
    }

    fn forbidden(&self) -> bool {
        self.forbidden
    }

    fn allow_missing_post(&self) -> bool {
        self.allow_missing_post
    }

    fn malformed_request(&self) -> bool {
        self.malformed
    }

    fn uri_too_long(&self, _uri: &str) -> bool {
        self.uri_too_long
    }

    fn known_content_type(&self, _content_type: &str) -> bool {
        self.known_content_type
    }

    fn valid_content_headers(&self, _content_headers: &Vec<gerust::message::Header>) -> bool {
        self.valid_content_headers
    }

    fn valid_entity_length(&self, len: u64) -> bool {
        len <= self.max_length
    }

    fn allowed_methods(&self) -> Vec<Method> {
        self.allowed.iter().map(|m| method(m)).collect()
    }

    fn delete_method(&self) -> bool {
        self.delete_enacted
    }

    fn delete_completed(&self) -> bool {
        self.delete_completed
    }

    fn post_is_create(&self) -> bool {
        self.post_is_create
    }

    fn create_path(&self) -> String {
        format!("orders/{}", self.order.as_ref().unwrap())
    }

    fn process_post(&mut self, response: &mut DelayedResponse) -> bool {
        if self.announce_entity {
            response.builder().header("Content-Type", "text/html");
        }
        self.process_post
    }

    fn content_types_provided(&self) -> Vec<ProvidedPair<Output>> {
        self.provided
            .iter()
            .map(|m| ProvidedPair(MediaType::parse(m).unwrap(), Probe::write as Output))
            .collect()
    }

    fn content_types_accepted(&self) -> Vec<AcceptedPair<Input>> {
        self.accepted
            .iter()
            .map(|m| AcceptedPair(MediaType::parse(m).unwrap(), Probe::read as Input))
            .collect()
    }

    fn charsets_provided(&self) -> Vec<String> {
        self.charsets.iter().map(|s| s.to_string()).collect()
    }

    fn languages_provided(&self) -> Vec<String> {
        self.languages.iter().map(|s| s.to_string()).collect()
    }

    fn encodings_provided(&self) -> Vec<String> {
        self.encodings.iter().map(|s| s.to_string()).collect()
    }

    fn is_conflict(&self) -> bool {
        self.conflict
    }

    fn multiple_choices(&self) -> bool {
        self.multiple_choices
    }

    fn previously_existed(&self) -> bool {
        self.previously_existed
    }

    fn moved_permanently(&self) -> Option<String> {
        self.moved_permanently.map(|s| s.to_string())
    }

    fn moved_temporarily(&self) -> Option<String> {
        self.moved_temporarily.map(|s| s.to_string())
    }

    fn last_modified(&self) -> Option<u64> {
        self.last_modified
    }

    fn generate_etag(&self) -> Option<String> {
        self.etag.map(|s| s.to_string())
    }

    fn validate_content_checksum(&self) -> Option<bool> {
        self.checksum
    }

    fn accept(&mut self, handler: &Input, request: &mut Request, response: &mut DelayedResponse) {
        handler(self, request, response)
    }

    fn produce(&mut self, handler: &Output, response: &mut DelayedResponse) {
        handler(self, response)
    }
}

fn run(resource: Probe, request: Request) -> Response {
    let mut flow = HttpFlow::new();
    flow.execute(resource, request)
}

fn get() -> Request {
    Request::new(Method::Get, "/")
}

fn header<'a>(response: &'a Response, name: &str) -> Option<&'a str> {
    response
        .head
        .headers
        .iter()
        .find(|h| h.name.eq_ignore_ascii_case(name))
        .map(|h| h.value.as_str())
}

fn body(response: &Response) -> Vec<u8> {
    response.body.iter().flatten().copied().collect()
}

fn last(response: &Response) -> Node {
    *response.trace.last().unwrap()
}

/// The way of a GET without header fields to a resource that exists.
const PLAIN_GET: [Node; 24] = [
    Node::B13, Node::B12, Node::B11, Node::B10, Node::B9, Node::B8, Node::B7, Node::B6, Node::B5,
    Node::B4, Node::B3, Node::C3, Node::D4, Node::E5, Node::F6, Node::G7, Node::G8, Node::H10,
    Node::I12, Node::L13, Node::M16, Node::N16, Node::O16, Node::O18,
];

#[test]
fn default_resource_answers_get_with_the_first_media_type() {
    let resource = Probe { provided: vec!["application/json", "text/html"], ..Probe::default() };
    let response = run(resource, get());
    assert_eq!(response.status(), 200);
    assert_eq!(header(&response, "Content-Type"), Some("application/json"));
    assert_eq!(body(&response), b"Hello, World!");
    assert_eq!(response.ending, Ending::Served);
    assert_eq!(response.trace[..], PLAIN_GET[..]);
}

#[test]
fn get_without_accept_is_served_as_html() {
    let response = run(Probe::default(), get());
    assert_eq!(response.status(), 200);
    assert_eq!(header(&response, "Content-Type"), Some("text/html"));
    assert_eq!(response.body, vec![b"Hello, ".to_vec(), b"World!".to_vec()]);
}

#[test]
fn get_for_json_from_html_only_is_not_acceptable() {
    let response = run(Probe::default(), get().header("Accept", "application/json"));
    assert_eq!(response.status(), 406);
    assert!(response.body.is_empty());
    assert_eq!(response.halted(), Some(406));
    assert_eq!(last(&response), Node::C4);
}

#[test]
fn post_to_a_read_only_resource_is_not_allowed() {
    let request = Request::new(Method::Post, "/").header("Content-Type", "application/json");
    let response = run(Probe::default(), request);
    assert_eq!(response.status(), 405);
    assert_eq!(header(&response, "Allow"), Some("GET, HEAD"));
    assert!(response.body.is_empty());
    assert_eq!(last(&response), Node::B10);
}

#[test]
fn post_that_creates_answers_with_the_place() {
    let resource = Probe {
        allowed: vec!["GET", "HEAD", "PUT", "POST"],
        post_is_create: true,
        process_post: true,
        accepted: vec!["application/json"],
        ..Probe::default()
    };
    let mut request = Request::new(Method::Post, "/orders")
        .header("Content-Type", "application/json")
        .header("Content-Length", "2");
    request.body = vec![b"4".to_vec(), b"2".to_vec()];
    let response = run(resource, request);
    assert_eq!(response.status(), 201);
    assert_eq!(header(&response, "Location"), Some("orders/42"));
    assert!(response.body.is_empty());
    assert_eq!(response.ending, Ending::Done);
    assert_eq!(last(&response), Node::N11);
}

#[test]
fn head_is_answered_without_a_body() {
    let request = Request::new(Method::Head, "/").header("Content-Type", "text/plain");
    let response = run(Probe::default(), request);
    assert_eq!(response.status(), 200);
    assert!(response.body.is_empty());
    assert_eq!(response.ending, Ending::Served);
    assert_eq!(last(&response), Node::O18);
    assert_eq!(header(&response, "Content-Type"), Some("text/html"));
}

#[test]
fn the_output_handler_of_a_head_does_not_run() {
    let mut exchange = Exchange::begin(Probe::default(), Request::new(Method::Head, "/"));
    while !exchange.is_over() {
        exchange.step();
    }
    assert_eq!(exchange.wrapper().resource.started_when_produced, None);
    assert!(exchange.wrapper().response.is_started());
    assert_eq!(exchange.ending(), Some(Ending::Served));
    let response = exchange.finish();
    assert_eq!(response.status(), 200);
    assert!(response.body.is_empty());
}

#[test]
fn the_exact_range_of_highest_weight_is_served() {
    let resource = Probe { provided: vec!["text/html", "application/xml"], ..Probe::default() };
    let request = get().header("Accept", "text/html,application/xml;q=0.9,*/*;q=0.8");
    let response = run(resource, request);
    assert_eq!(response.status(), 200);
    assert_eq!(header(&response, "Content-Type"), Some("text/html"));
}

#[test]
fn a_heavier_range_selects_the_later_offer() {
    let resource = Probe { provided: vec!["text/html", "application/xml"], ..Probe::default() };
    let request = get().header("Accept", "text/html;q=0.2,application/xml;q=0.9");
    let response = run(resource, request);
    assert_eq!(response.status(), 200);
    assert_eq!(header(&response, "Content-Type"), Some("application/xml"));
}

#[test]
fn an_accept_header_that_cannot_be_read_is_a_bad_request() {
    for value in ["", "text/html;q=abc", "text", "text/html;level=1"] {
        let response = run(Probe::default(), get().header("Accept", value));
        assert_eq!(response.status(), 400);
        assert_eq!(last(&response), Node::C4);
    }
}

#[test]
fn accept_of_weight_zero_is_not_acceptable() {
    let response = run(Probe::default(), get().header("Accept", "text/html;q=0"));
    assert_eq!(response.status(), 406);
}

#[test]
fn wildcard_accepts_select_the_first_fit() {
    let resource = Probe { provided: vec!["image/png", "text/html"], ..Probe::default() };
    let response = run(resource.clone(), get().header("Accept", "*/*"));
    assert_eq!(header(&response, "Content-Type"), Some("image/png"));
    let response = run(resource, get().header("Accept", "text/*"));
    assert_eq!(header(&response, "Content-Type"), Some("text/html"));
}

#[test]
fn statuses_of_the_first_column() {
    let cases: Vec<(Probe, Request, u16, Node)> = vec![
        (Probe { available: false, ..Probe::default() }, get(), 503, Node::B13),
        (Probe::default(), Request::new(method("BREW"), "/"), 501, Node::B12),
        (Probe::default(), Request::new(Method::Patch, "/"), 501, Node::B12),
        (Probe { uri_too_long: true, ..Probe::default() }, get(), 414, Node::B11),
        (Probe::default(), Request::new(Method::Delete, "/"), 405, Node::B10),
        (Probe { malformed: true, ..Probe::default() }, get(), 400, Node::B9),
        (Probe { checksum: Some(false), ..Probe::default() }, get(), 400, Node::B9),
        (Probe { authorized: false, ..Probe::default() }, get(), 401, Node::B8),
        (Probe { forbidden: true, ..Probe::default() }, get(), 403, Node::B7),
        (Probe { valid_content_headers: false, ..Probe::default() }, get(), 501, Node::B6),
        (Probe { known_content_type: false, ..Probe::default() }, get(), 415, Node::B5),
    ];
    for (resource, request, status, node) in cases {
        let response = run(resource, request);
        assert_eq!(response.status(), status);
        assert_eq!(response.halted(), Some(status));
        assert_eq!(last(&response), node);
        assert!(response.body.is_empty());
    }
}

#[test]
fn a_passing_checksum_lets_the_request_on() {
    let response = run(Probe { checksum: Some(true), ..Probe::default() }, get());
    assert_eq!(response.status(), 200);
}

fn writable() -> Probe {
    Probe {
        allowed: vec!["GET", "HEAD", "POST", "PUT", "DELETE", "OPTIONS"],
        accepted: vec!["application/json"],
        ..Probe::default()
    }
}

#[test]
fn entity_length_rules() {
    let post = || Request::new(Method::Post, "/").header("Content-Type", "application/json");
    // a method without a body must not announce a length
    for m in [Method::Get, Method::Head, Method::Options] {
        let response = run(writable(), Request::new(m, "/").header("Content-Length", "0"));
        assert_eq!(response.status(), 400);
        assert_eq!(last(&response), Node::B4);
    }
    // both headers at once
    let request = post().header("Transfer-Encoding", "chunked").header("Content-Length", "3");
    assert_eq!(run(writable(), request).status(), 400);
    // a length that is no number
    assert_eq!(run(writable(), post().header("Content-Length", "three")).status(), 400);
    assert_eq!(run(writable(), post().header("Content-Length", "-1")).status(), 400);
    assert_eq!(run(writable(), post().header("Content-Length", "")).status(), 400);
    assert_eq!(
        run(writable(), post().header("Content-Length", "18446744073709551616")).status(),
        400
    );
    // no length at all
    let response = run(writable(), post());
    assert_eq!(response.status(), 400);
    assert_eq!(last(&response), Node::B4);
    // a length that the resource refuses
    let small = Probe { max_length: 10, ..writable() };
    let response = run(small.clone(), post().header("Content-Length", "11"));
    assert_eq!(response.status(), 413);
    assert_eq!(last(&response), Node::B4);
    // a length that it takes, and a transfer encoding in place of a length
    assert_ne!(run(small.clone(), post().header("Content-Length", "10")).status(), 413);
    let response = run(small, post().header("Transfer-Encoding", "chunked"));
    assert!(response.trace.contains(&Node::B3));
}

#[test]
fn options_is_answered_at_once() {
    let response = run(writable(), Request::new(Method::Options, "/"));
    assert_eq!(response.status(), 200);
    assert_eq!(response.halted(), Some(200));
    assert_eq!(last(&response), Node::B3);
    assert!(response.body.is_empty());
}

#[test]
fn missing_content_type_on_post_counts_as_octet_stream() {
    let resource = Probe {
        post_is_create: true,
        process_post: true,
        accepted: vec!["application/octet-stream"],
        ..writable()
    };
    let mut request = Request::new(Method::Post, "/").header("Content-Length", "1");
    request.body = vec![b"7".to_vec()];
    let response = run(resource, request);
    assert_eq!(response.status(), 201);
    assert_eq!(header(&response, "Location"), Some("orders/7"));
}

#[test]
fn post_without_a_handler_for_its_content_type_fails() {
    let resource = Probe { post_is_create: true, process_post: true, ..writable() };
    let request = Request::new(Method::Post, "/")
        .header("Content-Type", "text/csv")
        .header("Content-Length", "0");
    let response = run(resource, request);
    assert_eq!(response.status(), 500);
    assert_eq!(last(&response), Node::N11);
}

#[test]
fn post_that_does_not_create() {
    let post = || {
        Request::new(Method::Post, "/")
            .header("Content-Type", "application/json")
            .header("Content-Length", "0")
    };
    let response = run(Probe { process_post: true, ..writable() }, post());
    assert_eq!(response.status(), 201);
    assert_eq!(response.halted(), Some(201));
    assert_eq!(last(&response), Node::N11);
    // not processed: on to O20, and without an entity 204
    let response = run(writable(), post());
    assert_eq!(response.status(), 204);
    assert_eq!(last(&response), Node::O20);
    // not processed, with an entity announced: the representation is written
    let response = run(Probe { announce_entity: true, ..writable() }, post());
    assert_eq!(response.status(), 200);
    assert_eq!(last(&response), Node::O18);
    assert_eq!(body(&response), b"Hello, World!");
}

#[test]
fn negotiation_of_language_charset_and_encoding() {
    let resource = Probe {
        languages: vec!["en", "de"],
        charsets: vec!["utf-8"],
        encodings: vec!["gzip", "identity"],
        ..Probe::default()
    };
    let request = get()
        .header("Accept-Language", "de;q=0.9, en;q=0.8")
        .header("Accept-Charset", "UTF-8")
        .header("Accept-Encoding", "br, *;q=0.5");
    let response = run(resource.clone(), request);
    assert_eq!(response.status(), 200);
    assert!(response.trace.contains(&Node::D5));
    assert!(response.trace.contains(&Node::E6));
    assert!(response.trace.contains(&Node::F7));
    let cases = [
        ("Accept-Language", "fr", 406, Node::D5),
        ("Accept-Language", "fr;q=x", 400, Node::D5),
        ("Accept-Charset", "iso-8859-1", 406, Node::E6),
        ("Accept-Charset", "", 400, Node::E6),
        ("Accept-Encoding", "br", 406, Node::F7),
        ("Accept-Encoding", "gzip;q=0, identity;q=0", 406, Node::F7),
        ("Accept-Encoding", "gzip;;", 400, Node::F7),
    ];
    for (name, value, status, node) in cases {
        let response = run(resource.clone(), get().header(name, value));
        assert_eq!(response.status(), status);
        assert_eq!(last(&response), node);
    }
    // a resource that offers no language answers no request that asks for one
    let response = run(Probe::default(), get().header("Accept-Language", "en"));
    assert_eq!(response.status(), 406);
}

#[test]
fn if_match_preconditions() {
    let resource = Probe { etag: Some("v1"), ..Probe::default() };
    assert_eq!(run(resource.clone(), get().header("If-Match", "*")).status(), 200);
    assert_eq!(run(resource.clone(), get().header("If-Match", "\"v1\"")).status(), 200);
    assert_eq!(run(resource.clone(), get().header("If-Match", "\"v0\", W/\"v1\"")).status(), 200);
    let response = run(resource.clone(), get().header("If-Match", "\"v2\""));
    assert_eq!(response.status(), 412);
    assert_eq!(last(&response), Node::G11);
    let response = run(Probe::default(), get().header("If-Match", "\"v1\""));
    assert_eq!(response.status(), 412);
    // for a resource that does not exist, `*` cannot match
    let missing = Probe { exists: false, ..Probe::default() };
    let response = run(missing, get().header("If-Match", "*"));
    assert_eq!(response.status(), 412);
    assert_eq!(last(&response), Node::H7);
}

#[test]
fn if_unmodified_since_preconditions() {
    let resource = Probe { last_modified: Some(784111777), ..Probe::default() };
    let request = |date: &str| get().header("If-Unmodified-Since", date);
    let response = run(resource.clone(), request("Sun, 06 Nov 1994 08:49:36 GMT"));
    assert_eq!(response.status(), 412);
    assert_eq!(last(&response), Node::H12);
    assert_eq!(run(resource.clone(), request("Sun, 06 Nov 1994 08:49:37 GMT")).status(), 200);
    assert_eq!(run(resource.clone(), request("Sun, 06 Nov 1994 08:49:38 GMT")).status(), 200);
    // a date that cannot be read is left out of account
    let response = run(resource, request("yesterday"));
    assert_eq!(response.status(), 200);
    assert!(response.trace.contains(&Node::H11));
    assert!(!response.trace.contains(&Node::H12));
}

#[test]
fn if_none_match_preconditions() {
    let resource =
        Probe { etag: Some("v1"), allowed: vec!["GET", "HEAD", "PUT"], ..Probe::default() };
    let response = run(resource.clone(), get().header("If-None-Match", "*"));
    assert_eq!(response.status(), 304);
    assert_eq!(last(&response), Node::J18);
    let response = run(resource.clone(), get().header("If-None-Match", "\"v1\""));
    assert_eq!(response.status(), 304);
    assert!(response.trace.contains(&Node::K13));
    let response = run(resource.clone(), get().header("If-None-Match", "\"v2\""));
    assert_eq!(response.status(), 200);
    let put = Request::new(Method::Put, "/")
        .header("Content-Length", "0")
        .header("If-None-Match", "*");
    let response = run(resource, put);
    assert_eq!(response.status(), 412);
    assert_eq!(last(&response), Node::J18);
}

#[test]
fn if_modified_since_preconditions() {
    let resource = Probe { last_modified: Some(784111777), ..Probe::default() };
    let request = |date: &str| {
        let mut r = get().header("If-Modified-Since", date);
        r.received_at = 800000000;
        r
    };
    let response = run(resource.clone(), request("Sun, 06 Nov 1994 08:49:37 GMT"));
    assert_eq!(response.status(), 304);
    assert_eq!(last(&response), Node::L17);
    assert_eq!(run(resource.clone(), request("Sun, 06 Nov 1994 08:49:38 GMT")).status(), 304);
    assert_eq!(run(resource.clone(), request("Sun, 06 Nov 1994 08:49:36 GMT")).status(), 200);
    // a date ahead of the time of the request is left out of account
    let response = run(resource.clone(), request("Mon, 01 Jan 2024 00:00:00 GMT"));
    assert_eq!(response.status(), 200);
    assert!(response.trace.contains(&Node::L15));
    assert!(!response.trace.contains(&Node::L17));
    // so is one that cannot be read
    let response = run(resource.clone(), request("06 Nov 1994"));
    assert_eq!(response.status(), 200);
    assert!(!response.trace.contains(&Node::L15));
    // a resource that does not know when it was modified counts as modified
    let response = run(Probe::default(), request("Sun, 06 Nov 1994 08:49:37 GMT"));
    assert_eq!(response.status(), 200);
}

#[test]
fn delete_outcomes() {
    let delete = || Request::new(Method::Delete, "/").header("Content-Length", "0");
    let response = run(Probe { delete_enacted: true, ..writable() }, delete());
    assert_eq!(response.status(), 204);
    assert_eq!(last(&response), Node::O20);
    let resource = Probe { delete_enacted: true, delete_completed: false, ..writable() };
    let response = run(resource, delete());
    assert_eq!(response.status(), 202);
    assert_eq!(last(&response), Node::M20);
    let response = run(writable(), delete());
    assert_eq!(response.status(), 500);
    assert_eq!(last(&response), Node::M20);
}

#[test]
fn put_outcomes() {
    let put = || {
        let mut r = Request::new(Method::Put, "/orders/1")
            .header("Content-Type", "application/json")
            .header("Content-Length", "1");
        r.body = vec![b"9".to_vec()];
        r
    };
    let response = run(Probe { conflict: true, ..writable() }, put());
    assert_eq!(response.status(), 409);
    assert_eq!(last(&response), Node::O14);
    let response = run(writable(), put());
    assert_eq!(response.status(), 204);
    assert_eq!(response.trace[response.trace.len() - 3..], [Node::O14, Node::P11, Node::O20]);
    let response = run(Probe { accepted: vec![], ..writable() }, put());
    assert_eq!(response.status(), 500);
    assert_eq!(last(&response), Node::O14);
}

#[test]
fn missing_resource_tails() {
    let missing = || Probe { exists: false, ..writable() };
    let post = || {
        Request::new(Method::Post, "/")
            .header("Content-Type", "application/json")
            .header("Content-Length", "0")
    };
    let put = || {
        Request::new(Method::Put, "/")
            .header("Content-Type", "application/json")
            .header("Content-Length", "0")
    };
    let response = run(missing(), get());
    assert_eq!(response.status(), 404);
    assert_eq!(last(&response), Node::L7);
    let response = run(missing(), post());
    assert_eq!(response.status(), 404);
    assert_eq!(last(&response), Node::M7);
    let response = run(Probe { allow_missing_post: true, process_post: true, ..missing() }, post());
    assert_eq!(response.status(), 201);
    assert_eq!(last(&response), Node::N11);

    let gone = || Probe { previously_existed: true, ..missing() };
    let response = run(gone(), get());
    assert_eq!(response.status(), 410);
    assert_eq!(last(&response), Node::M5);
    let response = run(gone(), post());
    assert_eq!(response.status(), 410);
    assert_eq!(last(&response), Node::N5);
    let response = run(Probe { allow_missing_post: true, process_post: true, ..gone() }, post());
    assert_eq!(response.status(), 201);
    let response = run(Probe { moved_permanently: Some("/new"), ..gone() }, get());
    assert_eq!(response.status(), 301);
    assert_eq!(header(&response, "Location"), Some("/new"));
    assert_eq!(last(&response), Node::K5);
    let response = run(Probe { moved_temporarily: Some("/for-now"), ..gone() }, get());
    assert_eq!(response.status(), 307);
    assert_eq!(header(&response, "Location"), Some("/for-now"));
    assert_eq!(last(&response), Node::L5);

    let response = run(Probe { moved_permanently: Some("/new"), ..missing() }, put());
    assert_eq!(response.status(), 301);
    assert_eq!(last(&response), Node::I4);
    let response = run(Probe { conflict: true, ..missing() }, put());
    assert_eq!(response.status(), 409);
    assert_eq!(last(&response), Node::P3);
    let response = run(missing(), put());
    assert_eq!(response.status(), 204);
    assert_eq!(response.trace[response.trace.len() - 3..], [Node::P3, Node::P11, Node::O20]);
}

#[test]
fn multiple_choices_are_reported() {
    let response = run(Probe { multiple_choices: true, ..Probe::default() }, get());
    assert_eq!(response.status(), 300);
    assert_eq!(last(&response), Node::O18);
    assert!(response.body.is_empty());
}

#[test]
fn a_resource_that_offers_nothing_fails() {
    let resource = Probe { provided: vec![], ..Probe::default() };
    let response = run(resource.clone(), get());
    assert_eq!(response.status(), 500);
    assert_eq!(last(&response), Node::C3);
    let response = run(resource, get().header("Accept", "*/*"));
    assert_eq!(response.status(), 500);
    assert_eq!(last(&response), Node::C4);
}

#[test]
fn every_answer_has_one_head_and_follows_the_graph() {
    let requests: Vec<Request> = vec![
        get(),
        get().header("Accept", "application/json"),
        get().header("Accept", "oops"),
        Request::new(Method::Post, "/"),
        Request::new(Method::Head, "/"),
        Request::new(Method::Options, "/"),
        get().header("If-None-Match", "*"),
    ];
    for request in requests {
        let mut exchange = Exchange::begin(Probe::default(), request);
        let mut heads = 0;
        let mut steps = 0;
        let mut place_of_last: Option<usize> = None;
        while !exchange.is_over() {
            let phase_before = exchange.phase();
            let sent_before = exchange.sent().is_some();
            let started_before = exchange.wrapper().response.is_started();
            let trace_before = exchange.trace().len();
            exchange.step();
            steps += 1;
            if !sent_before && exchange.sent().is_some() {
                heads += 1;
                // the step that sends the head is the one that starts the response
                assert_eq!(phase_before, Phase::Sending);
                assert!(!started_before);
            }
            assert_eq!(exchange.sent().is_some(), exchange.wrapper().response.is_started());
            if phase_before == Phase::Serving {
                // the step in which a handler runs finds the head sent
                assert!(sent_before);
                assert!(exchange.is_over());
            }
            if exchange.trace().len() > trace_before {
                // a node was visited: it stands later in the graph than the one before
                assert_eq!(phase_before, Phase::Deciding);
                let node = *exchange.trace().last().unwrap();
                let place = FORWARD.iter().position(|n| *n == node).unwrap();
                if let Some(before) = place_of_last {
                    assert!(place > before);
                }
                place_of_last = Some(place);
            }
        }
        assert_eq!(heads, 1);
        assert!(steps <= 57);
        let response = exchange.finish();
        assert_eq!(response.trace[0], Node::B13);
        if let Some(status) = response.halted() {
            assert_eq!(response.status(), status);
        }
    }
}

/// The nodes in an order in which every edge leads forward.
const FORWARD: [Node; 54] = [
    Node::B13, Node::B12, Node::B11, Node::B10, Node::B9, Node::B8, Node::B7, Node::B6, Node::B5,
    Node::B4, Node::B3, Node::C3, Node::C4, Node::D4, Node::D5, Node::E5, Node::E6, Node::F6,
    Node::F7, Node::G7, Node::G8, Node::G9, Node::G11, Node::H10, Node::H11, Node::H12, Node::I12,
    Node::I13, Node::K13, Node::J18, Node::L13, Node::L14, Node::L15, Node::L17, Node::M16,
    Node::M20, Node::N16, Node::H7, Node::I7, Node::I4, Node::K7, Node::K5, Node::L5, Node::M5,
    Node::N5, Node::L7, Node::M7, Node::N11, Node::O16, Node::O14, Node::P3, Node::P11, Node::O20,
    Node::O18,
];

#[test]
fn an_output_handler_finds_the_response_started() {
    let mut exchange = Exchange::begin(Probe::default(), get());
    while !exchange.is_over() {
        exchange.step();
    }
    assert_eq!(exchange.wrapper().resource.started_when_produced, Some(true));
}

#[test]
fn an_input_handler_of_a_post_runs_while_the_response_waits() {
    let resource = Probe {
        post_is_create: true,
        process_post: true,
        ..writable()
    };
    let mut request = Request::new(Method::Post, "/orders")
        .header("Content-Type", "application/json")
        .header("Content-Length", "2");
    request.body = vec![b"42".to_vec()];
    let mut exchange = Exchange::begin(resource, request);
    while !exchange.is_over() {
        exchange.step();
    }
    assert_eq!(exchange.wrapper().resource.started_when_accepted, Some(false));
    assert_eq!(exchange.wrapper().resource.order.as_deref(), Some("42"));
    // the handler has consumed the body
    assert!(exchange.wrapper().request.body.is_empty());
}

#[test]
fn the_phases_of_an_exchange_follow_each_other() {
    let mut exchange = Exchange::begin(Probe::default(), get());
    assert_eq!(exchange.phase(), Phase::Deciding);
    assert!(exchange.sent().is_none());
    assert!(exchange.ending().is_none());
    assert!(exchange.trace().is_empty());
    let mut phases: Vec<Phase> = Vec::new();
    while !exchange.is_over() {
        let phase = exchange.phase();
        if phases.last() != Some(&phase) {
            phases.push(phase);
        }
        exchange.step();
    }
    assert_eq!(phases, vec![Phase::Deciding, Phase::Sending, Phase::Serving]);
    assert_eq!(exchange.phase(), Phase::Over);
    assert_eq!(exchange.ending(), Some(Ending::Served));
    assert_eq!(exchange.sent().unwrap().status, 200);
}

#[test]
fn a_waiting_response_gathers_status_and_header_fields() {
    let mut response = DelayedResponse::new();
    assert!(!response.is_started());
    response.builder().status(202);
    response.builder().header("X-Test", "1");
    response.set_status(203);
    response.add_header("X-More", "2");
    assert_eq!(response.header_named("x-test"), Some("1"));
    assert_eq!(response.header_named("X-More"), Some("2"));
    assert_eq!(response.header_named("X-None"), None);
    match response {
        DelayedResponse::Waiting(builder) => {
            let head = builder.head();
            assert_eq!(head.status, 203);
            assert_eq!(head.headers.len(), 2);
        }
        DelayedResponse::Started(_) => panic!("the response waits"),
    }
}

#[test]
fn a_started_response_is_beyond_change() {
    let mut exchange = Exchange::begin(Probe::default(), get().header("Accept", "image/png"));
    while exchange.phase() != Phase::Serving {
        exchange.step();
    }
    let head = exchange.sent().unwrap();
    assert_eq!(head.status, 406);
    exchange.step();
    assert!(exchange.is_over());
    assert_eq!(exchange.sent().unwrap().status, 406);
    let mut response = DelayedResponse::Started(ChunkSink::new());
    response.set_status(500);
    response.add_header("X-Late", "1");
    assert_eq!(response.header_named("X-Late"), None);
    response.response_body().send(vec![1, 2, 3]);
    match response {
        DelayedResponse::Started(sink) => assert_eq!(sink.close(), vec![vec![1, 2, 3]]),
        DelayedResponse::Waiting(_) => panic!("the response has started"),
    }
}

#[test]
fn a_head_without_a_status_is_sent_as_ok() {
    let head = gerust::message::ResponseBuilder::new().head();
    assert_eq!(head.status, 200);
    assert!(head.headers.is_empty());
}

#[test]
fn the_place_of_what_is_created_is_the_path_alone() {
    let resource = Based(Probe {
        post_is_create: true,
        process_post: true,
        ..writable()
    });
    let mut request = Request::new(Method::Post, "/orders")
        .header("Content-Type", "application/json")
        .header("Content-Length", "2");
    request.body = vec![b"42".to_vec()];
    let mut flow = HttpFlow::new();
    let response = flow.execute(resource, request);
    assert_eq!(response.status(), 201);
    assert_eq!(header(&response, "Location"), Some("orders/42"));
}

#[test]
fn a_body_is_taken_once() {
    let mut request = Request::new(Method::Put, "/");
    request.body = vec![b"ab".to_vec(), b"c".to_vec()];
    assert_eq!(request.take_body(), vec![b"ab".to_vec(), b"c".to_vec()]);
    assert!(request.body.is_empty());
    assert!(request.take_body().is_empty());
    assert!(request.method.same(&Method::Put));
    assert_eq!(request.uri, "/");
}

/// A resource that names a base for its places.
struct Based(Probe);

type BasedInput = fn(&mut Probe, &mut Request, &mut DelayedResponse);

impl Resource for Based {
    type Input = BasedInput;
    type Output = Output;

    fn keeps(&self, _callback: Callback) -> bool {
        false
    }

    fn post_is_create(&self) -> bool {
        self.0.post_is_create
    }

    fn process_post(&mut self, _response: &mut DelayedResponse) -> bool {
        self.0.process_post
    }

    fn allowed_methods(&self) -> Vec<Method> {
        self.0.allowed_methods()
    }

    fn base_uri(&self) -> Option<String> {
        Some("http://example.org/".to_string())
    }

    fn create_path(&self) -> String {
        self.0.create_path()
    }

    fn content_types_provided(&self) -> Vec<ProvidedPair<Output>> {
        self.0.content_types_provided()
    }

    fn content_types_accepted(&self) -> Vec<AcceptedPair<BasedInput>> {
        self.0.content_types_accepted()
    }

    fn accept(&mut self, handler: &BasedInput, request: &mut Request, response: &mut DelayedResponse) {
        handler(&mut self.0, request, response)
    }

    fn produce(&mut self, handler: &Output, response: &mut DelayedResponse) {
        handler(&mut self.0, response)
    }
}

#[test]
fn a_content_type_that_is_no_media_type_finds_no_handler() {
    let resource = Probe { post_is_create: true, process_post: true, ..writable() };
    let request = Request::new(Method::Post, "/orders")
        .header("Content-Type", "no media type")
        .header("Content-Length", "0");
    let response = run(resource, request);
    assert_eq!(response.status(), 500);
    assert_eq!(last(&response), Node::N11);
    let request = Request::new(Method::Put, "/orders/1")
        .header("Content-Type", "json")
        .header("Content-Length", "0");
    let response = run(writable(), request);
    assert_eq!(response.status(), 500);
    assert_eq!(last(&response), Node::O14);
    // the parameters of a content type play no part in finding the handler
    let mut request = Request::new(Method::Put, "/orders/1")
        .header("Content-Type", "application/json; charset=utf-8")
        .header("Content-Length", "1");
    request.body = vec![b"1".to_vec()];
    let mut exchange = Exchange::begin(writable(), request);
    while !exchange.is_over() {
        exchange.step();
    }
    assert_eq!(exchange.wrapper().resource.order.as_deref(), Some("1"));
    assert_eq!(exchange.sent().unwrap().status, 204);
}

fn order() -> Request {
    let mut request = Request::new(Method::Post, "/orders")
        .header("Content-Type", "application/json")
        .header("Content-Length", "2");
    request.body = vec![b"4".to_vec(), b"2".to_vec()];
    request
}

fn head_left(wrapper: ResourceWrapper<Probe>) -> (u16, Vec<(String, String)>) {
    match wrapper.response {
        DelayedResponse::Waiting(builder) => {
            let head = builder.head();
            (head.status, head.headers.into_iter().map(|h| (h.name, h.value)).collect())
        },
        DelayedResponse::Started(_) => panic!("the head was sent"),
    }
}

#[test]
fn the_post_node_halts_once_a_plain_post_is_processed() {
    let mut wrapper = ResourceWrapper::new(Probe { process_post: true, ..writable() }, order());
    assert!(matches!(wrapper.n11(), Outcomes::Halt(201)));
    assert_eq!(wrapper.resource.order, None);
    assert_eq!(wrapper.request.body.len(), 2);
    assert_eq!(head_left(wrapper), (200, vec![]));
}

#[test]
fn the_post_node_goes_on_where_a_plain_post_is_not_processed() {
    let resource = Probe { announce_entity: true, ..writable() };
    let mut wrapper = ResourceWrapper::new(resource, order());
    assert!(matches!(wrapper.n11(), Outcomes::Next(Node::O20)));
    assert_eq!(wrapper.resource.order, None);
    assert_eq!(
        head_left(wrapper),
        (200, vec![("Content-Type".to_string(), "text/html".to_string())])
    );
}

#[test]
fn the_post_node_names_the_place_of_what_was_created() {
    let resource = Probe {
        post_is_create: true,
        process_post: true,
        announce_entity: true,
        accepted: vec!["application/json"],
        ..writable()
    };
    let mut wrapper = ResourceWrapper::new(resource, order());
    assert!(matches!(wrapper.n11(), Outcomes::Done));
    assert_eq!(wrapper.resource.order.as_deref(), Some("42"));
    assert_eq!(wrapper.resource.started_when_accepted, Some(false));
    assert!(wrapper.request.body.is_empty());
    assert_eq!(
        head_left(wrapper),
        (
            201,
            vec![
                ("Content-Type".to_string(), "text/html".to_string()),
                ("Location".to_string(), "orders/42".to_string()),
            ]
        )
    );
}

#[test]
fn the_post_node_goes_on_where_what_was_handled_is_not_processed() {
    let resource = Probe {
        post_is_create: true,
        announce_entity: true,
        accepted: vec!["application/json"],
        ..writable()
    };
    let mut wrapper = ResourceWrapper::new(resource, order());
    assert!(matches!(wrapper.n11(), Outcomes::Next(Node::O20)));
    assert_eq!(wrapper.resource.order.as_deref(), Some("42"));
    assert!(wrapper.request.body.is_empty());
    assert_eq!(
        head_left(wrapper),
        (200, vec![("Content-Type".to_string(), "text/html".to_string())])
    );
}

#[test]
fn the_post_node_fails_without_a_handler_and_changes_nothing() {
    let resource = Probe { post_is_create: true, process_post: true, ..writable() };
    let request = Request::new(Method::Post, "/orders").header("Content-Type", "text/csv");
    let mut wrapper = ResourceWrapper::new(resource, request);
    assert!(matches!(wrapper.n11(), Outcomes::Halt(500)));
    assert_eq!(wrapper.resource.order, None);
    assert_eq!(head_left(wrapper), (200, vec![]));
}

#[test]
fn a_post_that_creates_and_is_not_processed_goes_on_without_a_place() {
    let resource = Probe {
        post_is_create: true,
        accepted: vec!["application/json"],
        ..writable()
    };
    let response = run(resource, order());
    assert_eq!(response.status(), 204);
    assert_eq!(header(&response, "Location"), None);
    assert_eq!(last(&response), Node::O20);
}

#[test]
fn a_post_that_creates_goes_the_way_to_the_post_node() {
    let resource = Probe { post_is_create: true, process_post: true, ..writable() };
    let response = run(resource.clone(), order());
    let way = vec![
        Node::B13,
        Node::B12,
        Node::B11,
        Node::B10,
        Node::B9,
        Node::B8,
        Node::B7,
        Node::B6,
        Node::B5,
        Node::B4,
        Node::B3,
        Node::C3,
        Node::D4,
        Node::E5,
        Node::F6,
        Node::G7,
        Node::G8,
        Node::H10,
        Node::I12,
        Node::L13,
        Node::M16,
        Node::N16,
        Node::N11,
    ];
    assert_eq!(response.trace, way);
    assert_eq!(response.ending, Ending::Done);
    assert_eq!(response.status(), 201);
    assert_eq!(response.head.headers.last().map(|h| h.name.as_str()), Some("Location"));
    assert_eq!(response.head.headers.last().map(|h| h.value.as_str()), Some("orders/42"));
    assert_eq!(response.head.headers.len(), 1);
    assert!(response.body.is_empty());
    // with an Accept header, by way of C4
    let response = run(resource, order().header("Accept", "text/html"));
    assert_eq!(response.trace.len(), way.len() + 1);
    assert_eq!(response.trace[12], Node::C4);
    assert_eq!(response.ending, Ending::Done);
    assert_eq!(header(&response, "Location"), Some("orders/42"));
}

#[test]
fn a_post_that_is_processed_without_creating_halts_at_the_post_node() {
    let response = run(Probe { process_post: true, ..writable() }, order());
    assert_eq!(response.trace.len(), 23);
    assert_eq!(response.trace[11], Node::C3);
    assert_eq!(response.trace[12], Node::D4);
    assert_eq!(response.trace[21], Node::N16);
    assert_eq!(response.trace[22], Node::N11);
    assert_eq!(response.ending, Ending::Halted(201));
    assert_eq!(response.status(), 201);
    assert_eq!(header(&response, "Location"), None);
    assert!(response.body.is_empty());
}
