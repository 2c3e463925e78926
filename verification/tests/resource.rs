use gerust::flow::DelayedResponse;
use gerust::media::MediaType;
use gerust::message::{Header, Method, Request};
use gerust::resource::{ProvidedPair, Resource};

/// A resource that gives nothing but what it must.
struct Bare;

impl Resource for Bare {
    type Input = ();
    type Output = ();

    fn content_types_provided(&self) -> Vec<ProvidedPair<()>> {
        vec![ProvidedPair(MediaType::parse("text/html").unwrap(), ())]
    }

    fn accept(&mut self, _handler: &(), _request: &mut Request, _response: &mut DelayedResponse) {}

    fn produce(&mut self, _handler: &(), _response: &mut DelayedResponse) {}
}

fn names(methods: &Vec<Method>) -> Vec<&str> {
    methods.iter().map(|m| m.as_str()).collect()
}

#[test]
fn the_defaults_let_a_request_pass() {
    let r = Bare;
    assert!(r.service_available());
    assert!(r.resource_exists());
    assert!(r.is_authorized(None));
    assert!(r.is_authorized(Some("Basic dXNlcjpwYXNz")));
    assert!(!r.forbidden());
    assert!(!r.malformed_request());
    assert!(!r.uri_too_long("/"));
    assert!(r.known_content_type("application/octet-stream"));
    assert!(r.known_content_type("no media type"));
    let field = Header { name: "Content-Type".to_string(), value: "text/plain".to_string() };
    assert!(r.valid_content_headers(&vec![field]));
    assert!(r.valid_content_headers(&Vec::new()));
    assert!(r.valid_entity_length(0));
    assert!(r.valid_entity_length(u64::MAX));
    assert_eq!(r.validate_content_checksum(), None);
}

#[test]
fn the_defaults_allow_reading_only() {
    let r = Bare;
    assert_eq!(names(&r.allowed_methods()), vec!["GET", "HEAD"]);
    assert_eq!(
        names(&r.known_methods()),
        vec!["GET", "HEAD", "POST", "PUT", "DELETE", "TRACE", "CONNECT", "OPTIONS"]
    );
    assert!(!r.allow_missing_post());
    assert!(!r.delete_method());
    assert!(r.delete_completed());
    assert!(!r.post_is_create());
    assert_eq!(r.create_path(), "");
    assert_eq!(r.base_uri(), None);
    assert!(!r.is_conflict());
}

#[test]
fn the_default_for_a_post_does_nothing() {
    let mut r = Bare;
    let mut response = DelayedResponse::new();
    response.builder().header("X-Before", "1");
    assert!(!r.process_post(&mut response));
    assert!(!response.is_started());
    assert_eq!(response.header_named("X-Before"), Some("1"));
    match response {
        DelayedResponse::Waiting(builder) => {
            let head = builder.head();
            assert_eq!(head.status, 200);
            assert_eq!(head.headers.len(), 1);
        }
        DelayedResponse::Started(_) => panic!("the response waits"),
    }
}

#[test]
fn the_defaults_offer_and_know_nothing_more() {
    let r = Bare;
    assert!(r.content_types_accepted().is_empty());
    assert!(r.charsets_provided().is_empty());
    assert!(r.languages_provided().is_empty());
    assert!(r.encodings_provided().is_empty());
    assert!(!r.multiple_choices());
    assert!(!r.previously_existed());
    assert_eq!(r.moved_permanently(), None);
    assert_eq!(r.moved_temporarily(), None);
    assert_eq!(r.last_modified(), None);
    assert_eq!(r.generate_etag(), None);
}
