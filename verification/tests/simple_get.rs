use gerust::flow::{DelayedResponse, Flow, HttpFlow, Response};
use gerust::media::MediaType;
use gerust::message::{Method, Request};
use gerust::resource::{ProvidedPair, Resource};

#[derive(Default, Debug)]
struct GetResource;

type Input = fn(&mut GetResource, &mut Request, &mut DelayedResponse);
type Output = fn(&mut GetResource, &mut DelayedResponse);

impl Resource for GetResource {
    type Input = Input;
    type Output = Output;

    fn allowed_methods(&self) -> Vec<Method> {
        vec![Method::Get, Method::Head]
    }

    fn content_types_provided(&self) -> Vec<ProvidedPair<Output>> {
        vec![ProvidedPair(MediaType::parse("text/html").unwrap(), Self::to_html)]
    }

    fn accept(&mut self, handler: &Input, request: &mut Request, response: &mut DelayedResponse) {
        handler(self, request, response)
    }

    fn produce(&mut self, handler: &Output, response: &mut DelayedResponse) {
        handler(self, response)
    }
}

impl GetResource {
    fn to_html(&mut self, response: &mut DelayedResponse) {
        response.response_body().send(b"Hello, World!".to_vec());
    }
}

fn execute(resource: GetResource, request: Request) -> Response {
    let mut flow = HttpFlow::new();
    flow.execute(resource, request)
}

#[test]
fn simple_get_test_without_accept_header() {
    let resource = GetResource::default();

    let req = Request::new(Method::Get, "/");

    let response = execute(resource, req);

    assert_eq!(response.status(), 200);
}

#[test]
fn simple_get_test_with_accept_header() {
    let resource = GetResource::default();

    let req = Request::new(Method::Get, "/").header("Accept", "text/html");

    let response = execute(resource, req);

    assert_eq!(response.status(), 200);
}

#[test]
fn test_head() {
    let resource = GetResource::default();

    let req = Request::new(Method::Head, "/").header("Content-Type", "text/plain");

    let response = execute(resource, req);

    assert_eq!(response.status(), 200);
}

#[test]
fn test_not_acceptable_post() {
    let resource = GetResource::default();

    let req = Request::new(Method::Post, "/").header("Content-Type", "text/plain");

    let response = execute(resource, req);

    assert_eq!(response.status(), 405);
}
