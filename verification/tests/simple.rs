use gerust::flow::{DelayedResponse, Flow, HttpFlow, Response};
use gerust::media::MediaType;
use gerust::message::{Method, Request};
use gerust::resource::{ProvidedPair, Resource};

#[derive(Default, Debug)]
struct DefaultResource;

type Input = fn(&mut DefaultResource, &mut Request, &mut DelayedResponse);
type Output = fn(&mut DefaultResource, &mut DelayedResponse);

impl Resource for DefaultResource {
    type Input = Input;
    type Output = Output;

    fn content_types_provided(&self) -> Vec<ProvidedPair<Output>> {
        vec![ProvidedPair(MediaType::parse("text/html").unwrap(), Self::to_html)]
    }

    fn accept(&mut self, handler: &Input, request: &mut Request, response: &mut DelayedResponse) {
        handler(self, request, response)
    }

    fn produce(&mut self, handler: &Output, response: &mut DelayedResponse) {
        handler(self, response)
    }
}

impl DefaultResource {
    fn to_html(&mut self, response: &mut DelayedResponse) {
        response.response_body().send(b"Hello, World!".to_vec());
    }
}

fn execute(resource: DefaultResource, request: Request) -> Response {
    let mut flow = HttpFlow::new();
    flow.execute(resource, request)
}

#[test]
fn simple_test_without_accept_header() {
    let resource = DefaultResource::default();

    let req = Request::new(Method::Get, "/");

    let response = execute(resource, req);

    assert_eq!(response.status(), 200);
}

#[test]
fn simple_test_with_accept_header() {
    let resource = DefaultResource::default();

    let req = Request::new(Method::Get, "/").header("Accept", "text/html");

    let response = execute(resource, req);

    assert_eq!(response.status(), 200);
}
