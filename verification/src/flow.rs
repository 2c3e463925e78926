//! The engine: the delayed response, the wrapper that a request travels in,
//! and the flow that answers a request.

use vstd::prelude::*;
use crate::exchange::{
    advances, answers_as_directed, begins, ends_in, is_run, lemma_run_goes_on, Exchange, Phase,
    State,
};
use crate::graph::{edge, is_walk, may_halt, Node};
use crate::media::MediaType;
use crate::message::{
    head_of, header_value, HeaderView, MethodView, Request, ResponseBuilder,
    ResponseBuilderView, ResponseHead, ResponseHeadView,
};
use crate::precondition::{http_date, is_wildcard};
use crate::resource::Resource;

verus! {

/// The version of the decision diagram that the engine follows.
pub const DIAGRAM_VERSION: u8 = 3;

/// What a decision node hands back to the loop that runs the nodes.
pub enum Outcomes<I, O> {
    /// Go on to the node.
    Next(Node),
    /// Send the head, then go on to the node.
    StartResponse(Node),
    /// Send the head as it stands, with an empty body.
    Done,
    /// Send the head, then run the handler that takes the request body in.
    InputHandler(I),
    /// Send the head, then run the handler that writes the representation.
    OutputHandler(O),
    /// Send the head with this status and an empty body.
    Halt(u16),
}

/// The writable end of a response body: handlers push chunks into it.
#[derive(Debug)]
pub struct ChunkSink {
    chunks: Vec<Vec<u8>>,
}

impl View for ChunkSink {
    type V = Seq<Vec<u8>>;

    closed spec fn view(&self) -> Seq<Vec<u8>> {
        self.chunks@
    }
}

impl ChunkSink {
    /// A sink that holds nothing yet.
    pub fn new() -> (r: ChunkSink)
        ensures
            r@ == Seq::<Vec<u8>>::empty(),
    {
        ChunkSink { chunks: Vec::new() }
    }

    /// Pushes one chunk of the body.
    pub fn send(&mut self, chunk: Vec<u8>)
        ensures
            final(self)@ == old(self)@.push(chunk),
    {
        self.chunks.push(chunk);
    }

    /// Ends the body: hands over what was pushed, in order.
    pub fn close(self) -> (r: Vec<Vec<u8>>)
        ensures
            r@ == self@,
    {
        self.chunks
    }
}

/// A response in one of its two phases: gathering status and header
/// fields, or sent and taking body chunks.
#[derive(Debug)]
pub enum DelayedResponse {
    Waiting(ResponseBuilder),
    Started(ChunkSink),
}

/// What a delayed response is in contracts.
pub enum DelayedResponseView {
    Waiting(ResponseBuilderView),
    Started(Seq<Vec<u8>>),
}

impl View for DelayedResponse {
    type V = DelayedResponseView;

    open spec fn view(&self) -> DelayedResponseView {
        match self {
            DelayedResponse::Waiting(b) => DelayedResponseView::Waiting(b@),
            DelayedResponse::Started(s) => DelayedResponseView::Started(s@),
        }
    }
}

/// The response with its status set, where it still waits. A started
/// response is beyond change.
pub open spec fn status_set(r: DelayedResponseView, code: u16) -> DelayedResponseView {
    match r {
        DelayedResponseView::Waiting(b) => DelayedResponseView::Waiting(
            ResponseBuilderView { status: Some(code), ..b },
        ),
        DelayedResponseView::Started(_) => r,
    }
}

/// The response with one more header field, where it still waits.
pub open spec fn header_added(
    r: DelayedResponseView,
    name: Seq<char>,
    value: Seq<char>,
) -> DelayedResponseView {
    match r {
        DelayedResponseView::Waiting(b) => DelayedResponseView::Waiting(
            ResponseBuilderView { headers: b.headers.push(HeaderView { name, value }), ..b },
        ),
        DelayedResponseView::Started(_) => r,
    }
}

/// The value of a header field of a response that still waits.
pub open spec fn pending_header(r: DelayedResponseView, name: Seq<char>) -> Option<Seq<char>> {
    match r {
        DelayedResponseView::Waiting(b) => header_value(b.headers, name),
        DelayedResponseView::Started(_) => None,
    }
}

impl DelayedResponse {
    /// A response that waits, with nothing set.
    pub fn new() -> (r: DelayedResponse)
        ensures
            r matches DelayedResponse::Waiting(b) && b@ == (ResponseBuilderView {
                status: None,
                headers: Seq::empty(),
            }),
    {
        DelayedResponse::Waiting(ResponseBuilder::new())
    }

    /// Whether the head has been sent.
    pub fn is_started(&self) -> (r: bool)
        ensures
            r == (self is Started),
    {
        match self {
            DelayedResponse::Started(_) => true,
            DelayedResponse::Waiting(_) => false,
        }
    }

    /// The builder of a response that waits.
    pub fn builder(&mut self) -> (r: &mut ResponseBuilder)
        requires
            *old(self) is Waiting,
        ensures
            *r == old(self)->Waiting_0,
            *final(self) == DelayedResponse::Waiting(*final(r)),
    {
        match self {
            DelayedResponse::Waiting(b) => b,
            DelayedResponse::Started(_) => vstd::pervasive::unreached(),
        }
    }

    /// The body of a response that has started.
    pub fn response_body(&mut self) -> (r: &mut ChunkSink)
        requires
            *old(self) is Started,
        ensures
            *r == old(self)->Started_0,
            *final(self) == DelayedResponse::Started(*final(r)),
    {
        match self {
            DelayedResponse::Started(s) => s,
            DelayedResponse::Waiting(_) => vstd::pervasive::unreached(),
        }
    }

    /// Sets the status of a response that still waits, and leaves a
    /// started one alone.
    pub fn set_status(&mut self, code: u16)
        ensures
            final(self)@ == status_set(old(self)@, code),
    {
        match self {
            DelayedResponse::Waiting(b) => {
                b.status(code);
            },
            DelayedResponse::Started(_) => {},
        }
    }

    /// Adds a header field to a response that still waits, and leaves a
    /// started one alone.
    pub fn add_header(&mut self, name: &str, value: &str)
        ensures
            final(self)@ == header_added(old(self)@, name@, value@),
    {
        match self {
            DelayedResponse::Waiting(b) => {
                b.header(name, value);
            },
            DelayedResponse::Started(_) => {},
        }
    }

    /// The value of the first header field named `name` of a response that
    /// still waits.
    pub fn header_named(&self, name: &str) -> (r: Option<&str>)
        ensures
            match r {
                Some(v) => pending_header(self@, name@) == Some(v@),
                None => pending_header(self@, name@) is None,
            },
    {
        match self {
            DelayedResponse::Waiting(b) => b.header_named(name),
            DelayedResponse::Started(_) => None,
        }
    }

    /// Sends the head: a response that waits hands over the head that its
    /// builder stands for and is from then on started, with an empty
    /// body. A response that has started stays as it is and hands over
    /// nothing, so a head is sent at most once.
    pub(crate) fn start(&mut self) -> (r: Option<ResponseHead>)
        ensures
            *final(self) is Started,
            match old(self)@ {
                DelayedResponseView::Waiting(b) => r matches Some(head) && head@ == head_of(b)
                    && final(self)@ == DelayedResponseView::Started(Seq::empty()),
                DelayedResponseView::Started(_) => r is None && *final(self) == *old(self),
            },
    {
        if self.is_started() {
            return None;
        }
        let mut taken = DelayedResponse::Started(ChunkSink::new());
        core::mem::swap(self, &mut taken);
        match taken {
            DelayedResponse::Waiting(b) => Some(b.head()),
            DelayedResponse::Started(_) => None,
        }
    }
}

/// What the negotiation of a request has settled.
#[derive(Debug)]
pub struct Metadata {
    /// The media type of the representation, chosen at C3 or C4.
    pub content_type: Option<MediaType>,
    /// The language chosen at D5.
    pub language: Option<String>,
    /// The charset chosen at E6.
    pub charset: Option<String>,
    /// The content coding chosen at F7.
    pub encoding: Option<String>,
}

/// What one request travels in: the resource that answers it, the request,
/// the response in the making, and what negotiation has settled.
pub struct ResourceWrapper<R: Resource> {
    pub resource: R,
    pub request: Request,
    pub response: DelayedResponse,
    pub metadata: Metadata,
}

/// What a node may hand back: an edge of the graph, one of its halts,
/// `Done` at N11, which makes the head of a POST that has created, and an
/// output handler at O18.
pub open spec fn permitted<I, O>(n: Node, out: Outcomes<I, O>) -> bool {
    match out {
        Outcomes::Next(m) => edge(n, m),
        Outcomes::Halt(s) => may_halt(n, s),
        Outcomes::Done => n == Node::N11,
        Outcomes::OutputHandler(_) => n == Node::O18,
        Outcomes::StartResponse(_) => false,
        Outcomes::InputHandler(_) => false,
    }
}

impl<R: Resource> ResourceWrapper<R> {
    /// Wraps a request and the resource that is to answer it, with a
    /// response that waits and nothing negotiated.
    pub fn new(resource: R, request: Request) -> (r: Self)
        ensures
            r.resource == resource,
            r.request == request,
            r.response@ == DelayedResponseView::Waiting(
                ResponseBuilderView { status: None, headers: Seq::empty() },
            ),
            r.metadata.content_type is None,
            r.metadata.language is None,
            r.metadata.charset is None,
            r.metadata.encoding is None,
    {
        let metadata = Metadata { content_type: None, language: None, charset: None, encoding: None };
        ResourceWrapper { resource, request, response: DelayedResponse::new(), metadata }
    }

    /// The value of a header field of the request.
    pub open spec fn asks(&self, name: Seq<char>) -> Option<Seq<char>> {
        header_value(self.request@.headers, name)
    }

    /// Whether a header field of the request is the wildcard `*`.
    pub open spec fn asks_any(&self, name: Seq<char>) -> bool {
        self.asks(name) matches Some(v) && is_wildcard(v)
    }

    /// The date that a header field of the request holds.
    pub open spec fn asks_date(&self, name: Seq<char>) -> Option<nat> {
        match self.asks(name) {
            Some(v) => http_date(v),
            None => None,
        }
    }
}

/// How the engine came to the end of a request.
#[derive(Clone, Copy, Debug, PartialEq, Eq, Structural)]
pub enum Ending {
    /// The last node halted with this status.
    Halted(u16),
    /// The last node made the head itself, and no body follows.
    Done,
    /// The last node named a handler, and it has run; for a HEAD, whose
    /// answer has no body, it was left out.
    Served,
}

/// The answer to a request as the collaborator receives it: the head, the
/// chunks of the body in the order in which they were pushed, and how the
/// engine came to it.
#[derive(Debug)]
pub struct Response {
    pub head: ResponseHead,
    pub body: Vec<Vec<u8>>,
    /// The nodes that the request passed through, in order.
    pub trace: Vec<Node>,
    /// How the last of them ended the request.
    pub ending: Ending,
}

impl Response {
    /// The status code of the head.
    pub fn status(&self) -> (r: u16)
        ensures
            r == self.head.status,
    {
        self.head.status
    }

    /// The status with which the last node halted, if it did.
    pub fn halted(&self) -> (r: Option<u16>)
        ensures
            r == (match self.ending {
                Ending::Halted(s) => Some(s),
                _ => None,
            }),
    {
        match self.ending {
            Ending::Halted(s) => Some(s),
            _ => None,
        }
    }
}

/// The status that a response waits with is `status`. Of a response that
/// has started nothing is said.
pub open spec fn waits_with(r: DelayedResponseView, status: u16) -> bool {
    r matches DelayedResponseView::Waiting(b) ==> b.status == Some(status)
}

/// The status of the head that a node makes itself: 201 at N11, where a
/// POST has created something, and 200 at O18.
pub open spec fn status_made_at(n: Node) -> u16 {
    if n == Node::N11 {
        201
    } else {
        200
    }
}

/// The head with which the engine answers where its own could not be
/// sent, because the response was started by something else: 500, without
/// header fields.
pub open spec fn is_failure(head: ResponseHeadView) -> bool {
    head == (ResponseHeadView { status: 500, headers: Seq::empty() })
}

/// What holds of an answer, given the nodes passed and the ending. The
/// last node is one that can end a request so, the status of the head is
/// what that ending calls for, and after a halt or `Done` the body is
/// empty. The one exception is the failure head.
pub open spec fn answers(
    last: Node,
    ending: Ending,
    head: ResponseHeadView,
    body: Seq<Vec<u8>>,
) -> bool {
    match ending {
        Ending::Halted(s) => {
            &&& may_halt(last, s)
            &&& is_failure(head) || (head.status == s && body.len() == 0)
        },
        Ending::Done => {
            &&& last == Node::N11
            &&& is_failure(head) || (head.status == 201 && body.len() == 0)
        },
        Ending::Served => {
            &&& last == Node::O18
            &&& is_failure(head) || head.status == 200
        },
    }
}

/// What holds of every answer of the engine. The request passed through
/// at least one node, from the start node on along edges of the graph,
/// and the answer is what the last node and the ending call for.
pub open spec fn follows_diagram(r: Response) -> bool {
    &&& r.trace@.len() >= 1
    &&& r.trace@[0] == Node::B13
    &&& is_walk(r.trace@)
    &&& answers(r.trace@.last(), r.ending, r.head@, r.body@)
}

/// An engine that runs requests through the decision graph.
pub trait Flow: Sized {
    type Request;

    type Response;

    type Error;

    fn new() -> Self;

    /// Answers `request` as `resource` directs.
    fn execute<R: Resource>(&mut self, resource: R, request: Self::Request) -> Self::Response;
}

/// The engine for HTTP.
#[derive(Debug)]
pub struct HttpFlow;

/// The error of a flow. The engine answers every request, so it has no
/// value to report.
pub struct FlowError;

impl Flow for HttpFlow {
    type Request = Request;

    type Response = Response;

    type Error = FlowError;

    fn new() -> (r: HttpFlow) {
        HttpFlow
    }

    /// Runs the request from the start node on until nothing is left to
    /// do: node by node along the graph, then the head, then the handler
    /// if the last node named one. The response is the end of that run,
    /// as `answers_as_directed` says. Every node of the run was visited by
    /// `visit`, on the wrapper as it stood, and what the visit left is
    /// what the next step found: so what `visit` ensures of a node, and
    /// through it the methods of the nodes that run an input handler,
    /// holds of each step of the run. Where the last step of the run has
    /// run an output handler, it was the handler that O18 named, on the
    /// resource and the started response as they stood, and the body of
    /// the response is what it left there.
    fn execute<R: Resource>(&mut self, resource: R, request: Request) -> (r: Response)
        ensures
            answers_as_directed(resource, request, r),
            follows_diagram(r),
            exists|run: Seq<State<R>>|
                {
                    &&& #[trigger] is_run(run) && begins(run[0], resource, request) && ends_in(
                        run.last(),
                        r,
                    )
                    &&& run.len() >= 2
                    &&& forall|k: int|
                        0 <= k < run.len() - 1 && (#[trigger] run[k]).phase() == Phase::Deciding
                            ==> exists|w: &mut ResourceWrapper<R>|
                            {
                                &&& *w == run[k].wrapper
                                &&& *final(w) == run[k + 1].wrapper
                                &&& #[trigger] call_ensures(
                                    ResourceWrapper::<R>::visit,
                                    (w, run[k].next->0->Next_0),
                                    run[k + 1].next->0,
                                )
                            }
                    &&& run[run.len() - 2].phase() == Phase::Serving
                    &&& run[run.len() - 2].next->0 is OutputHandler && run[run.len()
                        - 2].wrapper.request@.method != MethodView::Head ==> exists|
                        served: &mut R,
                        body: &mut DelayedResponse,
                    |
                        {
                            &&& *served == run[run.len() - 2].wrapper.resource
                            &&& *body == run[run.len() - 2].wrapper.response
                            &&& *body is Started
                            &&& #[trigger] call_ensures(
                                R::produce,
                                (served, &run[run.len() - 2].next->0->OutputHandler_0, body),
                                (),
                            )
                            &&& *final(served) == run.last().wrapper.resource
                            &&& *final(body) == run.last().wrapper.response
                        }
                },
    {
        let mut exchange = Exchange::begin(resource, request);
        let ghost mut run: Seq<State<R>> = seq![exchange@];
        while !exchange.is_over() && exchange.phase() != Phase::Serving
            invariant
                exchange@.wf(),
                run.len() >= 1,
                run.last() == exchange@,
                is_run(run),
                begins(run[0], resource, request),
                exchange@.next is Some,
                forall|k: int|
                    0 <= k < run.len() - 1 && (#[trigger] run[k]).phase() == Phase::Deciding
                        ==> exists|w: &mut ResourceWrapper<R>|
                        {
                            &&& *w == run[k].wrapper
                            &&& *final(w) == run[k + 1].wrapper
                            &&& #[trigger] call_ensures(
                                ResourceWrapper::<R>::visit,
                                (w, run[k].next->0->Next_0),
                                run[k + 1].next->0,
                            )
                        },
            decreases exchange@.left(),
        {
            let ghost before = exchange@;
            let ghost so_far = run;
            exchange.step();
            proof {
                assert(exchange@.left() < before.left() && exchange@.next is Some) by {
                    reveal(advances);
                }
                lemma_run_goes_on(run, exchange@);
                run = run.push(exchange@);
                assert forall|k: int|
                    0 <= k < run.len() - 1 && (#[trigger] run[k]).phase()
                        == Phase::Deciding implies exists|w: &mut ResourceWrapper<R>|
                    {
                        &&& *w == run[k].wrapper
                        &&& *final(w) == run[k + 1].wrapper
                        &&& #[trigger] call_ensures(
                            ResourceWrapper::<R>::visit,
                            (w, run[k].next->0->Next_0),
                            run[k + 1].next->0,
                        )
                    } by {
                    if k < so_far.len() - 1 {
                        assert(run[k] == so_far[k] && run[k + 1] == so_far[k + 1]);
                    } else {
                        assert(run[k] == before && run[k + 1] == exchange@);
                    }
                }
            }
        }
        let ghost serving = exchange@;
        exchange.step();
        proof {
            lemma_run_goes_on(run, exchange@);
            run = run.push(exchange@);
            reveal(advances);
        }
        let r = exchange.finish();
        assert(is_run(run) && begins(run[0], resource, request) && ends_in(run.last(), r));
        assert(run[run.len() - 2] == serving);
        r
    }
}

} // verus!
