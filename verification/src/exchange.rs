//! One request on its way through the engine, step by step: node after
//! node, then the head, then the handler.

use vstd::prelude::*;
use crate::flow::{
    answers, is_failure, permitted, status_made_at, status_set, waits_with, DelayedResponse,
    DelayedResponseView, Ending, Outcomes, ResourceWrapper, Response,
};
use crate::graph::{edge, is_walk, lemma_edge_descends, rank, Node};
use crate::message::{
    head_of, header_views, HeaderView, Method, MethodView, Request, ResponseBuilderView,
    ResponseHead, ResponseHeadView,
};
use crate::nodes::visited;
use crate::resource::Resource;

verus! {

/// The head that answers a request whose response was started by
/// something else than the engine.
pub fn failure_head() -> (r: ResponseHead)
    ensures
        is_failure(r@),
{
    let r = ResponseHead { status: 500, headers: Vec::new() };
    assert(header_views(r.headers@) =~= Seq::<HeaderView>::empty());
    r
}

/// Where an exchange stands.
#[derive(Clone, Copy, Debug, PartialEq, Eq, Structural)]
pub enum Phase {
    /// A node is to be visited.
    Deciding,
    /// The outcome asks for the head, and none is sent yet.
    Sending,
    /// The head is sent; a handler may be left to run.
    Serving,
    /// Nothing is left to do.
    Over,
}

/// The state of an exchange: the wrapper, what is to be done next, the head
/// once it is sent, the nodes visited so far, and the ending once it is
/// known.
pub struct State<R: Resource> {
    pub wrapper: ResourceWrapper<R>,
    pub next: Option<Outcomes<R::Input, R::Output>>,
    pub sent: Option<ResponseHead>,
    pub trace: Vec<Node>,
    pub ending: Option<Ending>,
}

/// One request on its way through the engine. Its state changes through
/// `step` alone.
pub struct Exchange<R: Resource> {
    state: State<R>,
}

impl<R: Resource> View for Exchange<R> {
    type V = State<R>;

    closed spec fn view(&self) -> State<R> {
        self.state
    }
}

/// The phase that follows from what is to be done next and from whether
/// the head is sent.
pub open spec fn phase_of<I, O>(next: Option<Outcomes<I, O>>, sent: bool) -> Phase {
    match next {
        None => Phase::Over,
        Some(Outcomes::Next(_)) => Phase::Deciding,
        Some(_) => if sent {
            Phase::Serving
        } else {
            Phase::Sending
        },
    }
}

/// An upper bound of the steps that are left.
pub open spec fn steps_left<I, O>(next: Option<Outcomes<I, O>>, sent: bool) -> nat {
    match next {
        None => 0,
        Some(Outcomes::Next(n)) => rank(n) + 3,
        Some(Outcomes::StartResponse(n)) => rank(n) + 4 + if sent {
            0nat
        } else {
            1nat
        },
        Some(_) => if sent {
            1
        } else {
            2
        },
    }
}

/// The ending that an outcome stands for, if it ends the request.
pub open spec fn ending_of<I, O>(out: Outcomes<I, O>) -> Option<Ending> {
    match out {
        Outcomes::Halt(s) => Some(Ending::Halted(s)),
        Outcomes::Done => Some(Ending::Done),
        Outcomes::InputHandler(_) => Some(Ending::Served),
        Outcomes::OutputHandler(_) => Some(Ending::Served),
        Outcomes::Next(_) => None,
        Outcomes::StartResponse(_) => None,
    }
}

/// The head that is sent for a response as it stands when the engine
/// sends: the head that the builder of a waiting response stands for. A
/// response that something else has started is answered with 500.
pub open spec fn head_for(response: DelayedResponseView) -> ResponseHeadView {
    match response {
        DelayedResponseView::Waiting(b) => head_of(b),
        DelayedResponseView::Started(_) => ResponseHeadView { status: 500, headers: Seq::empty() },
    }
}

/// The response as it stands when its head is sent: for a halt, with the
/// status of the halt set.
pub open spec fn readied<I, O>(
    response: DelayedResponseView,
    out: Outcomes<I, O>,
) -> DelayedResponseView {
    match out {
        Outcomes::Halt(s) => status_set(response, s),
        _ => response,
    }
}

/// How one step takes an exchange from `before` to `after`.
///
/// It brings the end nearer. A head that is sent stays the one that is
/// sent, and a head is sent only in the phase `Sending`.
///
/// Deciding: the node joins the trace, something is next, and no head is
/// sent. Sending: the head is sent, for a halt with the status of the halt
/// set first, the ending is recorded and the response is started; what is
/// next stays. Serving: nothing is left; unless the outcome names a
/// handler, which runs in this step and in no other, nothing else changes.
/// A HEAD is answered without a body: its output handler does not run.
///
/// Deciding is exact: what is next is what `visited` says that the node
/// hands back for the wrapper as it stood.
#[verifier::opaque]
pub open spec fn advances<R: Resource>(before: State<R>, after: State<R>) -> bool {
    &&& after.left() < before.left()
    &&& before.sent is Some ==> after.sent == before.sent
    &&& before.sent is None && after.sent is Some ==> before.phase() == Phase::Sending
    &&& before.phase() == Phase::Deciding ==> {
        &&& after.trace@ == before.trace@.push(before.next->0->Next_0)
        &&& after.next is Some
        &&& visited(before.wrapper, before.next->0->Next_0, after.next->0, after.wrapper)
        &&& after.sent is None
        &&& after.ending == before.ending
    }
    &&& before.phase() == Phase::Sending ==> {
        &&& after.next == before.next || (before.next matches Some(Outcomes::StartResponse(n))
            && after.next == Some(Outcomes::<R::Input, R::Output>::Next(n)))
        &&& after.trace == before.trace
        &&& after.wrapper.response is Started
        &&& after.wrapper.resource == before.wrapper.resource
        &&& after.wrapper.request == before.wrapper.request
        &&& after.wrapper.metadata == before.wrapper.metadata
        &&& after.ending == ending_of(before.next->0)
        &&& after.sent is Some
        &&& after.sent->0@ == head_for(readied(before.wrapper.response@, before.next->0))
        &&& before.wrapper.response is Waiting ==> after.wrapper.response@
            == DelayedResponseView::Started(Seq::empty())
    }
    &&& before.phase() == Phase::Serving ==> {
        &&& after.next is None
        &&& after.trace == before.trace
        &&& after.ending == before.ending
        &&& !(before.next matches Some(Outcomes::InputHandler(_)) || before.next matches Some(
            Outcomes::OutputHandler(_),
        )) ==> after.wrapper == before.wrapper
        &&& before.next->0 is OutputHandler && before.wrapper.request@.method == MethodView::Head
            ==> after.wrapper == before.wrapper
    }
}

impl<R: Resource> State<R> {
    /// Where the exchange stands.
    pub open spec fn phase(&self) -> Phase {
        phase_of(self.next, self.sent is Some)
    }

    /// An upper bound of the steps that are left.
    pub open spec fn left(&self) -> nat {
        steps_left(self.next, self.sent is Some)
    }

    /// What holds of an exchange at every step.
    ///
    /// The trace is a walk through the graph from its start. What is to be
    /// done next is what the last node visited may hand back; before the
    /// first visit it is the start node. While nodes are visited no head is
    /// sent. Where the last node has made the head itself, the response
    /// waits with the status that the node has given it. The ending is
    /// recorded when the head is sent, and from then on the head and the
    /// body are what the last node and the ending call for. Once nothing
    /// is left to do, the head is sent.
    pub open spec fn wf(&self) -> bool {
        &&& is_walk(self.trace@)
        &&& self.trace@.len() > 0 ==> self.trace@[0] == Node::B13
        &&& self.trace@.len() == 0 ==> self.next == Some(
            Outcomes::<R::Input, R::Output>::Next(Node::B13),
        )
        &&& self.trace@.len() > 0 ==> match self.next {
            Some(out) => permitted(self.trace@.last(), out),
            None => true,
        }
        &&& self.phase() == Phase::Deciding ==> self.sent is None
        &&& self.phase() == Phase::Serving ==> self.wrapper.response is Started
        &&& self.phase() == Phase::Sending && (self.next matches Some(Outcomes::Done)
            || self.next matches Some(Outcomes::OutputHandler(_))) ==> waits_with(
            self.wrapper.response@,
            status_made_at(self.trace@.last()),
        )
        &&& self.ending is Some <==> self.sent is Some
        &&& self.sent is Some ==> {
            &&& self.trace@.len() > 0
            &&& self.next matches Some(out) ==> ending_of(out) == self.ending
            &&& self.phase() == Phase::Serving || self.ending != Some(Ending::Served) ==> answers(
                self.trace@.last(),
                self.ending->0,
                self.sent->0@,
                match self.wrapper.response@ {
                    DelayedResponseView::Started(chunks) => chunks,
                    DelayedResponseView::Waiting(_) => Seq::empty(),
                },
            )
            &&& self.ending == Some(Ending::Served) ==> answers(
                self.trace@.last(),
                Ending::Served,
                self.sent->0@,
                Seq::empty(),
            )
        }
        &&& self.next is None ==> self.sent is Some
    }
}

impl<R: Resource> Exchange<R> {
    /// Takes a request up: the first node is to be visited, and nothing is
    /// sent.
    pub fn begin(resource: R, request: Request) -> (r: Self)
        ensures
            r@.wf(),
            r@.phase() == Phase::Deciding,
            r@.next == Some(Outcomes::<R::Input, R::Output>::Next(Node::B13)),
            r@.sent is None,
            r@.trace@.len() == 0,
            r@.ending is None,
            r@.wrapper.resource == resource,
            r@.wrapper.request == request,
            r@.wrapper.response@ == DelayedResponseView::Waiting(
                ResponseBuilderView { status: None, headers: Seq::empty() },
            ),
            begins(r@, resource, request),
    {
        Exchange {
            state: State {
                wrapper: ResourceWrapper::new(resource, request),
                next: Some(Outcomes::Next(Node::B13)),
                sent: None,
                trace: Vec::new(),
                ending: None,
            },
        }
    }

    /// Whether nothing is left to do.
    pub fn is_over(&self) -> (r: bool)
        ensures
            r == (self@.phase() == Phase::Over),
            r == (self@.next is None),
    {
        self.state.next.is_none()
    }

    /// Where the exchange stands.
    pub fn phase(&self) -> (r: Phase)
        ensures
            r == self@.phase(),
    {
        match &self.state.next {
            None => Phase::Over,
            Some(Outcomes::Next(_)) => Phase::Deciding,
            Some(_) => if self.state.sent.is_some() {
                Phase::Serving
            } else {
                Phase::Sending
            },
        }
    }

    /// How the request ends, once that is known.
    pub fn ending(&self) -> (r: Option<Ending>)
        ensures
            r == self@.ending,
    {
        self.state.ending
    }

    /// The head, once it is sent.
    pub fn sent(&self) -> (r: Option<&ResponseHead>)
        ensures
            match r {
                Some(head) => self@.sent == Some(*head),
                None => self@.sent is None,
            },
    {
        self.state.sent.as_ref()
    }

    /// The nodes visited so far, in order.
    pub fn trace(&self) -> (r: &Vec<Node>)
        ensures
            *r == self@.trace,
    {
        &self.state.trace
    }

    /// The wrapper that the request travels in.
    pub fn wrapper(&self) -> (r: &ResourceWrapper<R>)
        ensures
            *r == self@.wrapper,
    {
        &self.state.wrapper
    }

    /// Sends the head, unless one is sent. It is the head that the builder
    /// of the waiting response stands for, and the response is started
    /// from then on.
    fn commit(&mut self)
        ensures
            final(self)@.sent is Some,
            old(self)@.sent is Some ==> final(self)@ == old(self)@,
            old(self)@.sent is None ==> final(self)@.wrapper.response is Started,
            old(self)@.sent is None ==> final(self)@.sent->0@ == head_for(
                old(self)@.wrapper.response@,
            ),
            old(self)@.sent is None && old(self)@.wrapper.response is Waiting
                ==> final(self)@.wrapper.response@ == DelayedResponseView::Started(Seq::empty()),
            old(self)@.sent is None && old(self)@.wrapper.response is Started
                ==> final(self)@.wrapper.response == old(self)@.wrapper.response,
            final(self)@.next == old(self)@.next,
            final(self)@.trace == old(self)@.trace,
            final(self)@.ending == old(self)@.ending,
            final(self)@.wrapper.resource == old(self)@.wrapper.resource,
            final(self)@.wrapper.request == old(self)@.wrapper.request,
            final(self)@.wrapper.metadata == old(self)@.wrapper.metadata,
    {
        if self.state.sent.is_some() {
            return ;
        }
        let head = match self.state.wrapper.response.start() {
            Some(head) => head,
            None => failure_head(),
        };
        self.state.sent = Some(head);
    }

    /// Runs a handler that an outcome has named. The head is sent by then,
    /// and the response has started. The output handler of a HEAD does not
    /// run, so that the body stays empty.
    fn serve(&mut self, outcome: Outcomes<R::Input, R::Output>)
        requires
            old(self)@.sent is Some,
            old(self)@.wrapper.response is Started,
        ensures
            final(self)@.sent == old(self)@.sent,
            final(self)@.next == old(self)@.next,
            final(self)@.trace == old(self)@.trace,
            final(self)@.ending == old(self)@.ending,
            !(outcome is InputHandler || outcome is OutputHandler) ==> final(self)@ == old(self)@,
            outcome is OutputHandler && old(self)@.wrapper.request@.method == MethodView::Head
                ==> final(self)@ == old(self)@,
            outcome is OutputHandler && old(self)@.wrapper.request@.method
                != MethodView::Head ==> exists|resource: &mut R, response: &mut DelayedResponse|
                {
                    &&& *resource == old(self)@.wrapper.resource
                    &&& *response == old(self)@.wrapper.response
                    &&& #[trigger] call_ensures(
                        R::produce,
                        (resource, &outcome->OutputHandler_0, response),
                        (),
                    )
                    &&& *final(resource) == final(self)@.wrapper.resource
                    &&& *final(response) == final(self)@.wrapper.response
                    &&& final(self)@.wrapper.request == old(self)@.wrapper.request
                    &&& final(self)@.wrapper.metadata == old(self)@.wrapper.metadata
                },
            outcome is InputHandler ==> exists|
                resource: &mut R,
                request: &mut Request,
                response: &mut DelayedResponse,
            |
                {
                    &&& *resource == old(self)@.wrapper.resource
                    &&& *request == old(self)@.wrapper.request
                    &&& *response == old(self)@.wrapper.response
                    &&& #[trigger] call_ensures(
                        R::accept,
                        (resource, &outcome->InputHandler_0, request, response),
                        (),
                    )
                    &&& *final(resource) == final(self)@.wrapper.resource
                    &&& *final(request) == final(self)@.wrapper.request
                    &&& *final(response) == final(self)@.wrapper.response
                    &&& final(self)@.wrapper.metadata == old(self)@.wrapper.metadata
                },
    {
        match outcome {
            Outcomes::InputHandler(handler) => {
                self.state.wrapper.resource.accept(
                    &handler,
                    &mut self.state.wrapper.request,
                    &mut self.state.wrapper.response,
                );
            },
            Outcomes::OutputHandler(handler) => {
                let head = match self.state.wrapper.request.method {
                    Method::Head => true,
                    _ => false,
                };
                if !head {
                    self.state.wrapper.resource.produce(&handler, &mut self.state.wrapper.response);
                }
            },
            _ => {},
        }
    }

    /// Does the one thing that is to be done next, as `advances` says.
    /// Where nothing is left to do, nothing is done. Where a handler runs,
    /// it is the handler that the outcome named, on the wrapper as it
    /// stood, and what it leaves is what the step leaves.
    ///
    /// Deciding: the node is visited and joins the trace; what it hands
    /// back is next, and what `visit` ensures of the node holds of this
    /// step. Sending: the head is sent, for a halt with the status
    /// of the halt, and the response is started. Serving: the handler
    /// that the outcome names runs, if it names one, and nothing is left.
    pub fn step(&mut self)
        requires
            old(self)@.wf(),
        ensures
            final(self)@.wf(),
            old(self)@.next is Some ==> advances(old(self)@, final(self)@),
            old(self)@.next is None ==> final(self)@ == old(self)@,
            old(self)@.phase() == Phase::Deciding ==> final(self)@.next is Some && exists|
                w: &mut ResourceWrapper<R>,
            |
                {
                    &&& *w == old(self)@.wrapper
                    &&& *final(w) == final(self)@.wrapper
                    &&& #[trigger] call_ensures(
                        ResourceWrapper::<R>::visit,
                        (w, old(self)@.next->0->Next_0),
                        final(self)@.next->0,
                    )
                },
            old(self)@.phase() == Phase::Serving && old(self)@.next->0 is OutputHandler && old(self)@.wrapper.request@.method
                != MethodView::Head ==> exists|resource: &mut R, response: &mut DelayedResponse|
                {
                    &&& *resource == old(self)@.wrapper.resource
                    &&& *response == old(self)@.wrapper.response
                    &&& #[trigger] call_ensures(
                        R::produce,
                        (resource, &old(self)@.next->0->OutputHandler_0, response),
                        (),
                    )
                    &&& *final(resource) == final(self)@.wrapper.resource
                    &&& *final(response) == final(self)@.wrapper.response
                    &&& final(self)@.wrapper.request == old(self)@.wrapper.request
                    &&& final(self)@.wrapper.metadata == old(self)@.wrapper.metadata
                },
            old(self)@.phase() == Phase::Serving && old(self)@.next->0 is InputHandler ==> exists|
                resource: &mut R,
                request: &mut Request,
                response: &mut DelayedResponse,
            |
                {
                    &&& *resource == old(self)@.wrapper.resource
                    &&& *request == old(self)@.wrapper.request
                    &&& *response == old(self)@.wrapper.response
                    &&& #[trigger] call_ensures(
                        R::accept,
                        (resource, &old(self)@.next->0->InputHandler_0, request, response),
                        (),
                    )
                    &&& *final(resource) == final(self)@.wrapper.resource
                    &&& *final(request) == final(self)@.wrapper.request
                    &&& *final(response) == final(self)@.wrapper.response
                    &&& final(self)@.wrapper.metadata == old(self)@.wrapper.metadata
                },
    {
        proof {
            reveal(advances);
        }
        let sent = self.state.sent.is_some();
        let current = self.state.next.take();
        match current {
            Some(Outcomes::Next(node)) => {
                proof {
                    if self.state.trace@.len() > 0 {
                        lemma_edge_descends(self.state.trace@.last(), node);
                    }
                }
                let out = self.state.wrapper.visit(node);
                self.state.trace.push(node);
                proof {
                    match out {
                        Outcomes::Next(m) => {
                            lemma_edge_descends(node, m);
                        },
                        _ => {},
                    }
                    assert(is_walk(self.state.trace@)) by {
                        let before = old(self)@.trace@;
                        assert forall|i: int| 0 <= i < self.state.trace@.len() - 1 implies edge(
                            #[trigger] self.state.trace@[i],
                            self.state.trace@[i + 1],
                        ) by {
                            if i < before.len() - 1 {
                                assert(edge(before[i], before[i + 1]));
                            }
                        }
                    }
                }
                self.state.next = Some(out);
            },
            Some(Outcomes::StartResponse(node)) => {
                self.commit();
                self.state.next = Some(Outcomes::Next(node));
            },
            Some(Outcomes::Halt(status)) => {
                if sent {
                    self.state.next = None;
                } else {
                    self.state.wrapper.response.set_status(status);
                    self.state.ending = Some(Ending::Halted(status));
                    self.commit();
                    self.state.next = Some(Outcomes::Halt(status));
                }
            },
            Some(Outcomes::Done) => {
                if sent {
                    self.state.next = None;
                } else {
                    self.state.ending = Some(Ending::Done);
                    self.commit();
                    self.state.next = Some(Outcomes::Done);
                }
            },
            Some(outcome) => {
                if sent {
                    self.serve(outcome);
                    self.state.next = None;
                } else {
                    self.state.ending = Some(Ending::Served);
                    self.commit();
                    self.state.next = Some(outcome);
                }
            },
            None => {},
        }
    }

    /// Ends the exchange: closes the body and hands over what the
    /// collaborator receives.
    pub fn finish(self) -> (r: Response)
        requires
            self@.wf(),
            self@.next is None,
        ensures
            ends_in(self@, r),
    {
        let head = match self.state.sent {
            Some(head) => head,
            None => failure_head(),
        };
        let ending = match self.state.ending {
            Some(ending) => ending,
            None => Ending::Done,
        };
        let body = match self.state.wrapper.response {
            DelayedResponse::Started(sink) => sink.close(),
            DelayedResponse::Waiting(_) => Vec::new(),
        };
        Response { head, body, trace: self.state.trace, ending }
    }
}

/// The state in which an exchange begins for a resource and a request:
/// the start node is next, nothing is sent or visited, the response waits
/// with nothing set, and nothing is negotiated.
pub open spec fn begins<R: Resource>(s: State<R>, resource: R, request: Request) -> bool {
    &&& s.next == Some(Outcomes::<R::Input, R::Output>::Next(Node::B13))
    &&& s.sent is None
    &&& s.trace@.len() == 0
    &&& s.ending is None
    &&& s.wrapper.resource == resource
    &&& s.wrapper.request == request
    &&& s.wrapper.response@ == DelayedResponseView::Waiting(
        ResponseBuilderView { status: None, headers: Seq::empty() },
    )
    &&& s.wrapper.metadata.content_type is None
    &&& s.wrapper.metadata.language is None
    &&& s.wrapper.metadata.charset is None
    &&& s.wrapper.metadata.encoding is None
}

/// That a response is what an exchange hands over at its end: the head
/// that was sent, the body as it stands in the response, the trace and
/// the ending.
pub open spec fn ends_in<R: Resource>(s: State<R>, r: Response) -> bool {
    &&& s.next is None
    &&& s.sent == Some(r.head)
    &&& s.trace == r.trace
    &&& s.ending == Some(r.ending)
    &&& match s.wrapper.response {
        DelayedResponse::Started(sink) => r.body@ == sink@,
        DelayedResponse::Waiting(_) => r.body@ == Seq::<Vec<u8>>::empty(),
    }
}

/// That a response answers a request as a resource directs: there is a run
/// of the engine that begins with the resource and the request, takes
/// each step as `advances` says, and ends in the response. So every node
/// of the trace is the one that the answers of the resource select from
/// the node before, and the head is the one that the last node leaves.
pub open spec fn answers_as_directed<R: Resource>(
    resource: R,
    request: Request,
    r: Response,
) -> bool {
    exists|run: Seq<State<R>>|
        #[trigger] is_run(run) && begins(run[0], resource, request) && ends_in(run.last(), r)
}

/// A run of the engine: the exchange as it is begun, and as it is after
/// each step.
pub open spec fn is_run<R: Resource>(run: Seq<State<R>>) -> bool {
    &&& run.len() >= 1
    &&& run[0].wf()
    &&& run[0].trace@.len() == 0
    &&& forall|i: int|
        0 <= i < run.len() - 1 ==> {
            &&& #[trigger] advances(run[i], run[i + 1])
            &&& run[i].next is Some
            &&& run[i + 1].wf()
        }
}

/// A run that takes one step more is a run.
pub proof fn lemma_run_goes_on<R: Resource>(run: Seq<State<R>>, then: State<R>)
    requires
        is_run(run),
        run.last().next is Some,
        advances(run.last(), then),
        then.wf(),
    ensures
        is_run(run.push(then)),
{
    let longer = run.push(then);
    assert forall|i: int| 0 <= i < longer.len() - 1 implies {
        &&& #[trigger] advances(longer[i], longer[i + 1])
        &&& longer[i].next is Some
        &&& longer[i + 1].wf()
    } by {
        if i < run.len() - 1 {
            assert(advances(run[i], run[i + 1]));
        }
    }
}

/// What a step of a run does that visits a node: the node joins the
/// trace, no head is sent, and what is next is what `visited` says that
/// the node hands back.
pub proof fn lemma_visiting_step<R: Resource>(run: Seq<State<R>>, i: int, n: Node)
    requires
        is_run(run),
        0 <= i < run.len() - 1,
        run[i].next == Some(Outcomes::<R::Input, R::Output>::Next(n)),
    ensures
        run[i + 1].next is Some,
        visited(run[i].wrapper, n, run[i + 1].next->0, run[i + 1].wrapper),
        run[i + 1].trace@ == run[i].trace@.push(n),
        run[i + 1].sent is None,
        run[i + 1].ending == run[i].ending,
{
    reveal(advances);
    assert(advances(run[i], run[i + 1]));
}

/// What `visited` says, under a name that is not unfolded unless it is
/// revealed: for proofs that follow a run node by node and hand each
/// step on to the lemma of its node.
#[verifier::opaque]
pub open spec fn passed<R: Resource>(
    before: ResourceWrapper<R>,
    n: Node,
    out: Outcomes<R::Input, R::Output>,
    after: ResourceWrapper<R>,
) -> bool {
    visited(before, n, out, after)
}

/// What `lemma_visiting_step` says, with `passed` for `visited`.
pub proof fn lemma_passing_step<R: Resource>(run: Seq<State<R>>, i: int, n: Node)
    requires
        is_run(run),
        0 <= i < run.len() - 1,
        run[i].next == Some(Outcomes::<R::Input, R::Output>::Next(n)),
    ensures
        run[i + 1].next is Some,
        passed(run[i].wrapper, n, run[i + 1].next->0, run[i + 1].wrapper),
        run[i + 1].trace@ == run[i].trace@.push(n),
        run[i + 1].sent is None,
        run[i + 1].ending == run[i].ending,
{
    reveal(advances);
    reveal(passed);
    assert(advances(run[i], run[i + 1]));
}

/// The step of a run that finds a terminal outcome and no head sent: it
/// sends the head that the response stands for, for a halt with the
/// status of the halt.
pub proof fn lemma_sending_step_of_run<R: Resource>(run: Seq<State<R>>, i: int)
    requires
        is_run(run),
        0 <= i < run.len() - 1,
        run[i].phase() == Phase::Sending,
        !(run[i].next->0 is StartResponse),
    ensures
        run[i + 1].next == run[i].next,
        run[i + 1].trace == run[i].trace,
        run[i + 1].ending == ending_of(run[i].next->0),
        run[i + 1].sent is Some,
        run[i + 1].sent->0@ == head_for(readied(run[i].wrapper.response@, run[i].next->0)),
        run[i + 1].wrapper.resource == run[i].wrapper.resource,
        run[i + 1].wrapper.request == run[i].wrapper.request,
        run[i].wrapper.response is Waiting ==> run[i + 1].wrapper.response@
            == DelayedResponseView::Started(Seq::empty()),
{
    reveal(advances);
    assert(advances(run[i], run[i + 1]));
}

/// The step of a run that finds the head sent: nothing is left after
/// it, and the head, the trace and the ending stay. Unless a handler
/// runs, the wrapper stays too; the output handler of a HEAD does not run.
pub proof fn lemma_serving_step_of_run<R: Resource>(run: Seq<State<R>>, i: int)
    requires
        is_run(run),
        0 <= i < run.len() - 1,
        run[i].phase() == Phase::Serving,
    ensures
        run[i + 1].next is None,
        run[i + 1].sent == run[i].sent,
        run[i + 1].trace == run[i].trace,
        run[i + 1].ending == run[i].ending,
        !(run[i].next->0 is InputHandler || run[i].next->0 is OutputHandler) ==> run[i
            + 1].wrapper == run[i].wrapper,
        run[i].next->0 is OutputHandler && run[i].wrapper.request@.method == MethodView::Head
            ==> run[i + 1].wrapper == run[i].wrapper,
{
    reveal(advances);
    assert(advances(run[i], run[i + 1]));
}

/// Every state of a run but the last has something next.
pub proof fn lemma_goes_on<R: Resource>(run: Seq<State<R>>, i: int)
    requires
        is_run(run),
        0 <= i < run.len() - 1,
    ensures
        run[i].next is Some,
{
    assert(advances(run[i], run[i + 1]));
}

/// Every answer of the engine has exactly one head, and the response is
/// started once: the run behind an answer has one step that sends the
/// head and starts the response, and the head of the answer is that head.
pub proof fn lemma_answer_has_one_head<R: Resource>(resource: R, request: Request, r: Response)
    requires
        answers_as_directed(resource, request, r),
    ensures
        exists|run: Seq<State<R>>, k: int|
            {
                &&& #[trigger] is_run(run) && begins(run[0], resource, request) && ends_in(
                    run.last(),
                    r,
                )
                &&& 0 <= k < run.len() - 1
                &&& forall|j: int| 0 <= j <= k ==> (#[trigger] run[j]).sent is None
                &&& forall|j: int|
                    k < j < run.len() ==> (#[trigger] run[j]).sent == Some(r.head)
                &&& #[trigger] run[k].phase() == Phase::Sending
                &&& run[k + 1].wrapper.response is Started
            },
{
    let run = choose|run: Seq<State<R>>|
        #[trigger] is_run(run) && begins(run[0], resource, request) && ends_in(run.last(), r);
    lemma_exactly_one_head(run);
    let k = choose|k: int|
        {
            &&& 0 <= k < run.len() - 1
            &&& forall|j: int| 0 <= j <= k ==> (#[trigger] run[j]).sent is None
            &&& forall|j: int|
                k < j < run.len() ==> (#[trigger] run[j]).sent is Some && run[j].sent
                    == run.last().sent
            &&& run[k].phase() == Phase::Sending
            &&& run[k + 1].wrapper.response is Started
        };
    assert(is_run(run) && run[k].phase() == Phase::Sending);
}

/// Once a head is sent, it stays the head that is sent to the end of the
/// run.
pub proof fn lemma_sent_head_stays<R: Resource>(run: Seq<State<R>>, i: int, j: int)
    requires
        is_run(run),
        0 <= i <= j < run.len(),
        run[i].sent is Some,
    ensures
        run[j].sent == run[i].sent,
    decreases j - i,
{
    reveal(advances);
    if i < j {
        lemma_sent_head_stays(run, i, j - 1);
        assert(advances(run[j - 1], run[j - 1 + 1]));
    }
}

/// The step before which no head was sent and after which one is, for a
/// point of the run at which a head is sent.
proof fn lemma_find_sending<R: Resource>(run: Seq<State<R>>, n: int) -> (k: int)
    requires
        is_run(run),
        0 <= n < run.len(),
        run[n].sent is Some,
    ensures
        0 <= k < n,
        run[k].sent is None,
        run[k + 1].sent is Some,
        forall|j: int| 0 <= j <= k ==> (#[trigger] run[j]).sent is None,
    decreases n,
{
    reveal(advances);
    assert(n > 0);
    if run[n - 1].sent is None {
        assert forall|j: int| 0 <= j <= n - 1 implies (#[trigger] run[j]).sent is None by {
            if run[j].sent is Some {
                lemma_sent_head_stays(run, j, n - 1);
            }
        }
        n - 1
    } else {
        lemma_find_sending(run, n - 1)
    }
}

/// Every request gets exactly one head. In a run that has come to its
/// end there is one step that sends the head. Before it no head is sent;
/// it finds the exchange in the phase `Sending` and leaves the response
/// started; after it the head that is sent is always the same.
pub proof fn lemma_exactly_one_head<R: Resource>(run: Seq<State<R>>)
    requires
        is_run(run),
        run.last().next is None,
    ensures
        exists|k: int|
            {
                &&& 0 <= k < run.len() - 1
                &&& forall|j: int| 0 <= j <= k ==> (#[trigger] run[j]).sent is None
                &&& forall|j: int|
                    k < j < run.len() ==> (#[trigger] run[j]).sent is Some && run[j].sent
                        == run.last().sent
                &&& run[k].phase() == Phase::Sending
                &&& run[k + 1].wrapper.response is Started
            },
{
    reveal(advances);
    let n = run.len() - 1;
    assert(run[n].sent is Some) by {
        if n > 0 {
            assert(advances(run[n - 1], run[n - 1 + 1]));
        }
    }
    let k = lemma_find_sending(run, n);
    assert(advances(run[k], run[k + 1]));
    lemma_sending_step(run[k], run[k + 1]);
    assert forall|j: int| k < j < run.len() implies (#[trigger] run[j]).sent is Some
        && run[j].sent == run.last().sent by {
        lemma_sent_head_stays(run, k + 1, j);
        lemma_sent_head_stays(run, k + 1, n);
    }
    assert({
        &&& 0 <= k < run.len() - 1
        &&& forall|j: int| 0 <= j <= k ==> (#[trigger] run[j]).sent is None
        &&& forall|j: int|
            k < j < run.len() ==> (#[trigger] run[j]).sent is Some && run[j].sent
                == run.last().sent
        &&& run[k].phase() == Phase::Sending
        &&& run[k + 1].wrapper.response is Started
    });
}

/// The step that sends the head finds the exchange in the phase `Sending`
/// and leaves the response started.
pub proof fn lemma_sending_step<R: Resource>(before: State<R>, after: State<R>)
    requires
        advances(before, after),
        before.sent is None,
        after.sent is Some,
    ensures
        before.phase() == Phase::Sending,
        after.wrapper.response is Started,
{
    reveal(advances);
}

/// The response is started at most once. Of two steps of a run, the
/// later one does not send a head if the earlier one has.
pub proof fn lemma_started_once<R: Resource>(run: Seq<State<R>>, i: int, j: int)
    requires
        is_run(run),
        0 <= i < j < run.len() - 1,
        run[i].sent is None,
        run[i + 1].sent is Some,
    ensures
        run[j].sent is Some,
        run[j + 1].sent == run[j].sent,
        run[j].phase() != Phase::Sending,
{
    reveal(advances);
    lemma_sent_head_stays(run, i + 1, j);
    lemma_sent_head_stays(run, i + 1, j + 1);
}

/// A handler runs after the head is sent. The step that runs the handler
/// that an outcome names is the one that leaves nothing to do, and it
/// finds the head sent.
pub proof fn lemma_handler_follows_head<R: Resource>(before: State<R>, after: State<R>)
    requires
        before.wf(),
        before.next matches Some(Outcomes::InputHandler(_)) || before.next matches Some(
            Outcomes::OutputHandler(_),
        ),
        advances(before, after),
        after.next is None,
    ensures
        before.phase() == Phase::Serving,
        before.sent is Some,
        after.sent == before.sent,
{
    reveal(advances);
}

/// No run is longer than the graph is deep: a request is answered within
/// 57 steps.
pub proof fn lemma_run_ends<R: Resource>(run: Seq<State<R>>, i: int)
    requires
        is_run(run),
        0 <= i < run.len(),
    ensures
        run[i].left() + i <= 57,
    decreases i,
{
    reveal(advances);
    if i > 0 {
        lemma_run_ends(run, i - 1);
        assert(advances(run[i - 1], run[i - 1 + 1]));
    }
}

} // verus!
