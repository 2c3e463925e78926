//! What the engine answers to a request whose method a resource that keeps
//! every default does not allow, or does not know.

use vstd::prelude::*;
use crate::exchange::{
    answers_as_directed, begins, ends_in, is_run, lemma_sending_step_of_run,
    lemma_serving_step_of_run, lemma_visiting_step, State,
};
use crate::flow::{DelayedResponseView, Ending, Outcomes, ResourceWrapper, Response};
use crate::graph::Node;
use crate::message::{
    joined_names, lists_method, HeaderView, Method, MethodView, Request, ResponseBuilderView,
};
use crate::nodes::visited;
use crate::reading::{lemma_way_ends, untouched};
use crate::resource::{Callback, Resource};

verus! {

/// A resource that keeps every default.
pub open spec fn keeps_every<R: Resource>(resource: R) -> bool {
    forall|c: Callback| #[trigger] resource.keeps(c)
}

/// A method that a resource knows by default and does not allow by
/// default: POST, PUT, DELETE, TRACE, CONNECT and OPTIONS.
pub open spec fn writes(m: MethodView) -> bool {
    m == MethodView::Post || m == MethodView::Put || m == MethodView::Delete || m
        == MethodView::Trace || m == MethodView::Connect || m == MethodView::Options
}

/// A method that a resource does not know by default: PATCH, and every
/// method outside the standard ones.
pub open spec fn unknown(m: MethodView) -> bool {
    m == MethodView::Patch || m is Extension
}

/// The methods that a resource allows by default.
pub open spec fn allowed_by_default() -> Seq<Method> {
    seq![Method::Get, Method::Head]
}

/// A wrapper on the way of a request that is about to be refused.
pub open spec fn fresh<R: Resource>(w: ResourceWrapper<R>) -> bool {
    keeps_every(w.resource) && w.response@ == untouched()
}

proof fn lemma_to_b12<R: Resource>(
    before: ResourceWrapper<R>,
    out: Outcomes<R::Input, R::Output>,
    after: ResourceWrapper<R>,
)
    requires
        fresh(before),
        visited(before, Node::B13, out, after),
    ensures
        out == Outcomes::<R::Input, R::Output>::Next(Node::B12),
        after == before,
{
    assert(before.resource.keeps(Callback::ServiceAvailable));
}

proof fn lemma_at_b12<R: Resource>(
    before: ResourceWrapper<R>,
    out: Outcomes<R::Input, R::Output>,
    after: ResourceWrapper<R>,
)
    requires
        fresh(before),
        visited(before, Node::B12, out, after),
        writes(before.request@.method) || unknown(before.request@.method),
    ensures
        writes(before.request@.method) ==> out == Outcomes::<R::Input, R::Output>::Next(
            Node::B11,
        ),
        unknown(before.request@.method) ==> out == Outcomes::<R::Input, R::Output>::Halt(501),
        after == before,
{
    let m = before.request@.method;
    assert forall|known: Vec<Method>| #[trigger]
        call_ensures(R::known_methods, (&before.resource,), known) implies lists_method(
        known@,
        m,
    ) == writes(m) by {
        assert(before.resource.keeps(Callback::KnownMethods));
        assert(known@[2]@ == MethodView::Post);
        assert(known@[3]@ == MethodView::Put);
        assert(known@[4]@ == MethodView::Delete);
        assert(known@[5]@ == MethodView::Trace);
        assert(known@[6]@ == MethodView::Connect);
        assert(known@[7]@ == MethodView::Options);
        assert(known@[0]@ == MethodView::Get);
        assert(known@[1]@ == MethodView::Head);
    }
}

proof fn lemma_at_b11<R: Resource>(
    before: ResourceWrapper<R>,
    out: Outcomes<R::Input, R::Output>,
    after: ResourceWrapper<R>,
)
    requires
        fresh(before),
        visited(before, Node::B11, out, after),
    ensures
        out == Outcomes::<R::Input, R::Output>::Next(Node::B10),
        after == before,
{
    assert(before.resource.keeps(Callback::UriTooLong));
}

proof fn lemma_at_b10<R: Resource>(
    before: ResourceWrapper<R>,
    out: Outcomes<R::Input, R::Output>,
    after: ResourceWrapper<R>,
)
    requires
        fresh(before),
        visited(before, Node::B10, out, after),
        writes(before.request@.method),
    ensures
        out == Outcomes::<R::Input, R::Output>::Halt(405),
        after.response@ == DelayedResponseView::Waiting(
            ResponseBuilderView {
                status: None,
                headers: seq![
                    HeaderView {
                        name: "Allow"@,
                        value: joined_names(allowed_by_default(), 2),
                    },
                ],
            },
        ),
{
    let m = before.request@.method;
    assert forall|allowed: Vec<Method>| #[trigger]
        call_ensures(R::allowed_methods, (&before.resource,), allowed) implies allowed@
        == allowed_by_default() && !lists_method(allowed@, m) by {
        assert(before.resource.keeps(Callback::AllowedMethods));
        assert(allowed@ =~= allowed_by_default());
    }
    assert(Seq::<HeaderView>::empty().push(
        HeaderView { name: "Allow"@, value: joined_names(allowed_by_default(), 2) },
    ) =~= seq![HeaderView { name: "Allow"@, value: joined_names(allowed_by_default(), 2) }]);
}

/// A request with a method that a resource knows and does not allow by
/// default is refused at B10: the head has status 405 and lists in
/// `Allow` the methods that are allowed, GET and HEAD, and no body
/// follows. No handler runs.
pub proof fn lemma_writing_is_not_allowed<R: Resource>(resource: R, request: Request, r: Response)
    requires
        answers_as_directed(resource, request, r),
        keeps_every(resource),
        writes(request@.method),
    ensures
        r.head.status == 405,
        r.head@.headers == seq![
            HeaderView { name: "Allow"@, value: joined_names(allowed_by_default(), 2) },
        ],
        r.body@.len() == 0,
        r.ending == Ending::Halted(405),
        r.trace@ == seq![Node::B13, Node::B12, Node::B11, Node::B10],
{
    let run = choose|run: Seq<State<R>>|
        #[trigger] is_run(run) && begins(run[0], resource, request) && ends_in(run.last(), r);
    lemma_visiting_step(run, 0, Node::B13);
    lemma_to_b12(run[0].wrapper, run[1].next->0, run[1].wrapper);
    lemma_visiting_step(run, 1, Node::B12);
    lemma_at_b12(run[1].wrapper, run[2].next->0, run[2].wrapper);
    lemma_visiting_step(run, 2, Node::B11);
    lemma_at_b11(run[2].wrapper, run[3].next->0, run[3].wrapper);
    lemma_visiting_step(run, 3, Node::B10);
    lemma_at_b10(run[3].wrapper, run[4].next->0, run[4].wrapper);
    assert(run[4].trace@ =~= seq![Node::B13, Node::B12, Node::B11, Node::B10]);
    lemma_way_ends(run, 4);
    lemma_sending_step_of_run(run, 4);
    lemma_serving_step_of_run(run, 5);
    assert(run[5].sent->0@.status == 405);
}

/// A request with a method that a resource does not know by default is
/// refused at B12 with 501, without header fields or a body.
pub proof fn lemma_unknown_is_not_implemented<R: Resource>(
    resource: R,
    request: Request,
    r: Response,
)
    requires
        answers_as_directed(resource, request, r),
        keeps_every(resource),
        unknown(request@.method),
    ensures
        r.head.status == 501,
        r.head@.headers.len() == 0,
        r.body@.len() == 0,
        r.ending == Ending::Halted(501),
        r.trace@ == seq![Node::B13, Node::B12],
{
    let run = choose|run: Seq<State<R>>|
        #[trigger] is_run(run) && begins(run[0], resource, request) && ends_in(run.last(), r);
    lemma_visiting_step(run, 0, Node::B13);
    lemma_to_b12(run[0].wrapper, run[1].next->0, run[1].wrapper);
    lemma_visiting_step(run, 1, Node::B12);
    lemma_at_b12(run[1].wrapper, run[2].next->0, run[2].wrapper);
    assert(run[2].trace@ =~= seq![Node::B13, Node::B12]);
    lemma_way_ends(run, 2);
    lemma_sending_step_of_run(run, 2);
    lemma_serving_step_of_run(run, 3);
    assert(run[3].sent->0@.status == 501);
}

} // verus!
