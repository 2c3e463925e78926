//! What the engine answers to a reading request: a GET or a HEAD that
//! carries no precondition and negotiates nothing but the media type, to
//! a resource that keeps every default.

use vstd::prelude::*;
use crate::conneg::Error;
use crate::decision::{
    lemma_position_is_first, lifted, negotiated, position_of, provided_types,
    representation_choice,
};
use crate::exchange::{
    answers_as_directed, begins, ends_in, is_run, lemma_goes_on, lemma_passing_step,
    lemma_sending_step_of_run, lemma_serving_step_of_run, passed, Phase, State,
};
use crate::flow::{DelayedResponseView, Ending, Outcomes, ResourceWrapper, Response};
use crate::graph::{Node, Step};
use crate::media::{essence_of, MediaTypeView};
use crate::message::{
    header_value, lists_method, HeaderView, Method, MethodView, Request, ResponseBuilderView,
};
use crate::resource::{Callback, ProvidedPair, Resource};

verus! {

/// A resource that keeps every default, and that offers representations
/// of the media types `types`, in this order, whenever it is asked.
pub open spec fn offers<R: Resource>(resource: R, types: Seq<MediaTypeView>) -> bool {
    &&& forall|c: Callback| #[trigger] resource.keeps(c)
    &&& forall|p: Vec<ProvidedPair<R::Output>>| #[trigger]
        call_ensures(R::content_types_provided, (&resource,), p) ==> provided_types(p@) == types
}

/// A reading request: a GET or a HEAD that announces no body, negotiates
/// neither language, charset nor encoding, and carries no precondition.
/// An `Accept` header and any other header field it may carry.
pub open spec fn reads(request: Request) -> bool {
    let fields = request@.headers;
    &&& request@.method == MethodView::Get || request@.method == MethodView::Head
    &&& header_value(fields, "Content-Length"@) is None
    &&& header_value(fields, "Transfer-Encoding"@) is None
    &&& header_value(fields, "Accept-Language"@) is None
    &&& header_value(fields, "Accept-Charset"@) is None
    &&& header_value(fields, "Accept-Encoding"@) is None
    &&& header_value(fields, "If-Match"@) is None
    &&& header_value(fields, "If-Unmodified-Since"@) is None
    &&& header_value(fields, "If-None-Match"@) is None
    &&& header_value(fields, "If-Modified-Since"@) is None
}

/// What a reading request asks to accept.
pub open spec fn accepting(request: Request) -> Option<Seq<char>> {
    header_value(request@.headers, "Accept"@)
}

/// The way of a reading request through the graph, by way of C4 where it
/// carries an `Accept` header.
pub open spec fn reading_way(with_accept: bool) -> Seq<Node> {
    if with_accept {
        seq![
            Node::B13,
            Node::B12,
            Node::B11,
            Node::B10,
            Node::B9,
            Node::B8,
            Node::B7,
            Node::B6,
            Node::B5,
            Node::B4,
            Node::B3,
            Node::C3,
            Node::C4,
            Node::D4,
            Node::E5,
            Node::F6,
            Node::G7,
            Node::G8,
            Node::H10,
            Node::I12,
            Node::L13,
            Node::M16,
            Node::N16,
            Node::O16,
            Node::O18,
        ]
    } else {
        seq![
            Node::B13,
            Node::B12,
            Node::B11,
            Node::B10,
            Node::B9,
            Node::B8,
            Node::B7,
            Node::B6,
            Node::B5,
            Node::B4,
            Node::B3,
            Node::C3,
            Node::D4,
            Node::E5,
            Node::F6,
            Node::G7,
            Node::G8,
            Node::H10,
            Node::I12,
            Node::L13,
            Node::M16,
            Node::N16,
            Node::O16,
            Node::O18,
        ]
    }
}

/// The builder of the head that answers a reading request: 200, and the
/// media type chosen in `Content-Type`.
pub open spec fn reading_head(chosen: MediaTypeView) -> ResponseBuilderView {
    ResponseBuilderView {
        status: Some(200u16),
        headers: seq![HeaderView { name: "Content-Type"@, value: essence_of(chosen) }],
    }
}

/// A response that waits with nothing set.
pub open spec fn untouched() -> DelayedResponseView {
    DelayedResponseView::Waiting(ResponseBuilderView { status: None, headers: Seq::empty() })
}

/// A wrapper on the way of a reading request: the resource offers
/// `types`, the request reads, the response waits with nothing set, and
/// once a media type is chosen it is the one recorded.
pub open spec fn reading<R: Resource>(
    w: ResourceWrapper<R>,
    types: Seq<MediaTypeView>,
    chosen: Option<MediaTypeView>,
) -> bool {
    &&& offers(w.resource, types)
    &&& reads(w.request)
    &&& w.response@ == untouched()
    &&& chosen matches Some(m) ==> w.metadata.content_type is Some && w.metadata.content_type->0@
        == m
}

proof fn lemma_at_b13<R: Resource>(
    before: ResourceWrapper<R>,
    out: Outcomes<R::Input, R::Output>,
    after: ResourceWrapper<R>,
    types: Seq<MediaTypeView>,
    chosen: Option<MediaTypeView>,
)
    requires
        reading(before, types, chosen),
        passed(before, Node::B13, out, after),
    ensures
        out == Outcomes::<R::Input, R::Output>::Next(Node::B12),
        after == before,
{
    reveal(passed);
}

proof fn lemma_at_b12<R: Resource>(
    before: ResourceWrapper<R>,
    out: Outcomes<R::Input, R::Output>,
    after: ResourceWrapper<R>,
    types: Seq<MediaTypeView>,
    chosen: Option<MediaTypeView>,
)
    requires
        reading(before, types, chosen),
        passed(before, Node::B12, out, after),
    ensures
        out == Outcomes::<R::Input, R::Output>::Next(Node::B11),
        after == before,
{
    reveal(passed);
    assert forall|known: Vec<Method>| #[trigger]
        call_ensures(R::known_methods, (&before.resource,), known) implies lists_method(
        known@,
        before.request@.method,
    ) by {
        assert(before.resource.keeps(Callback::KnownMethods));
        assert(known@[0]@ == MethodView::Get);
        assert(known@[1]@ == MethodView::Head);
    }
}

proof fn lemma_at_b11<R: Resource>(
    before: ResourceWrapper<R>,
    out: Outcomes<R::Input, R::Output>,
    after: ResourceWrapper<R>,
    types: Seq<MediaTypeView>,
    chosen: Option<MediaTypeView>,
)
    requires
        reading(before, types, chosen),
        passed(before, Node::B11, out, after),
    ensures
        out == Outcomes::<R::Input, R::Output>::Next(Node::B10),
        after == before,
{
    reveal(passed);
}

proof fn lemma_at_b10<R: Resource>(
    before: ResourceWrapper<R>,
    out: Outcomes<R::Input, R::Output>,
    after: ResourceWrapper<R>,
    types: Seq<MediaTypeView>,
    chosen: Option<MediaTypeView>,
)
    requires
        reading(before, types, chosen),
        passed(before, Node::B10, out, after),
    ensures
        out == Outcomes::<R::Input, R::Output>::Next(Node::B9),
        after == before,
{
    reveal(passed);
    assert forall|allowed: Vec<Method>| #[trigger]
        call_ensures(R::allowed_methods, (&before.resource,), allowed) implies lists_method(
        allowed@,
        before.request@.method,
    ) by {
        assert(before.resource.keeps(Callback::AllowedMethods));
        assert(allowed@[0]@ == MethodView::Get);
        assert(allowed@[1]@ == MethodView::Head);
    }
}

proof fn lemma_at_b9<R: Resource>(
    before: ResourceWrapper<R>,
    out: Outcomes<R::Input, R::Output>,
    after: ResourceWrapper<R>,
    types: Seq<MediaTypeView>,
    chosen: Option<MediaTypeView>,
)
    requires
        reading(before, types, chosen),
        passed(before, Node::B9, out, after),
    ensures
        out == Outcomes::<R::Input, R::Output>::Next(Node::B8),
        after == before,
{
    reveal(passed);
}

proof fn lemma_at_b8<R: Resource>(
    before: ResourceWrapper<R>,
    out: Outcomes<R::Input, R::Output>,
    after: ResourceWrapper<R>,
    types: Seq<MediaTypeView>,
    chosen: Option<MediaTypeView>,
)
    requires
        reading(before, types, chosen),
        passed(before, Node::B8, out, after),
    ensures
        out == Outcomes::<R::Input, R::Output>::Next(Node::B7),
        after == before,
{
    reveal(passed);
}

proof fn lemma_at_b7<R: Resource>(
    before: ResourceWrapper<R>,
    out: Outcomes<R::Input, R::Output>,
    after: ResourceWrapper<R>,
    types: Seq<MediaTypeView>,
    chosen: Option<MediaTypeView>,
)
    requires
        reading(before, types, chosen),
        passed(before, Node::B7, out, after),
    ensures
        out == Outcomes::<R::Input, R::Output>::Next(Node::B6),
        after == before,
{
    reveal(passed);
}

proof fn lemma_at_b6<R: Resource>(
    before: ResourceWrapper<R>,
    out: Outcomes<R::Input, R::Output>,
    after: ResourceWrapper<R>,
    types: Seq<MediaTypeView>,
    chosen: Option<MediaTypeView>,
)
    requires
        reading(before, types, chosen),
        passed(before, Node::B6, out, after),
    ensures
        out == Outcomes::<R::Input, R::Output>::Next(Node::B5),
        after == before,
{
    reveal(passed);
}

proof fn lemma_at_b5<R: Resource>(
    before: ResourceWrapper<R>,
    out: Outcomes<R::Input, R::Output>,
    after: ResourceWrapper<R>,
    types: Seq<MediaTypeView>,
    chosen: Option<MediaTypeView>,
)
    requires
        reading(before, types, chosen),
        passed(before, Node::B5, out, after),
    ensures
        out == Outcomes::<R::Input, R::Output>::Next(Node::B4),
        after == before,
{
    reveal(passed);
}

proof fn lemma_at_b4<R: Resource>(
    before: ResourceWrapper<R>,
    out: Outcomes<R::Input, R::Output>,
    after: ResourceWrapper<R>,
    types: Seq<MediaTypeView>,
    chosen: Option<MediaTypeView>,
)
    requires
        reading(before, types, chosen),
        passed(before, Node::B4, out, after),
    ensures
        out == Outcomes::<R::Input, R::Output>::Next(Node::B3),
        after == before,
{
    reveal(passed);
}

proof fn lemma_at_b3<R: Resource>(
    before: ResourceWrapper<R>,
    out: Outcomes<R::Input, R::Output>,
    after: ResourceWrapper<R>,
    types: Seq<MediaTypeView>,
    chosen: Option<MediaTypeView>,
)
    requires
        reading(before, types, chosen),
        passed(before, Node::B3, out, after),
    ensures
        out == Outcomes::<R::Input, R::Output>::Next(Node::C3),
        after == before,
{
    reveal(passed);
}

proof fn lemma_at_d4<R: Resource>(
    before: ResourceWrapper<R>,
    out: Outcomes<R::Input, R::Output>,
    after: ResourceWrapper<R>,
    types: Seq<MediaTypeView>,
    chosen: Option<MediaTypeView>,
)
    requires
        reading(before, types, chosen),
        passed(before, Node::D4, out, after),
    ensures
        out == Outcomes::<R::Input, R::Output>::Next(Node::E5),
        after == before,
{
    reveal(passed);
}

proof fn lemma_at_e5<R: Resource>(
    before: ResourceWrapper<R>,
    out: Outcomes<R::Input, R::Output>,
    after: ResourceWrapper<R>,
    types: Seq<MediaTypeView>,
    chosen: Option<MediaTypeView>,
)
    requires
        reading(before, types, chosen),
        passed(before, Node::E5, out, after),
    ensures
        out == Outcomes::<R::Input, R::Output>::Next(Node::F6),
        after == before,
{
    reveal(passed);
}

proof fn lemma_at_f6<R: Resource>(
    before: ResourceWrapper<R>,
    out: Outcomes<R::Input, R::Output>,
    after: ResourceWrapper<R>,
    types: Seq<MediaTypeView>,
    chosen: Option<MediaTypeView>,
)
    requires
        reading(before, types, chosen),
        passed(before, Node::F6, out, after),
    ensures
        out == Outcomes::<R::Input, R::Output>::Next(Node::G7),
        after == before,
{
    reveal(passed);
}

proof fn lemma_at_g7<R: Resource>(
    before: ResourceWrapper<R>,
    out: Outcomes<R::Input, R::Output>,
    after: ResourceWrapper<R>,
    types: Seq<MediaTypeView>,
    chosen: Option<MediaTypeView>,
)
    requires
        reading(before, types, chosen),
        passed(before, Node::G7, out, after),
    ensures
        out == Outcomes::<R::Input, R::Output>::Next(Node::G8),
        after == before,
{
    reveal(passed);
}

proof fn lemma_at_g8<R: Resource>(
    before: ResourceWrapper<R>,
    out: Outcomes<R::Input, R::Output>,
    after: ResourceWrapper<R>,
    types: Seq<MediaTypeView>,
    chosen: Option<MediaTypeView>,
)
    requires
        reading(before, types, chosen),
        passed(before, Node::G8, out, after),
    ensures
        out == Outcomes::<R::Input, R::Output>::Next(Node::H10),
        after == before,
{
    reveal(passed);
}

proof fn lemma_at_h10<R: Resource>(
    before: ResourceWrapper<R>,
    out: Outcomes<R::Input, R::Output>,
    after: ResourceWrapper<R>,
    types: Seq<MediaTypeView>,
    chosen: Option<MediaTypeView>,
)
    requires
        reading(before, types, chosen),
        passed(before, Node::H10, out, after),
    ensures
        out == Outcomes::<R::Input, R::Output>::Next(Node::I12),
        after == before,
{
    reveal(passed);
}

proof fn lemma_at_i12<R: Resource>(
    before: ResourceWrapper<R>,
    out: Outcomes<R::Input, R::Output>,
    after: ResourceWrapper<R>,
    types: Seq<MediaTypeView>,
    chosen: Option<MediaTypeView>,
)
    requires
        reading(before, types, chosen),
        passed(before, Node::I12, out, after),
    ensures
        out == Outcomes::<R::Input, R::Output>::Next(Node::L13),
        after == before,
{
    reveal(passed);
}

proof fn lemma_at_l13<R: Resource>(
    before: ResourceWrapper<R>,
    out: Outcomes<R::Input, R::Output>,
    after: ResourceWrapper<R>,
    types: Seq<MediaTypeView>,
    chosen: Option<MediaTypeView>,
)
    requires
        reading(before, types, chosen),
        passed(before, Node::L13, out, after),
    ensures
        out == Outcomes::<R::Input, R::Output>::Next(Node::M16),
        after == before,
{
    reveal(passed);
}

proof fn lemma_at_m16<R: Resource>(
    before: ResourceWrapper<R>,
    out: Outcomes<R::Input, R::Output>,
    after: ResourceWrapper<R>,
    types: Seq<MediaTypeView>,
    chosen: Option<MediaTypeView>,
)
    requires
        reading(before, types, chosen),
        passed(before, Node::M16, out, after),
    ensures
        out == Outcomes::<R::Input, R::Output>::Next(Node::N16),
        after == before,
{
    reveal(passed);
}

proof fn lemma_at_n16<R: Resource>(
    before: ResourceWrapper<R>,
    out: Outcomes<R::Input, R::Output>,
    after: ResourceWrapper<R>,
    types: Seq<MediaTypeView>,
    chosen: Option<MediaTypeView>,
)
    requires
        reading(before, types, chosen),
        passed(before, Node::N16, out, after),
    ensures
        out == Outcomes::<R::Input, R::Output>::Next(Node::O16),
        after == before,
{
    reveal(passed);
}

proof fn lemma_at_o16<R: Resource>(
    before: ResourceWrapper<R>,
    out: Outcomes<R::Input, R::Output>,
    after: ResourceWrapper<R>,
    types: Seq<MediaTypeView>,
    chosen: Option<MediaTypeView>,
)
    requires
        reading(before, types, chosen),
        passed(before, Node::O16, out, after),
    ensures
        out == Outcomes::<R::Input, R::Output>::Next(Node::O18),
        after == before,
{
    reveal(passed);
}

/// What the node that settles the media type does on the way: C3 for a
/// request without `Accept`, C4 for one with it.
proof fn lemma_settling<R: Resource>(
    before: ResourceWrapper<R>,
    n: Node,
    out: Outcomes<R::Input, R::Output>,
    after: ResourceWrapper<R>,
    types: Seq<MediaTypeView>,
)
    requires
        reading(before, types, None),
        passed(before, n, out, after),
        n == Node::C3 && accepting(before.request) is None || n == Node::C4,
    ensures
        match representation_choice(types, accepting(before.request)) {
            Ok(i) => out == Outcomes::<R::Input, R::Output>::Next(Node::D4) && reading(
                after,
                types,
                Some(types[i]),
            ) && after.resource == before.resource && after.request == before.request,
            Err(step) => out == lifted::<R::Input, R::Output>(step) && after == before,
        },
{
    reveal(passed);
}

proof fn lemma_at_c3_accepting<R: Resource>(
    before: ResourceWrapper<R>,
    out: Outcomes<R::Input, R::Output>,
    after: ResourceWrapper<R>,
    types: Seq<MediaTypeView>,
)
    requires
        reading(before, types, None),
        passed(before, Node::C3, out, after),
        accepting(before.request) is Some,
    ensures
        out == Outcomes::<R::Input, R::Output>::Next(Node::C4),
        after == before,
{
    reveal(passed);
}

proof fn lemma_at_o18<R: Resource>(
    before: ResourceWrapper<R>,
    out: Outcomes<R::Input, R::Output>,
    after: ResourceWrapper<R>,
    types: Seq<MediaTypeView>,
    k: int,
)
    requires
        0 <= k < types.len(),
        reading(before, types, Some(types[k])),
        passed(before, Node::O18, out, after),
    ensures
        out is OutputHandler,
        after.response@ == DelayedResponseView::Waiting(reading_head(types[k])),
        after.resource == before.resource,
        after.request == before.request,
{
    reveal(passed);
    assert(before.resource.keeps(Callback::MultipleChoices));
    lemma_position_is_first(types, types[k], types.len() as int);
    assert(position_of(types, types[k], types.len() as int) is Some);
    assert(Seq::<HeaderView>::empty().push(
        HeaderView { name: "Content-Type"@, value: essence_of(types[k]) },
    ) =~= reading_head(types[k]).headers);
}

/// The number of nodes that a reading request passes before the media
/// type is settled.
pub open spec fn settling_at(with_accept: bool) -> int {
    if with_accept {
        12
    } else {
        11
    }
}

/// A run of a reading request goes the reading way up to the node that
/// settles the media type.
proof fn lemma_way_in<R: Resource>(
    run: Seq<State<R>>,
    i: int,
    resource: R,
    request: Request,
    types: Seq<MediaTypeView>,
)
    requires
        is_run(run),
        begins(run[0], resource, request),
        run.last().next is None,
        offers(resource, types),
        reads(request),
        0 <= i <= settling_at(accepting(request) is Some),
    ensures
        i < run.len() - 1,
        run[i].next == Some(
            Outcomes::<R::Input, R::Output>::Next(reading_way(accepting(request) is Some)[i]),
        ),
        run[i].trace@ == reading_way(accepting(request) is Some).take(i),
        run[i].sent is None,
        run[i].ending is None,
        reading(run[i].wrapper, types, None),
        run[i].wrapper.resource == resource,
        run[i].wrapper.request == request,
    decreases i,
{
    let way = reading_way(accepting(request) is Some);
    if i == 0 {
        assert(run[0].trace@ =~= way.take(0));
        if run.len() == 1 {
        }
    } else {
        lemma_way_in(run, i - 1, resource, request, types);
        let before = run[i - 1];
        let n = way[i - 1];
        lemma_passing_step(run, i - 1, n);
        let after = run[i];
        let out = after.next->0;
        assert(way.take(i) =~= way.take(i - 1).push(n));
        if i - 1 == 0 {
            lemma_at_b13(before.wrapper, out, after.wrapper, types, None);
        } else if i - 1 == 1 {
            lemma_at_b12(before.wrapper, out, after.wrapper, types, None);
        } else if i - 1 == 2 {
            lemma_at_b11(before.wrapper, out, after.wrapper, types, None);
        } else if i - 1 == 3 {
            lemma_at_b10(before.wrapper, out, after.wrapper, types, None);
        } else if i - 1 == 4 {
            lemma_at_b9(before.wrapper, out, after.wrapper, types, None);
        } else if i - 1 == 5 {
            lemma_at_b8(before.wrapper, out, after.wrapper, types, None);
        } else if i - 1 == 6 {
            lemma_at_b7(before.wrapper, out, after.wrapper, types, None);
        } else if i - 1 == 7 {
            lemma_at_b6(before.wrapper, out, after.wrapper, types, None);
        } else if i - 1 == 8 {
            lemma_at_b5(before.wrapper, out, after.wrapper, types, None);
        } else if i - 1 == 9 {
            lemma_at_b4(before.wrapper, out, after.wrapper, types, None);
        } else if i - 1 == 10 {
            lemma_at_b3(before.wrapper, out, after.wrapper, types, None);
        } else {
            lemma_at_c3_accepting(before.wrapper, out, after.wrapper, types);
        }
        if i == run.len() - 1 {
        }
    }
}

/// A run of a reading request whose media type is settled goes the rest
/// of the reading way to O18, which names the handler.
proof fn lemma_way_out<R: Resource>(
    run: Seq<State<R>>,
    i: int,
    resource: R,
    request: Request,
    types: Seq<MediaTypeView>,
    k: int,
)
    requires
        is_run(run),
        begins(run[0], resource, request),
        run.last().next is None,
        offers(resource, types),
        reads(request),
        representation_choice(types, accepting(request)) == Ok::<int, Step>(k),
        0 <= k < types.len(),
        settling_at(accepting(request) is Some) < i <= reading_way(
            accepting(request) is Some,
        ).len(),
    ensures
        i < run.len() - 1,
        run[i].trace@ == reading_way(accepting(request) is Some).take(i),
        run[i].sent is None,
        run[i].ending is None,
        run[i].wrapper.resource == resource,
        run[i].wrapper.request == request,
        i < reading_way(accepting(request) is Some).len() ==> run[i].next == Some(
            Outcomes::<R::Input, R::Output>::Next(reading_way(accepting(request) is Some)[i]),
        ) && reading(run[i].wrapper, types, Some(types[k])),
        i == reading_way(accepting(request) is Some).len() ==> run[i].next is Some
            && run[i].next->0 is OutputHandler && run[i].wrapper.response@
            == DelayedResponseView::Waiting(reading_head(types[k])),
    decreases i,
{
    let with_accept = accepting(request) is Some;
    let way = reading_way(with_accept);
    let d = settling_at(with_accept);
    let before = run[i - 1];
    let n = way[i - 1];
    if i - 1 == d {
        lemma_way_in(run, d, resource, request, types);
    } else {
        lemma_way_out(run, i - 1, resource, request, types, k);
    }
    lemma_passing_step(run, i - 1, n);
    let after = run[i];
    let out = after.next->0;
    assert(way.take(i) =~= way.take(i - 1).push(n));
    let j = i - 1 - d;
    if j == 0 {
        lemma_settling(before.wrapper, n, out, after.wrapper, types);
    } else if j == 1 {
        lemma_at_d4(before.wrapper, out, after.wrapper, types, Some(types[k]));
    } else if j == 2 {
        lemma_at_e5(before.wrapper, out, after.wrapper, types, Some(types[k]));
    } else if j == 3 {
        lemma_at_f6(before.wrapper, out, after.wrapper, types, Some(types[k]));
    } else if j == 4 {
        lemma_at_g7(before.wrapper, out, after.wrapper, types, Some(types[k]));
    } else if j == 5 {
        lemma_at_g8(before.wrapper, out, after.wrapper, types, Some(types[k]));
    } else if j == 6 {
        lemma_at_h10(before.wrapper, out, after.wrapper, types, Some(types[k]));
    } else if j == 7 {
        lemma_at_i12(before.wrapper, out, after.wrapper, types, Some(types[k]));
    } else if j == 8 {
        lemma_at_l13(before.wrapper, out, after.wrapper, types, Some(types[k]));
    } else if j == 9 {
        lemma_at_m16(before.wrapper, out, after.wrapper, types, Some(types[k]));
    } else if j == 10 {
        lemma_at_n16(before.wrapper, out, after.wrapper, types, Some(types[k]));
    } else if j == 11 {
        lemma_at_o16(before.wrapper, out, after.wrapper, types, Some(types[k]));
    } else {
        lemma_at_o18(before.wrapper, out, after.wrapper, types, k);
    }
    if i == run.len() - 1 {
    }
}

/// How a run ends that has come to a terminal outcome with no head sent
/// and the response waiting: the next step sends the head, the one after
/// leaves nothing to do, and that is the end of the run.
pub proof fn lemma_way_ends<R: Resource>(run: Seq<State<R>>, i: int)
    requires
        is_run(run),
        run.last().next is None,
        0 <= i < run.len() - 1,
        run[i].sent is None,
        run[i].next is Some,
        run[i].next->0 is Halt || run[i].next->0 is OutputHandler,
    ensures
        run.len() == i + 3,
        run[i + 2].sent == run[i + 1].sent,
        run[i + 2].trace == run[i].trace,
{
    lemma_sending_step_of_run(run, i);
    assert(run[i + 1].phase() == Phase::Serving);
    if i + 1 == run.len() - 1 {
    } else {
        lemma_serving_step_of_run(run, i + 1);
        if i + 2 < run.len() - 1 {
            lemma_goes_on(run, i + 2);
        }
    }
}

proof fn lemma_reading_served<R: Resource>(
    run: Seq<State<R>>,
    resource: R,
    request: Request,
    r: Response,
    types: Seq<MediaTypeView>,
    k: int,
)
    requires
        is_run(run),
        begins(run[0], resource, request),
        ends_in(run.last(), r),
        offers(resource, types),
        reads(request),
        representation_choice(types, accepting(request)) == Ok::<int, Step>(k),
        0 <= k < types.len(),
    ensures
        r.head.status == 200,
        r.head@.headers == seq![HeaderView { name: "Content-Type"@, value: essence_of(types[k]) }],
        r.trace@ == reading_way(accepting(request) is Some),
        r.ending == Ending::Served,
        request@.method == MethodView::Head ==> r.body@.len() == 0,
{
    let way = reading_way(accepting(request) is Some);
    let n = way.len() as int;
    lemma_way_out(run, n, resource, request, types, k);
    assert(run[n].trace@ == way) by {
        assert(way.take(n) =~= way);
    }
    lemma_way_ends(run, n);
    lemma_sending_step_of_run(run, n);
    lemma_serving_step_of_run(run, n + 1);
    assert(run[n + 1].sent->0@.status == 200);
    assert(run[n + 1].wrapper.response@ == DelayedResponseView::Started(Seq::empty()));
}

proof fn lemma_reading_halted<R: Resource>(
    run: Seq<State<R>>,
    resource: R,
    request: Request,
    r: Response,
    types: Seq<MediaTypeView>,
    status: u16,
)
    requires
        is_run(run),
        begins(run[0], resource, request),
        ends_in(run.last(), r),
        offers(resource, types),
        reads(request),
        representation_choice(types, accepting(request)) == Err::<int, Step>(Step::Stop(status)),
    ensures
        r.head.status == status,
        r.head@.headers.len() == 0,
        r.body@.len() == 0,
        r.ending == Ending::Halted(status),
        r.trace@ == reading_way(accepting(request) is Some).take(
            settling_at(accepting(request) is Some) + 1,
        ),
{
    let way = reading_way(accepting(request) is Some);
    let d = settling_at(accepting(request) is Some);
    lemma_way_in(run, d, resource, request, types);
    lemma_passing_step(run, d, way[d]);
    lemma_settling(run[d].wrapper, way[d], run[d + 1].next->0, run[d + 1].wrapper, types);
    assert(run[d + 1].next == Some(Outcomes::<R::Input, R::Output>::Halt(status)));
    assert(run[d + 1].trace@ == way.take(d + 1)) by {
        assert(way.take(d + 1) =~= way.take(d).push(way[d]));
    }
    if d + 1 == run.len() - 1 {
    }
    lemma_way_ends(run, d + 1);
    lemma_sending_step_of_run(run, d + 1);
    lemma_serving_step_of_run(run, d + 2);
    assert(run[d + 2].sent->0@.status == status);
    assert(run[d + 2].wrapper.response@ == DelayedResponseView::Started(Seq::empty()));
}

/// What `representation_choice` settles on is one of the media types on
/// offer, and where it settles on none it halts.
pub proof fn lemma_choice_is_on_offer(types: Seq<MediaTypeView>, accept: Option<Seq<char>>)
    ensures
        match representation_choice(types, accept) {
            Ok(k) => 0 <= k < types.len(),
            Err(step) => step is Stop,
        },
{
    match accept {
        Some(header) => {
            match crate::conneg::accept_ranges(header) {
                Some(ranges) => {
                    crate::conneg::lemma_pick_is_acceptable(types, ranges);
                },
                None => {},
            }
        },
        None => {},
    }
}

/// A reading request to a resource that keeps every default is answered
/// as the negotiation of its media type says.
///
/// Where `representation_choice` settles on a media type, the request
/// goes the reading way to O18, and the head has status 200 and names that
/// media type in `Content-Type`; the handler that O18 named ends the
/// request, and the answer to a HEAD has no body. Where it settles on
/// none, the request halts at the node that negotiates, with the status
/// that `representation_choice` gives, no header fields and no body.
pub proof fn lemma_reading_is_answered<R: Resource>(
    resource: R,
    request: Request,
    r: Response,
    types: Seq<MediaTypeView>,
)
    requires
        answers_as_directed(resource, request, r),
        offers(resource, types),
        reads(request),
    ensures
        match representation_choice(types, accepting(request)) {
            Ok(k) => {
                &&& 0 <= k < types.len()
                &&& r.head.status == 200
                &&& r.head@.headers == seq![
                    HeaderView { name: "Content-Type"@, value: essence_of(types[k]) },
                ]
                &&& r.trace@ == reading_way(accepting(request) is Some)
                &&& r.ending == Ending::Served
                &&& request@.method == MethodView::Head ==> r.body@.len() == 0
            },
            Err(step) => {
                &&& step is Stop
                &&& r.head.status == step->Stop_0
                &&& r.head@.headers.len() == 0
                &&& r.body@.len() == 0
                &&& r.ending == Ending::Halted(step->Stop_0)
                &&& r.trace@ == reading_way(accepting(request) is Some).take(
                    settling_at(accepting(request) is Some) + 1,
                )
            },
        },
{
    let run = choose|run: Seq<State<R>>|
        #[trigger] is_run(run) && begins(run[0], resource, request) && ends_in(run.last(), r);
    lemma_choice_is_on_offer(types, accepting(request));
    match representation_choice(types, accepting(request)) {
        Ok(k) => {
            lemma_reading_served(run, resource, request, r, types, k);
        },
        Err(step) => {
            lemma_reading_halted(run, resource, request, r, types, step->Stop_0);
        },
    }
}

} // verus!
