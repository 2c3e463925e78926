//! What an answer says that ends with `Done`, and what the engine answers
//! to a POST that a resource takes.

use vstd::prelude::*;
use crate::decision::{provided_types, representation_choice};
use crate::exchange::{
    advances, answers_as_directed, begins, ends_in, is_run, lemma_exactly_one_head,
    lemma_goes_on, lemma_passing_step, lemma_sending_step_of_run, lemma_visiting_step, passed,
    Phase, State,
};
use crate::flow::{
    is_failure, DelayedResponse, DelayedResponseView, Ending, Outcomes, ResourceWrapper, Response,
};
use crate::graph::Node;
use crate::media::MediaTypeView;
use crate::message::{
    head_of, header_value, lists_method, HeaderView, Method, MethodView, Request,
    ResponseBuilderView, ResponseHeadView,
};
use crate::nodes::{content_type_of, handles, names_place, posts, takes, visited};
use crate::precondition::announced_length;
use crate::reading::{accepting, settling_at, untouched};
use crate::resource::{AcceptedPair, Callback, ProvidedPair, Resource};

verus! {

/// Only node N11 hands back `Done`.
pub proof fn lemma_done_comes_from_posting<R: Resource>(
    before: ResourceWrapper<R>,
    n: Node,
    out: Outcomes<R::Input, R::Output>,
    after: ResourceWrapper<R>,
)
    requires
        visited(before, n, out, after),
        out is Done,
    ensures
        n == Node::N11,
{
}

/// What node N11 has done where it hands back `Done`: the resource has
/// said that the POST creates, its input handler for the content type
/// of the request has run, it has answered a call of `process_post`
/// with yes, and the response names the path that the resource gives
/// as it is left.
pub proof fn lemma_done_is_created<R: Resource>(
    before: ResourceWrapper<R>,
    after: ResourceWrapper<R>,
)
    requires
        posts(before, Outcomes::<R::Input, R::Output>::Done, after),
    ensures
        call_ensures(R::post_is_create, (&before.resource,), true),
        exists|accepted: Vec<AcceptedPair<R::Input>>| #[trigger]
            call_ensures(R::content_types_accepted, (&before.resource,), accepted) && takes(
                accepted@,
                content_type_of(before.request@),
            ) && handles(before, accepted@),
        exists|handled: &mut R, taken: &mut DelayedResponse| #[trigger]
            call_ensures(R::process_post, (handled, taken), true),
        exists|path: String| #[trigger]
            call_ensures(R::create_path, (&after.resource,), path) && names_place(
                after.response@,
                path@,
            ),
{
}

/// Once a head is sent, the ending that is recorded stays to the end of
/// the run.
proof fn lemma_ending_stays<R: Resource>(run: Seq<State<R>>, i: int, j: int)
    requires
        is_run(run),
        0 <= i <= j < run.len(),
        run[i].sent is Some,
    ensures
        run[j].sent is Some,
        run[j].ending == run[i].ending,
    decreases j - i,
{
    reveal(advances);
    if i < j {
        lemma_ending_stays(run, i, j - 1);
        assert(advances(run[j - 1], run[j - 1 + 1]));
    }
}

/// That a head answers for what was created at `place`: its status is
/// 201, and its last field is `Location` with the place.
pub open spec fn tells_place(head: ResponseHeadView, place: Seq<char>) -> bool {
    head.status == 201 && head.headers.len() > 0 && head.headers.last() == (HeaderView {
        name: "Location"@,
        value: place,
    })
}

/// An answer that ends with `Done` is the answer to a POST that has
/// created something, whatever the resource and the request. The last
/// node passed is N11. The resource has answered a call of
/// `process_post` with yes. The head tells the place that the resource
/// gave as node N11 left it, and the body is empty; if something else
/// has started the response before the engine, the head is the failure
/// head.
pub proof fn lemma_done_names_the_place<R: Resource>(resource: R, request: Request, r: Response)
    requires
        answers_as_directed(resource, request, r),
        r.ending is Done,
    ensures
        r.trace@.len() > 0 && r.trace@.last() == Node::N11,
        exists|handled: &mut R, taken: &mut DelayedResponse| #[trigger]
            call_ensures(R::process_post, (handled, taken), true),
        exists|left: R, path: String| #[trigger]
            call_ensures(R::create_path, (&left,), path) && (is_failure(r.head@) || (tells_place(
                r.head@,
                path@,
            ) && r.body@.len() == 0)),
{
    let run = choose|run: Seq<State<R>>| #[trigger]
        is_run(run) && begins(run[0], resource, request) && ends_in(run.last(), r);
    lemma_exactly_one_head(run);
    let k = choose|k: int|
        {
            &&& 0 <= k < run.len() - 1
            &&& forall|j: int| 0 <= j <= k ==> (#[trigger] run[j]).sent is None
            &&& forall|j: int|
                k < j < run.len() ==> (#[trigger] run[j]).sent is Some && run[j].sent
                    == run.last().sent
            &&& run[k].phase() == Phase::Sending
            &&& run[k + 1].wrapper.response is Started
        };
    let last = run.len() - 1;
    assert(run[k + 1].sent is Some);
    lemma_ending_stays(run, k + 1, last);
    assert(run[k + 1].ending == Some(Ending::Done));
    assert(run[k].next->0 is Done) by {
        reveal(advances);
        assert(advances(run[k], run[k + 1]));
    }
    lemma_sending_step_of_run(run, k);
    assert(k > 0);
    assert(run[k - 1].sent is None);
    lemma_goes_on(run, k - 1);
    assert(run[k - 1].phase() == Phase::Deciding) by {
        reveal(advances);
        assert(advances(run[k - 1], run[k - 1 + 1]));
    }
    let n = run[k - 1].next->0->Next_0;
    lemma_visiting_step(run, k - 1, n);
    let before = run[k - 1].wrapper;
    let after = run[k].wrapper;
    lemma_done_comes_from_posting(before, n, run[k].next->0, after);
    lemma_done_is_created(before, after);
    lemma_trace_stays(run, k, last);
    lemma_nothing_is_written(run, k + 1, last);
    assert(r.head@ == run[k + 1].sent->0@);
}

/// Once the head is sent for `Done` or for a halt, the wrapper stays as
/// it is to the end of the run.
proof fn lemma_nothing_is_written<R: Resource>(run: Seq<State<R>>, i: int, j: int)
    requires
        is_run(run),
        0 <= i <= j < run.len(),
        run[i].sent is Some,
        run[i].next is Some,
        run[i].next->0 is Done || run[i].next->0 is Halt,
    ensures
        run[j].wrapper == run[i].wrapper,
        run[j].sent == run[i].sent,
        run[j].next is Some ==> run[j].next == run[i].next,
    decreases j - i,
{
    reveal(advances);
    if i < j {
        lemma_nothing_is_written(run, i, j - 1);
        assert(advances(run[j - 1], run[j - 1 + 1]));
    }
}

/// Once an outcome ends the request, the trace stays to the end of the
/// run.
proof fn lemma_trace_stays<R: Resource>(run: Seq<State<R>>, i: int, j: int)
    requires
        is_run(run),
        0 <= i <= j < run.len(),
        run[i].next is Some ==> !(run[i].next->0 is Next) && !(run[i].next->0 is StartResponse),
    ensures
        run[j].next is Some ==> run[j].next == run[i].next,
        run[j].trace == run[i].trace,
    decreases j - i,
{
    reveal(advances);
    if i < j {
        lemma_trace_stays(run, i, j - 1);
        assert(advances(run[j - 1], run[j - 1 + 1]));
    }
}

/// The callbacks by which a resource takes a POST.
pub open spec fn serves_posting(c: Callback) -> bool {
    c == Callback::AllowedMethods || c == Callback::PostIsCreate || c
        == Callback::ContentTypesAccepted || c == Callback::ProcessPost || c
        == Callback::CreatePath
}

/// A resource that takes a POST and offers representations of the media
/// types `types`: whenever it is asked, it allows POST. Every default
/// but those by which it takes a POST it keeps.
pub open spec fn takes_post<R: Resource>(resource: R, types: Seq<MediaTypeView>) -> bool {
    &&& forall|c: Callback| !serves_posting(c) ==> #[trigger] resource.keeps(c)
    &&& forall|p: Vec<ProvidedPair<R::Output>>| #[trigger]
        call_ensures(R::content_types_provided, (&resource,), p) ==> provided_types(p@) == types
    &&& forall|allowed: Vec<Method>| #[trigger]
        call_ensures(R::allowed_methods, (&resource,), allowed) ==> lists_method(
            allowed@,
            MethodView::Post,
        )
}

/// A resource that creates on POST what comes with the content type
/// `content_type`: whenever it is asked, it says that a POST creates, and
/// has an input handler for the content type.
pub open spec fn creates_from<R: Resource>(resource: R, content_type: Seq<char>) -> bool {
    &&& forall|create: bool| #[trigger]
        call_ensures(R::post_is_create, (&resource,), create) ==> create
    &&& forall|accepted: Vec<AcceptedPair<R::Input>>| #[trigger]
        call_ensures(R::content_types_accepted, (&resource,), accepted) ==> takes(
            accepted@,
            content_type,
        )
}

/// A resource that never says that a POST creates.
pub open spec fn never_creates<R: Resource>(resource: R) -> bool {
    forall|create: bool| #[trigger]
        call_ensures(R::post_is_create, (&resource,), create) ==> !create
}

/// That `process_post` never answers no, whatever it is called on.
pub open spec fn always_processes<R: Resource>() -> bool {
    forall|resource: &mut R, response: &mut DelayedResponse, processed: bool| #[trigger]
        call_ensures(R::process_post, (resource, response), processed) ==> processed
}

/// A POST that submits an entity: it announces the length of its body as
/// a number and names no transfer encoding, negotiates neither language,
/// charset nor encoding, and carries no precondition. An `Accept` header
/// and any other header field it may carry.
pub open spec fn submits(request: Request) -> bool {
    let fields = request@.headers;
    &&& request@.method == MethodView::Post
    &&& header_value(fields, "Content-Length"@) matches Some(length) && announced_length(length)
        is Some
    &&& header_value(fields, "Transfer-Encoding"@) is None
    &&& header_value(fields, "Accept-Language"@) is None
    &&& header_value(fields, "Accept-Charset"@) is None
    &&& header_value(fields, "Accept-Encoding"@) is None
    &&& header_value(fields, "If-Match"@) is None
    &&& header_value(fields, "If-Unmodified-Since"@) is None
    &&& header_value(fields, "If-None-Match"@) is None
    &&& header_value(fields, "If-Modified-Since"@) is None
}

/// The way of such a POST up to the node that settles the media type:
/// C4 where it carries an `Accept` header, C3 else.
pub open spec fn way_to_settling(with_accept: bool) -> Seq<Node> {
    if with_accept {
        seq![
            Node::B13,
            Node::B12,
            Node::B11,
            Node::B10,
            Node::B9,
            Node::B8,
            Node::B7,
            Node::B6,
            Node::B5,
            Node::B4,
            Node::B3,
            Node::C3,
            Node::C4,
        ]
    } else {
        seq![
            Node::B13,
            Node::B12,
            Node::B11,
            Node::B10,
            Node::B9,
            Node::B8,
            Node::B7,
            Node::B6,
            Node::B5,
            Node::B4,
            Node::B3,
            Node::C3,
        ]
    }
}

/// The nodes of the way behind the one that settles the media type.
pub open spec fn rest_of_way() -> Seq<Node> {
    seq![
        Node::D4,
        Node::E5,
        Node::F6,
        Node::G7,
        Node::G8,
        Node::H10,
        Node::I12,
        Node::L13,
        Node::M16,
        Node::N16,
        Node::N11,
    ]
}

/// The way of such a POST through the graph to N11.
pub open spec fn posting_way(with_accept: bool) -> Seq<Node> {
    way_to_settling(with_accept) + rest_of_way()
}

/// A wrapper on the way of such a POST to N11: the resource and the
/// request are as said, the response waits with nothing set, and once a
/// media type is chosen one is recorded.
pub open spec fn posting<R: Resource>(
    w: ResourceWrapper<R>,
    types: Seq<MediaTypeView>,
    chosen: bool,
) -> bool {
    &&& takes_post(w.resource, types)
    &&& submits(w.request)
    &&& w.response@ == untouched()
    &&& chosen ==> w.metadata.content_type is Some
}

proof fn lemma_on_b13<R: Resource>(
    before: ResourceWrapper<R>,
    out: Outcomes<R::Input, R::Output>,
    after: ResourceWrapper<R>,
    types: Seq<MediaTypeView>,
    chosen: bool,
)
    requires
        posting(before, types, chosen),
        passed(before, Node::B13, out, after),
    ensures
        out == Outcomes::<R::Input, R::Output>::Next(Node::B12),
        after == before,
{
    reveal(passed);
}

proof fn lemma_on_b12<R: Resource>(
    before: ResourceWrapper<R>,
    out: Outcomes<R::Input, R::Output>,
    after: ResourceWrapper<R>,
    types: Seq<MediaTypeView>,
    chosen: bool,
)
    requires
        posting(before, types, chosen),
        passed(before, Node::B12, out, after),
    ensures
        out == Outcomes::<R::Input, R::Output>::Next(Node::B11),
        after == before,
{
    reveal(passed);
    assert forall|known: Vec<Method>| #[trigger]
        call_ensures(R::known_methods, (&before.resource,), known) implies lists_method(
        known@,
        before.request@.method,
    ) by {
        assert(before.resource.keeps(Callback::KnownMethods));
        assert(known@[2]@ == MethodView::Post);
    }
}

proof fn lemma_on_b11<R: Resource>(
    before: ResourceWrapper<R>,
    out: Outcomes<R::Input, R::Output>,
    after: ResourceWrapper<R>,
    types: Seq<MediaTypeView>,
    chosen: bool,
)
    requires
        posting(before, types, chosen),
        passed(before, Node::B11, out, after),
    ensures
        out == Outcomes::<R::Input, R::Output>::Next(Node::B10),
        after == before,
{
    reveal(passed);
}

proof fn lemma_on_b10<R: Resource>(
    before: ResourceWrapper<R>,
    out: Outcomes<R::Input, R::Output>,
    after: ResourceWrapper<R>,
    types: Seq<MediaTypeView>,
    chosen: bool,
)
    requires
        posting(before, types, chosen),
        passed(before, Node::B10, out, after),
    ensures
        out == Outcomes::<R::Input, R::Output>::Next(Node::B9),
        after == before,
{
    reveal(passed);
}

proof fn lemma_on_b9<R: Resource>(
    before: ResourceWrapper<R>,
    out: Outcomes<R::Input, R::Output>,
    after: ResourceWrapper<R>,
    types: Seq<MediaTypeView>,
    chosen: bool,
)
    requires
        posting(before, types, chosen),
        passed(before, Node::B9, out, after),
    ensures
        out == Outcomes::<R::Input, R::Output>::Next(Node::B8),
        after == before,
{
    reveal(passed);
}

proof fn lemma_on_b8<R: Resource>(
    before: ResourceWrapper<R>,
    out: Outcomes<R::Input, R::Output>,
    after: ResourceWrapper<R>,
    types: Seq<MediaTypeView>,
    chosen: bool,
)
    requires
        posting(before, types, chosen),
        passed(before, Node::B8, out, after),
    ensures
        out == Outcomes::<R::Input, R::Output>::Next(Node::B7),
        after == before,
{
    reveal(passed);
}

proof fn lemma_on_b7<R: Resource>(
    before: ResourceWrapper<R>,
    out: Outcomes<R::Input, R::Output>,
    after: ResourceWrapper<R>,
    types: Seq<MediaTypeView>,
    chosen: bool,
)
    requires
        posting(before, types, chosen),
        passed(before, Node::B7, out, after),
    ensures
        out == Outcomes::<R::Input, R::Output>::Next(Node::B6),
        after == before,
{
    reveal(passed);
}

proof fn lemma_on_b6<R: Resource>(
    before: ResourceWrapper<R>,
    out: Outcomes<R::Input, R::Output>,
    after: ResourceWrapper<R>,
    types: Seq<MediaTypeView>,
    chosen: bool,
)
    requires
        posting(before, types, chosen),
        passed(before, Node::B6, out, after),
    ensures
        out == Outcomes::<R::Input, R::Output>::Next(Node::B5),
        after == before,
{
    reveal(passed);
}

proof fn lemma_on_b5<R: Resource>(
    before: ResourceWrapper<R>,
    out: Outcomes<R::Input, R::Output>,
    after: ResourceWrapper<R>,
    types: Seq<MediaTypeView>,
    chosen: bool,
)
    requires
        posting(before, types, chosen),
        passed(before, Node::B5, out, after),
    ensures
        out == Outcomes::<R::Input, R::Output>::Next(Node::B4),
        after == before,
{
    reveal(passed);
}

proof fn lemma_on_b4<R: Resource>(
    before: ResourceWrapper<R>,
    out: Outcomes<R::Input, R::Output>,
    after: ResourceWrapper<R>,
    types: Seq<MediaTypeView>,
    chosen: bool,
)
    requires
        posting(before, types, chosen),
        passed(before, Node::B4, out, after),
    ensures
        out == Outcomes::<R::Input, R::Output>::Next(Node::B3),
        after == before,
{
    reveal(passed);
}

proof fn lemma_on_b3<R: Resource>(
    before: ResourceWrapper<R>,
    out: Outcomes<R::Input, R::Output>,
    after: ResourceWrapper<R>,
    types: Seq<MediaTypeView>,
    chosen: bool,
)
    requires
        posting(before, types, chosen),
        passed(before, Node::B3, out, after),
    ensures
        out == Outcomes::<R::Input, R::Output>::Next(Node::C3),
        after == before,
{
    reveal(passed);
}

proof fn lemma_on_d4<R: Resource>(
    before: ResourceWrapper<R>,
    out: Outcomes<R::Input, R::Output>,
    after: ResourceWrapper<R>,
    types: Seq<MediaTypeView>,
    chosen: bool,
)
    requires
        posting(before, types, chosen),
        passed(before, Node::D4, out, after),
    ensures
        out == Outcomes::<R::Input, R::Output>::Next(Node::E5),
        after == before,
{
    reveal(passed);
}

proof fn lemma_on_e5<R: Resource>(
    before: ResourceWrapper<R>,
    out: Outcomes<R::Input, R::Output>,
    after: ResourceWrapper<R>,
    types: Seq<MediaTypeView>,
    chosen: bool,
)
    requires
        posting(before, types, chosen),
        passed(before, Node::E5, out, after),
    ensures
        out == Outcomes::<R::Input, R::Output>::Next(Node::F6),
        after == before,
{
    reveal(passed);
}

proof fn lemma_on_f6<R: Resource>(
    before: ResourceWrapper<R>,
    out: Outcomes<R::Input, R::Output>,
    after: ResourceWrapper<R>,
    types: Seq<MediaTypeView>,
    chosen: bool,
)
    requires
        posting(before, types, chosen),
        passed(before, Node::F6, out, after),
    ensures
        out == Outcomes::<R::Input, R::Output>::Next(Node::G7),
        after == before,
{
    reveal(passed);
}

proof fn lemma_on_g7<R: Resource>(
    before: ResourceWrapper<R>,
    out: Outcomes<R::Input, R::Output>,
    after: ResourceWrapper<R>,
    types: Seq<MediaTypeView>,
    chosen: bool,
)
    requires
        posting(before, types, chosen),
        passed(before, Node::G7, out, after),
    ensures
        out == Outcomes::<R::Input, R::Output>::Next(Node::G8),
        after == before,
{
    reveal(passed);
}

proof fn lemma_on_g8<R: Resource>(
    before: ResourceWrapper<R>,
    out: Outcomes<R::Input, R::Output>,
    after: ResourceWrapper<R>,
    types: Seq<MediaTypeView>,
    chosen: bool,
)
    requires
        posting(before, types, chosen),
        passed(before, Node::G8, out, after),
    ensures
        out == Outcomes::<R::Input, R::Output>::Next(Node::H10),
        after == before,
{
    reveal(passed);
}

proof fn lemma_on_h10<R: Resource>(
    before: ResourceWrapper<R>,
    out: Outcomes<R::Input, R::Output>,
    after: ResourceWrapper<R>,
    types: Seq<MediaTypeView>,
    chosen: bool,
)
    requires
        posting(before, types, chosen),
        passed(before, Node::H10, out, after),
    ensures
        out == Outcomes::<R::Input, R::Output>::Next(Node::I12),
        after == before,
{
    reveal(passed);
}

proof fn lemma_on_i12<R: Resource>(
    before: ResourceWrapper<R>,
    out: Outcomes<R::Input, R::Output>,
    after: ResourceWrapper<R>,
    types: Seq<MediaTypeView>,
    chosen: bool,
)
    requires
        posting(before, types, chosen),
        passed(before, Node::I12, out, after),
    ensures
        out == Outcomes::<R::Input, R::Output>::Next(Node::L13),
        after == before,
{
    reveal(passed);
}

proof fn lemma_on_l13<R: Resource>(
    before: ResourceWrapper<R>,
    out: Outcomes<R::Input, R::Output>,
    after: ResourceWrapper<R>,
    types: Seq<MediaTypeView>,
    chosen: bool,
)
    requires
        posting(before, types, chosen),
        passed(before, Node::L13, out, after),
    ensures
        out == Outcomes::<R::Input, R::Output>::Next(Node::M16),
        after == before,
{
    reveal(passed);
}

proof fn lemma_on_m16<R: Resource>(
    before: ResourceWrapper<R>,
    out: Outcomes<R::Input, R::Output>,
    after: ResourceWrapper<R>,
    types: Seq<MediaTypeView>,
    chosen: bool,
)
    requires
        posting(before, types, chosen),
        passed(before, Node::M16, out, after),
    ensures
        out == Outcomes::<R::Input, R::Output>::Next(Node::N16),
        after == before,
{
    reveal(passed);
}

proof fn lemma_on_n16<R: Resource>(
    before: ResourceWrapper<R>,
    out: Outcomes<R::Input, R::Output>,
    after: ResourceWrapper<R>,
    types: Seq<MediaTypeView>,
    chosen: bool,
)
    requires
        posting(before, types, chosen),
        passed(before, Node::N16, out, after),
    ensures
        out == Outcomes::<R::Input, R::Output>::Next(Node::N11),
        after == before,
{
    reveal(passed);
}

/// What the node that settles the media type does on the way: C3 for a
/// request without `Accept`, C4 for one with it.
proof fn lemma_on_settling<R: Resource>(
    before: ResourceWrapper<R>,
    n: Node,
    out: Outcomes<R::Input, R::Output>,
    after: ResourceWrapper<R>,
    types: Seq<MediaTypeView>,
)
    requires
        posting(before, types, false),
        passed(before, n, out, after),
        n == Node::C3 && accepting(before.request) is None || n == Node::C4,
        representation_choice(types, accepting(before.request)) is Ok,
    ensures
        out == Outcomes::<R::Input, R::Output>::Next(Node::D4),
        posting(after, types, true),
        after.resource == before.resource,
        after.request == before.request,
{
    reveal(passed);
}

proof fn lemma_on_c3_accepting<R: Resource>(
    before: ResourceWrapper<R>,
    out: Outcomes<R::Input, R::Output>,
    after: ResourceWrapper<R>,
    types: Seq<MediaTypeView>,
)
    requires
        posting(before, types, false),
        passed(before, Node::C3, out, after),
        accepting(before.request) is Some,
    ensures
        out == Outcomes::<R::Input, R::Output>::Next(Node::C4),
        after == before,
{
    reveal(passed);
}

/// What node N11 does at the end of the way for a resource that creates,
/// where `process_post` never answers no: it hands back `Done`.
proof fn lemma_on_n11_creating<R: Resource>(
    before: ResourceWrapper<R>,
    out: Outcomes<R::Input, R::Output>,
    after: ResourceWrapper<R>,
)
    requires
        creates_from(before.resource, content_type_of(before.request@)),
        always_processes::<R>(),
        passed(before, Node::N11, out, after),
    ensures
        out is Done,
{
    reveal(passed);
}

/// What node N11 does at the end of the way for a resource that never
/// creates, where `process_post` never answers no: it halts with 201,
/// and the response is as some call of `process_post` left it.
proof fn lemma_on_n11_processing<R: Resource>(
    before: ResourceWrapper<R>,
    out: Outcomes<R::Input, R::Output>,
    after: ResourceWrapper<R>,
)
    requires
        never_creates(before.resource),
        always_processes::<R>(),
        passed(before, Node::N11, out, after),
    ensures
        out == Outcomes::<R::Input, R::Output>::Halt(201),
{
    reveal(passed);
}

/// What the node does that is number `j` of those behind the one that
/// settles the media type and before N11: the request goes on unchanged
/// to the next node of the way.
proof fn lemma_on_the_rest<R: Resource>(
    before: ResourceWrapper<R>,
    n: Node,
    out: Outcomes<R::Input, R::Output>,
    after: ResourceWrapper<R>,
    types: Seq<MediaTypeView>,
    j: int,
)
    requires
        0 <= j < rest_of_way().len() - 1,
        n == rest_of_way()[j],
        posting(before, types, true),
        passed(before, n, out, after),
    ensures
        out == Outcomes::<R::Input, R::Output>::Next(rest_of_way()[j + 1]),
        after == before,
{
    if j == 0 {
        lemma_on_d4(before, out, after, types, true);
    } else if j == 1 {
        lemma_on_e5(before, out, after, types, true);
    } else if j == 2 {
        lemma_on_f6(before, out, after, types, true);
    } else if j == 3 {
        lemma_on_g7(before, out, after, types, true);
    } else if j == 4 {
        lemma_on_g8(before, out, after, types, true);
    } else if j == 5 {
        lemma_on_h10(before, out, after, types, true);
    } else if j == 6 {
        lemma_on_i12(before, out, after, types, true);
    } else if j == 7 {
        lemma_on_l13(before, out, after, types, true);
    } else if j == 8 {
        lemma_on_m16(before, out, after, types, true);
    } else {
        lemma_on_n16(before, out, after, types, true);
    }
}

/// What the node does that is number `j` of the way and comes before
/// the one that settles the media type: the request goes on unchanged to
/// the next node of the way.
proof fn lemma_on_the_first<R: Resource>(
    before: ResourceWrapper<R>,
    n: Node,
    out: Outcomes<R::Input, R::Output>,
    after: ResourceWrapper<R>,
    types: Seq<MediaTypeView>,
    j: int,
)
    requires
        0 <= j < settling_at(accepting(before.request) is Some),
        n == way_to_settling(true)[j],
        posting(before, types, false),
        passed(before, n, out, after),
    ensures
        out == Outcomes::<R::Input, R::Output>::Next(way_to_settling(true)[j + 1]),
        after == before,
{
    if j == 0 {
        lemma_on_b13(before, out, after, types, false);
    } else if j == 1 {
        lemma_on_b12(before, out, after, types, false);
    } else if j == 2 {
        lemma_on_b11(before, out, after, types, false);
    } else if j == 3 {
        lemma_on_b10(before, out, after, types, false);
    } else if j == 4 {
        lemma_on_b9(before, out, after, types, false);
    } else if j == 5 {
        lemma_on_b8(before, out, after, types, false);
    } else if j == 6 {
        lemma_on_b7(before, out, after, types, false);
    } else if j == 7 {
        lemma_on_b6(before, out, after, types, false);
    } else if j == 8 {
        lemma_on_b5(before, out, after, types, false);
    } else if j == 9 {
        lemma_on_b4(before, out, after, types, false);
    } else if j == 10 {
        lemma_on_b3(before, out, after, types, false);
    } else {
        lemma_on_c3_accepting(before, out, after, types);
    }
}

/// A run of such a POST goes the way up to the node that settles the
/// media type.
proof fn lemma_posting_way_in<R: Resource>(
    run: Seq<State<R>>,
    i: int,
    resource: R,
    request: Request,
    types: Seq<MediaTypeView>,
)
    requires
        is_run(run),
        begins(run[0], resource, request),
        run.last().next is None,
        takes_post(resource, types),
        submits(request),
        0 <= i <= settling_at(accepting(request) is Some),
    ensures
        i < run.len() - 1,
        run[i].next == Some(
            Outcomes::<R::Input, R::Output>::Next(posting_way(accepting(request) is Some)[i]),
        ),
        run[i].trace@ == posting_way(accepting(request) is Some).take(i),
        run[i].sent is None,
        posting(run[i].wrapper, types, false),
        run[i].wrapper.resource == resource,
        run[i].wrapper.request == request,
    decreases i,
{
    let way = posting_way(accepting(request) is Some);
    if i == 0 {
        assert(run[0].trace@ =~= way.take(0));
        if run.len() == 1 {
        }
    } else {
        lemma_posting_way_in(run, i - 1, resource, request, types);
        let before = run[i - 1];
        let n = way[i - 1];
        lemma_passing_step(run, i - 1, n);
        let after = run[i];
        let out = after.next->0;
        assert(way.take(i) =~= way.take(i - 1).push(n));
        lemma_on_the_first(before.wrapper, n, out, after.wrapper, types, i - 1);
        if i == run.len() - 1 {
        }
    }
}

/// A run of such a POST whose media type is settled goes the rest of the
/// way up to N11.
proof fn lemma_posting_way_out<R: Resource>(
    run: Seq<State<R>>,
    i: int,
    resource: R,
    request: Request,
    types: Seq<MediaTypeView>,
)
    requires
        is_run(run),
        begins(run[0], resource, request),
        run.last().next is None,
        takes_post(resource, types),
        submits(request),
        representation_choice(types, accepting(request)) is Ok,
        settling_at(accepting(request) is Some) < i < posting_way(
            accepting(request) is Some,
        ).len(),
    ensures
        i < run.len() - 1,
        run[i].trace@ == posting_way(accepting(request) is Some).take(i),
        run[i].sent is None,
        run[i].next == Some(
            Outcomes::<R::Input, R::Output>::Next(posting_way(accepting(request) is Some)[i]),
        ),
        posting(run[i].wrapper, types, true),
        run[i].wrapper.resource == resource,
        run[i].wrapper.request == request,
    decreases i,
{
    let with_accept = accepting(request) is Some;
    let way = posting_way(with_accept);
    let d = settling_at(with_accept);
    let before = run[i - 1];
    let n = way[i - 1];
    if i - 1 == d {
        lemma_posting_way_in(run, d, resource, request, types);
    } else {
        lemma_posting_way_out(run, i - 1, resource, request, types);
    }
    lemma_passing_step(run, i - 1, n);
    let after = run[i];
    let out = after.next->0;
    assert(way.take(i) =~= way.take(i - 1).push(n));
    if i - 1 == d {
        lemma_on_settling(before.wrapper, n, out, after.wrapper, types);
    } else {
        lemma_on_the_rest(before.wrapper, n, out, after.wrapper, types, i - 2 - d);
    }
    if i == run.len() - 1 {
    }
}

/// A run of such a POST comes to N11 along the way, with nothing changed
/// but the media type chosen, and goes one step on from there: `m` is
/// the number of the state that has N11 next.
pub proof fn lemma_post_comes_to_n11<R: Resource>(
    run: Seq<State<R>>,
    resource: R,
    request: Request,
    types: Seq<MediaTypeView>,
) -> (m: int)
    requires
        is_run(run),
        begins(run[0], resource, request),
        run.last().next is None,
        takes_post(resource, types),
        submits(request),
        representation_choice(types, accepting(request)) is Ok,
    ensures
        m == posting_way(accepting(request) is Some).len() - 1,
        m + 1 < run.len(),
        run[m].next == Some(Outcomes::<R::Input, R::Output>::Next(Node::N11)),
        run[m].wrapper.resource == resource,
        run[m].wrapper.request == request,
        run[m].wrapper.response@ == untouched(),
        run[m + 1].next is Some,
        passed(run[m].wrapper, Node::N11, run[m + 1].next->0, run[m + 1].wrapper),
        run[m + 1].trace@ == posting_way(accepting(request) is Some),
        run[m + 1].sent is None,
{
    let way = posting_way(accepting(request) is Some);
    let m = way.len() - 1;
    lemma_posting_way_out(run, m, resource, request, types);
    assert(way[m] == Node::N11);
    lemma_passing_step(run, m, Node::N11);
    assert(way.take(m).push(Node::N11) =~= way);
    m
}

/// A POST that submits an entity to a resource that creates from its
/// content type, keeps every other default and always processes a POST
/// is answered with `Done`, whatever the input handler does, provided
/// that the negotiation of the media type settles on one.
///
/// The request goes the way to N11 and ends there. The head has status
/// 201, and its last field is `Location` with a path that the resource
/// gave, and the body is empty; if the input handler or `process_post`
/// has started the response, the head is the failure head.
pub proof fn lemma_post_is_created<R: Resource>(
    resource: R,
    request: Request,
    r: Response,
    types: Seq<MediaTypeView>,
)
    requires
        answers_as_directed(resource, request, r),
        takes_post(resource, types),
        creates_from(resource, content_type_of(request@)),
        always_processes::<R>(),
        submits(request),
        representation_choice(types, accepting(request)) is Ok,
    ensures
        r.ending == Ending::Done,
        r.trace@ == posting_way(accepting(request) is Some),
        exists|left: R, path: String| #[trigger]
            call_ensures(R::create_path, (&left,), path) && (is_failure(r.head@) || (tells_place(
                r.head@,
                path@,
            ) && r.body@.len() == 0)),
{
    let run = choose|run: Seq<State<R>>|
        #[trigger] is_run(run) && begins(run[0], resource, request) && ends_in(run.last(), r);
    let last = run.len() - 1;
    let m = lemma_post_comes_to_n11(run, resource, request, types);
    lemma_on_n11_creating(run[m].wrapper, run[m + 1].next->0, run[m + 1].wrapper);
    lemma_sending_step_of_run(run, m + 1);
    lemma_ending_stays(run, m + 2, last);
    lemma_trace_stays(run, m + 1, last);
    lemma_done_names_the_place(resource, request, r);
}

/// A POST that submits an entity to a resource that takes a POST without
/// creating, keeps every other default and always processes a POST is
/// answered with 201, provided that the negotiation of the media type
/// settles on one.
///
/// The request goes the way to N11 and halts there with 201, and the
/// body is empty; if `process_post` has started the response, the head
/// is the failure head.
pub proof fn lemma_post_is_processed<R: Resource>(
    resource: R,
    request: Request,
    r: Response,
    types: Seq<MediaTypeView>,
)
    requires
        answers_as_directed(resource, request, r),
        takes_post(resource, types),
        never_creates(resource),
        always_processes::<R>(),
        submits(request),
        representation_choice(types, accepting(request)) is Ok,
    ensures
        r.ending == Ending::Halted(201),
        r.trace@ == posting_way(accepting(request) is Some),
        is_failure(r.head@) || (r.head.status == 201 && r.body@.len() == 0),
{
    let run = choose|run: Seq<State<R>>|
        #[trigger] is_run(run) && begins(run[0], resource, request) && ends_in(run.last(), r);
    let last = run.len() - 1;
    let m = lemma_post_comes_to_n11(run, resource, request, types);
    lemma_on_n11_processing(run[m].wrapper, run[m + 1].next->0, run[m + 1].wrapper);
    lemma_sending_step_of_run(run, m + 1);
    lemma_ending_stays(run, m + 2, last);
    lemma_trace_stays(run, m + 1, last);
    lemma_nothing_is_written(run, m + 2, last);
}

/// The response in which node N11 has named the place `place` of what
/// was created, and nothing else.
pub open spec fn placed(place: Seq<char>) -> DelayedResponseView {
    DelayedResponseView::Waiting(
        ResponseBuilderView {
            status: Some(201u16),
            headers: seq![HeaderView { name: "Location"@, value: place }],
        },
    )
}

/// What a visit of N11 leaves of a wrapper whose response waits with
/// nothing set, for a resource that creates from the content type of the
/// request, where the input handlers and `process_post` leave the
/// response as it is and `process_post` never answers no: the outcome is
/// `Done`, the input handler and `process_post` have run, and the
/// response names the path that the resource gives as the visit leaves
/// it, and nothing else.
pub proof fn lemma_visit_creates<R: Resource>()
    requires
        forall|
            resource: &mut R,
            handler: &R::Input,
            taken: &mut Request,
            response: &mut DelayedResponse,
        | #[trigger]
            call_ensures(R::accept, (resource, handler, taken, response), ()) ==> *final(response)
                == *response,
        forall|resource: &mut R, response: &mut DelayedResponse, processed: bool| #[trigger]
            call_ensures(R::process_post, (resource, response), processed) ==> processed
                && *final(response) == *response,
    ensures
        forall|w: &mut ResourceWrapper<R>, out: Outcomes<R::Input, R::Output>|
            w.response@ == untouched() && creates_from(w.resource, content_type_of(w.request@))
                && #[trigger] call_ensures(ResourceWrapper::<R>::visit, (w, Node::N11), out)
                ==> out is Done && exists|path: String| #[trigger]
                call_ensures(R::create_path, (&final(w).resource,), path) && final(w).response@
                    == placed(path@),
{
    assert forall|w: &mut ResourceWrapper<R>, out: Outcomes<R::Input, R::Output>|
        w.response@ == untouched() && creates_from(w.resource, content_type_of(w.request@))
            && #[trigger] call_ensures(
            ResourceWrapper::<R>::visit,
            (w, Node::N11),
            out,
        ) implies out is Done && exists|path: String| #[trigger]
        call_ensures(R::create_path, (&final(w).resource,), path) && final(w).response@ == placed(
            path@,
        ) by {
        let v = choose|v: &mut ResourceWrapper<R>|
            *v == *w && *final(v) == *final(w) && #[trigger] call_ensures(
                ResourceWrapper::<R>::n11,
                (v,),
                out,
            );
        assert(call_ensures(ResourceWrapper::<R>::n11, (v,), out));
    }
}

/// A POST that submits an entity to a resource that creates from its
/// content type and keeps every other default is answered with 201 and
/// the place of what was created, where the input handlers and
/// `process_post` leave the response as it is and `process_post` never
/// answers no, provided that the negotiation of the media type settles on
/// one. This is said of a run in which every node was visited by `visit`,
/// as the runs of the engine are.
///
/// The request goes the way to N11 and ends there with `Done`. The head
/// has status 201 and one field, `Location`, with a path that the
/// resource gave, and the body is empty.
pub proof fn lemma_post_names_the_place<R: Resource>(
    run: Seq<State<R>>,
    resource: R,
    request: Request,
    r: Response,
    types: Seq<MediaTypeView>,
)
    requires
        is_run(run),
        begins(run[0], resource, request),
        ends_in(run.last(), r),
        forall|k: int|
            0 <= k < run.len() - 1 && (#[trigger] run[k]).phase() == Phase::Deciding ==> exists|
                w: &mut ResourceWrapper<R>,
            |
                {
                    &&& *w == run[k].wrapper
                    &&& *final(w) == run[k + 1].wrapper
                    &&& #[trigger] call_ensures(
                        ResourceWrapper::<R>::visit,
                        (w, run[k].next->0->Next_0),
                        run[k + 1].next->0,
                    )
                },
        takes_post(resource, types),
        creates_from(resource, content_type_of(request@)),
        submits(request),
        representation_choice(types, accepting(request)) is Ok,
        forall|
            resource: &mut R,
            handler: &R::Input,
            taken: &mut Request,
            response: &mut DelayedResponse,
        | #[trigger]
            call_ensures(R::accept, (resource, handler, taken, response), ()) ==> *final(response)
                == *response,
        forall|resource: &mut R, response: &mut DelayedResponse, processed: bool| #[trigger]
            call_ensures(R::process_post, (resource, response), processed) ==> processed
                && *final(response) == *response,
    ensures
        r.ending == Ending::Done,
        r.trace@ == posting_way(accepting(request) is Some),
        r.body@.len() == 0,
        exists|left: R, path: String| #[trigger]
            call_ensures(R::create_path, (&left,), path) && r.head@ == head_of(
                placed(path@)->Waiting_0,
            ),
{
    let last = run.len() - 1;
    let m = lemma_post_comes_to_n11(run, resource, request, types);
    assert(run[m].phase() == Phase::Deciding);
    let w = choose|w: &mut ResourceWrapper<R>|
        {
            &&& *w == run[m].wrapper
            &&& *final(w) == run[m + 1].wrapper
            &&& #[trigger] call_ensures(
                ResourceWrapper::<R>::visit,
                (w, run[m].next->0->Next_0),
                run[m + 1].next->0,
            )
        };
    lemma_visit_creates::<R>();
    assert(call_ensures(ResourceWrapper::<R>::visit, (w, Node::N11), run[m + 1].next->0));
    assert(run[m + 1].next->0 is Done);
    let path = choose|path: String| #[trigger]
        call_ensures(R::create_path, (&run[m + 1].wrapper.resource,), path) && run[m
            + 1].wrapper.response@ == placed(path@);
    lemma_sending_step_of_run(run, m + 1);
    lemma_ending_stays(run, m + 2, last);
    lemma_trace_stays(run, m + 1, last);
    lemma_nothing_is_written(run, m + 2, last);
    assert(r.head@ == head_of(placed(path@)->Waiting_0));
    assert(call_ensures(R::create_path, (&run[m + 1].wrapper.resource,), path));
}

} // verus!
