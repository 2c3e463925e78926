//! The decision nodes: each asks the resource or the request its question
//! and hands back what the diagram makes of the answer.

use vstd::prelude::*;
use vstd::string::StringExecFns;
use crate::conneg::texts;
use crate::decision::{
    accepted_types, check_length, checksum_passes, choose_name, choose_representation,
    content_headers, find_accepted, find_provided, length_check, length_step, lift, lifted,
    name_choice, position_of, post_outcome, posted, provided_types, put, put_outcome,
    representation_choice, speaks_of_content, take_length_step, turn, turns, LengthCheck,
};
use crate::flow::{
    header_added, pending_header, permitted, status_made_at, status_set, waits_with,
    DelayedResponse, DelayedResponseView, Outcomes, ResourceWrapper,
};
use crate::graph::{branch, lemma_branch_stays_in_diagram, Node};
use crate::media::{essence_of, mime_parse, MediaType, MediaTypeView};
use crate::message::{
    contains_method, header_value, header_views, join_methods, joined_names, lists_method,
    Header, HeaderView, Method, MethodView, Request, RequestView,
};
use crate::precondition::{etag_named, is_star, names_etag, parse_http_date};
use crate::resource::{AcceptedPair, ProvidedPair, Resource};

verus! {

/// Either outcome that the diagram gives a node is permitted there.
pub proof fn lemma_turns_are_permitted<I, O>(n: Node, out: Outcomes<I, O>)
    requires
        turns(n, out),
    ensures
        permitted(n, out),
{
    lemma_branch_stays_in_diagram(n, true);
    lemma_branch_stays_in_diagram(n, false);
}

/// Refuses a method at B10: the response names in `Allow` the methods
/// that the resource allows.
pub fn refuse_method(response: &mut DelayedResponse, allowed: &Vec<Method>)
    ensures
        final(response)@ == header_added(
            old(response)@,
            "Allow"@,
            joined_names(allowed@, allowed.len() as int),
        ),
{
    let names = join_methods(allowed);
    response.add_header("Allow", names.as_str());
}

/// Redirects: the response names the new place in `Location`.
pub fn redirect(response: &mut DelayedResponse, target: &str)
    ensures
        final(response)@ == header_added(old(response)@, "Location"@, target@),
{
    response.add_header("Location", target);
}

/// Answers a POST that created something: status 201, and the place of
/// what was created in `Location`.
pub fn created(response: &mut DelayedResponse, path: &str)
    ensures
        final(response)@ == header_added(status_set(old(response)@, 201), "Location"@, path@),
{
    response.set_status(201);
    response.add_header("Location", path);
}

/// Announces the representation: status 200, and its media type in
/// `Content-Type`.
pub fn announce(response: &mut DelayedResponse, media: &MediaType)
    ensures
        final(response)@ == header_added(
            status_set(old(response)@, 200),
            "Content-Type"@,
            essence_of(media@),
        ),
{
    response.set_status(200);
    let text = media.essence();
    response.add_header("Content-Type", text.as_str());
}

/// Whether a resource was modified after the date of an
/// `If-Unmodified-Since` header.
pub open spec fn modified_after(last_modified: Option<u64>, date: Option<nat>) -> bool {
    last_modified matches Some(t) && date matches Some(d) && t > d
}

/// Whether a resource counts as modified since the date of an
/// `If-Modified-Since` header: it is unless both are known and the
/// resource is no younger than the date.
pub open spec fn modified_since(last_modified: Option<u64>, date: Option<nat>) -> bool {
    !(last_modified matches Some(t) && date matches Some(d) && t <= d)
}

/// Whether a resource was modified after a date.
pub fn is_modified_after(last_modified: Option<u64>, date: Option<u64>) -> (r: bool)
    ensures
        r == modified_after(
            last_modified,
            match date {
                Some(d) => Some(d as nat),
                None => None,
            },
        ),
{
    match (last_modified, date) {
        (Some(t), Some(d)) => t > d,
        _ => false,
    }
}

/// Whether a resource counts as modified since a date.
pub fn is_modified_since(last_modified: Option<u64>, date: Option<u64>) -> (r: bool)
    ensures
        r == modified_since(
            last_modified,
            match date {
                Some(d) => Some(d as nat),
                None => None,
            },
        ),
{
    match (last_modified, date) {
        (Some(t), Some(d)) => t > d,
        _ => true,
    }
}

/// Whether the date of a header lies after the time at which the request
/// was received; a value that is no date counts as one that does.
pub open spec fn lies_ahead(date: Option<nat>, now: nat) -> bool {
    match date {
        Some(d) => d > now,
        None => true,
    }
}

/// How the nodes C3 and C4 settle on a representation, given what the
/// resource offers: where `representation_choice` names one, it is
/// recorded and the request goes on to D4; else the node halts as it says
/// and records nothing.
pub open spec fn settles<R: Resource>(
    before: ResourceWrapper<R>,
    after: ResourceWrapper<R>,
    n: Node,
    out: Outcomes<R::Input, R::Output>,
    offered: Seq<MediaTypeView>,
    accept: Option<Seq<char>>,
) -> bool {
    match representation_choice(offered, accept) {
        Ok(i) => {
            &&& out == Outcomes::<R::Input, R::Output>::Next(Node::D4)
            &&& after.metadata.content_type matches Some(media) && media@ == offered[i]
            &&& after.metadata.language == before.metadata.language
            &&& after.metadata.charset == before.metadata.charset
            &&& after.metadata.encoding == before.metadata.encoding
        },
        Err(step) => out == lifted::<R::Input, R::Output>(step) && after.metadata
            == before.metadata,
    }
}

/// How the nodes D5, E6 and F7 settle on a name, given what the resource
/// offers: where `name_choice` names one, `chosen` is that name and the
/// request goes on; where there is no header, it goes on with nothing
/// chosen; else the node halts as `name_choice` says.
pub open spec fn settles_name<I, O>(
    n: Node,
    out: Outcomes<I, O>,
    offered: Seq<Seq<char>>,
    header: Option<Seq<char>>,
    held: Option<String>,
    chosen: Option<String>,
) -> bool {
    match name_choice(n, offered, header) {
        Ok(Some(i)) => out == lifted::<I, O>(branch(n, true)) && chosen is Some && chosen->0@
            == offered[i],
        Ok(None) => out == lifted::<I, O>(branch(n, true)) && chosen == held,
        Err(step) => out == lifted::<I, O>(step) && chosen == held,
    }
}

/// The content type that a request carries, as text. A request that names
/// none is taken to carry `application/octet-stream`.
pub open spec fn content_type_of(request: RequestView) -> Seq<char> {
    match header_value(request.headers, "Content-Type"@) {
        Some(value) => value,
        None => "application/octet-stream"@,
    }
}

/// Whether a resource has an input handler for a content type, given the
/// representations that it accepts: the content type reads as a media
/// type, and the resource pairs a handler with that media type.
/// Parameters of the content type play no part.
pub open spec fn takes<H>(accepted: Seq<AcceptedPair<H>>, content_type: Seq<char>) -> bool {
    match mime_parse(content_type) {
        Some(media) => position_of(accepted_types(accepted), media, accepted.len() as int)
            is Some,
        None => false,
    }
}

/// The outcome of the nodes O14 and P3, given what the resource accepts:
/// that of `put`, where a PUT without a conflict is handled if the
/// resource takes the content type of the request.
pub open spec fn put_to<I, O>(
    n: Node,
    conflict: bool,
    accepted: Seq<AcceptedPair<I>>,
    content_type: Seq<char>,
) -> Outcomes<I, O> {
    put::<I, O>(n, conflict, !conflict && takes(accepted, content_type))
}

/// The answer to the question of a node that asks one question and goes
/// one of its two ways on the answer, with nothing changed. Where the
/// node asks the resource, `a` is made of what the resource has answered
/// to the very call that the node makes; where it asks the request or the
/// response, `a` is what they hold.
pub open spec fn answered<R: Resource>(w: ResourceWrapper<R>, n: Node, a: bool) -> bool {
    let method = w.request@.method;
    match n {
        Node::B13 => call_ensures(R::service_available, (&w.resource,), a),
        Node::B12 => exists|known: Vec<Method>|
            #[trigger] call_ensures(R::known_methods, (&w.resource,), known) && a == lists_method(
                known@,
                method,
            ),
        Node::B11 => exists|uri: &str|
            uri@ == w.request@.uri && #[trigger] call_ensures(
                R::uri_too_long,
                (&w.resource, uri),
                a,
            ),
        Node::B9 => exists|checksum: Option<bool>|
            #[trigger] call_ensures(R::validate_content_checksum, (&w.resource,), checksum) && (
            if checksum == Some(false) {
                !a
            } else {
                exists|malformed: bool|
                    #[trigger] call_ensures(R::malformed_request, (&w.resource,), malformed) && a
                        == !malformed
            }),
        Node::B8 => exists|header: Option<&str>|
            (match header {
                Some(h) => w.asks("Authorization"@) == Some(h@),
                None => w.asks("Authorization"@) is None,
            }) && #[trigger] call_ensures(R::is_authorized, (&w.resource, header), a),
        Node::B7 => call_ensures(R::forbidden, (&w.resource,), a),
        Node::B6 => exists|fields: Vec<Header>|
            header_views(fields@) == w.request@.headers.filter(
                |h: HeaderView| speaks_of_content(h),
            ) && #[trigger] call_ensures(R::valid_content_headers, (&w.resource, &fields), a),
        Node::B5 => exists|content_type: &str|
            content_type@ == content_type_of(w.request@) && #[trigger] call_ensures(
                R::known_content_type,
                (&w.resource, content_type),
                a,
            ),
        Node::B3 => a == (method == MethodView::Options),
        Node::D4 => a == (w.asks("Accept-Language"@) is Some),
        Node::E5 => a == (w.asks("Accept-Charset"@) is Some),
        Node::F6 => a == (w.asks("Accept-Encoding"@) is Some),
        Node::G7 => call_ensures(R::resource_exists, (&w.resource,), a),
        Node::G8 => a == (w.asks("If-Match"@) is Some),
        Node::G9 => a == w.asks_any("If-Match"@),
        Node::G11 => exists|etag: Option<String>|
            #[trigger] call_ensures(R::generate_etag, (&w.resource,), etag) && a == names_etag(
                w.asks("If-Match"@),
                text_of(etag),
            ),
        Node::H7 => a == w.asks_any("If-Match"@),
        Node::H10 => a == (w.asks("If-Unmodified-Since"@) is Some),
        Node::H11 => a == (w.asks_date("If-Unmodified-Since"@) is Some),
        Node::H12 => exists|last_modified: Option<u64>|
            #[trigger] call_ensures(R::last_modified, (&w.resource,), last_modified) && a
                == modified_after(last_modified, w.asks_date("If-Unmodified-Since"@)),
        Node::I7 => a == (method == MethodView::Put),
        Node::I12 => a == (w.asks("If-None-Match"@) is Some),
        Node::I13 => a == w.asks_any("If-None-Match"@),
        Node::J18 => a == (method == MethodView::Get || method == MethodView::Head),
        Node::K7 => call_ensures(R::previously_existed, (&w.resource,), a),
        Node::K13 => exists|etag: Option<String>|
            #[trigger] call_ensures(R::generate_etag, (&w.resource,), etag) && a == names_etag(
                w.asks("If-None-Match"@),
                text_of(etag),
            ),
        Node::L7 => a == (method == MethodView::Post),
        Node::L13 => a == (w.asks("If-Modified-Since"@) is Some),
        Node::L14 => a == (w.asks_date("If-Modified-Since"@) is Some),
        Node::L15 => a == lies_ahead(w.asks_date("If-Modified-Since"@), w.request@.received_at),
        Node::L17 => exists|last_modified: Option<u64>|
            #[trigger] call_ensures(R::last_modified, (&w.resource,), last_modified) && a
                == modified_since(last_modified, w.asks_date("If-Modified-Since"@)),
        Node::M5 => a == (method == MethodView::Post),
        Node::M7 => call_ensures(R::allow_missing_post, (&w.resource,), a),
        Node::M16 => a == (method == MethodView::Delete),
        Node::N5 => call_ensures(R::allow_missing_post, (&w.resource,), a),
        Node::N16 => a == (method == MethodView::Post),
        Node::O16 => a == (method == MethodView::Put),
        Node::O20 => a == (pending_header(w.response@, "Content-Type"@) is Some),
        Node::P11 => a == (pending_header(w.response@, "Location"@) is Some),
        _ => false,
    }
}

/// The text of a text that may be missing.
pub open spec fn text_of(t: Option<String>) -> Option<Seq<char>> {
    match t {
        Some(s) => Some(s@),
        None => None,
    }
}

/// What a node does that asks one question: it goes the way that the
/// diagram gives it for the answer, and changes nothing.
pub open spec fn decided<R: Resource>(
    before: ResourceWrapper<R>,
    n: Node,
    out: Outcomes<R::Input, R::Output>,
    after: ResourceWrapper<R>,
) -> bool {
    exists|a: bool|
        #[trigger] answered(before, n, a) && out == lifted::<R::Input, R::Output>(branch(n, a))
            && after == before
}

/// What the nodes I4, K5 and L5 do, given the place that the resource
/// says it has moved to: where it names one, they halt and the response
/// names the place in `Location`; else the request goes on unchanged.
pub open spec fn moves<R: Resource>(
    before: ResourceWrapper<R>,
    n: Node,
    out: Outcomes<R::Input, R::Output>,
    after: ResourceWrapper<R>,
    target: Option<String>,
) -> bool {
    match target {
        Some(place) => {
            &&& out == lifted::<R::Input, R::Output>(branch(n, true))
            &&& after.response@ == header_added(before.response@, "Location"@, place@)
            &&& after.resource == before.resource
            &&& after.request == before.request
            &&& after.metadata == before.metadata
        },
        None => out == lifted::<R::Input, R::Output>(branch(n, false)) && after == before,
    }
}

/// That nothing but the metadata has changed.
pub open spec fn only_settled<R: Resource>(
    before: ResourceWrapper<R>,
    after: ResourceWrapper<R>,
) -> bool {
    &&& after.resource == before.resource
    &&& after.request == before.request
    &&& after.response == before.response
}

/// What a node does, all told: the outcome that it hands back for the
/// wrapper that it finds, and the wrapper that it leaves. Every answer of
/// the resource that the outcome rests on is an answer that the resource
/// has given to the call that the node makes.
///
/// What the input handlers and `process_post` leave behind stands outside
/// this, since a spec function cannot speak of what a call leaves of an
/// argument that it may change: the node methods N11, O14 and P3 say it
/// themselves.
pub open spec fn visited<R: Resource>(
    before: ResourceWrapper<R>,
    n: Node,
    out: Outcomes<R::Input, R::Output>,
    after: ResourceWrapper<R>,
) -> bool {
    let content_type = content_type_of(before.request@);
    match n {
        Node::B10 => exists|allowed: Vec<Method>|
            {
                &&& #[trigger] call_ensures(R::allowed_methods, (&before.resource,), allowed)
                &&& allows(before, after, out, allowed@)
                &&& after.resource == before.resource
                &&& after.request == before.request
                &&& after.metadata == before.metadata
            },
        Node::B4 => {
            let check = length_check(
                before.request@.method,
                before.asks("Content-Length"@),
                before.asks("Transfer-Encoding"@) is Some,
            );
            &&& after == before
            &&& match check {
                LengthCheck::Ask(len) => exists|accepted: bool|
                    #[trigger] call_ensures(
                        R::valid_entity_length,
                        (&before.resource, len),
                        accepted,
                    ) && out == lifted::<R::Input, R::Output>(length_step(check, accepted)),
                _ => out == lifted::<R::Input, R::Output>(length_step(check, true)),
            }
        },
        Node::C3 => if before.asks("Accept"@) is Some {
            out == Outcomes::<R::Input, R::Output>::Next(Node::C4) && after == before
        } else {
            exists|provided: Vec<ProvidedPair<R::Output>>|
                {
                    &&& #[trigger] call_ensures(
                        R::content_types_provided,
                        (&before.resource,),
                        provided,
                    )
                    &&& settles(before, after, n, out, provided_types(provided@), None)
                    &&& only_settled(before, after)
                }
        },
        Node::C4 => exists|provided: Vec<ProvidedPair<R::Output>>|
            {
                &&& #[trigger] call_ensures(
                    R::content_types_provided,
                    (&before.resource,),
                    provided,
                )
                &&& settles(
                    before,
                    after,
                    n,
                    out,
                    provided_types(provided@),
                    before.asks("Accept"@),
                )
                &&& only_settled(before, after)
            },
        Node::D5 => exists|provided: Vec<String>|
            {
                &&& #[trigger] call_ensures(R::languages_provided, (&before.resource,), provided)
                &&& settles_name(
                    n,
                    out,
                    texts(provided@),
                    before.asks("Accept-Language"@),
                    before.metadata.language,
                    after.metadata.language,
                )
                &&& only_settled(before, after)
                &&& after.metadata.content_type == before.metadata.content_type
                &&& after.metadata.charset == before.metadata.charset
                &&& after.metadata.encoding == before.metadata.encoding
            },
        Node::E6 => exists|provided: Vec<String>|
            {
                &&& #[trigger] call_ensures(R::charsets_provided, (&before.resource,), provided)
                &&& settles_name(
                    n,
                    out,
                    texts(provided@),
                    before.asks("Accept-Charset"@),
                    before.metadata.charset,
                    after.metadata.charset,
                )
                &&& only_settled(before, after)
                &&& after.metadata.content_type == before.metadata.content_type
                &&& after.metadata.language == before.metadata.language
                &&& after.metadata.encoding == before.metadata.encoding
            },
        Node::F7 => exists|provided: Vec<String>|
            {
                &&& #[trigger] call_ensures(R::encodings_provided, (&before.resource,), provided)
                &&& settles_name(
                    n,
                    out,
                    texts(provided@),
                    before.asks("Accept-Encoding"@),
                    before.metadata.encoding,
                    after.metadata.encoding,
                )
                &&& only_settled(before, after)
                &&& after.metadata.content_type == before.metadata.content_type
                &&& after.metadata.language == before.metadata.language
                &&& after.metadata.charset == before.metadata.charset
            },
        Node::I4 => exists|target: Option<String>|
            #[trigger] call_ensures(R::moved_permanently, (&before.resource,), target) && moves(
                before,
                n,
                out,
                after,
                target,
            ),
        Node::K5 => exists|target: Option<String>|
            #[trigger] call_ensures(R::moved_permanently, (&before.resource,), target) && moves(
                before,
                n,
                out,
                after,
                target,
            ),
        Node::L5 => exists|target: Option<String>|
            #[trigger] call_ensures(R::moved_temporarily, (&before.resource,), target) && moves(
                before,
                n,
                out,
                after,
                target,
            ),
        Node::M20 => after == before && exists|enacted: bool|
            #[trigger] call_ensures(R::delete_method, (&before.resource,), enacted) && (
            if enacted {
                exists|completed: bool|
                    #[trigger] call_ensures(R::delete_completed, (&before.resource,), completed)
                        && out == lifted::<R::Input, R::Output>(branch(n, completed))
            } else {
                out == Outcomes::<R::Input, R::Output>::Halt(500)
            }),
        Node::N11 => posts(before, out, after),
        Node::O14 => takes_put(before, n, out, after),
        Node::P3 => takes_put(before, n, out, after),
        Node::O18 => exists|multiple: bool|
            #[trigger] call_ensures(R::multiple_choices, (&before.resource,), multiple) && (
            if multiple {
                emits(before, after, out, true, Seq::empty())
            } else {
                exists|provided: Vec<ProvidedPair<R::Output>>|
                    #[trigger] call_ensures(
                        R::content_types_provided,
                        (&before.resource,),
                        provided,
                    ) && emits(before, after, out, false, provided@)
            }),
        _ => decided(before, n, out, after),
    }
}

/// That a response that waits has status 201 and names a place in
/// `Location`, as its last header field. Of a response that has started
/// nothing is said.
pub open spec fn names_place(response: DelayedResponseView, place: Seq<char>) -> bool {
    response matches DelayedResponseView::Waiting(b) ==> b.status == Some(201u16)
        && b.headers.len() > 0 && b.headers.last() == (HeaderView {
        name: "Location"@,
        value: place,
    })
}

/// That the input handler has run which the resource pairs with the
/// content type of the request, where `accepted` is what the resource
/// accepts: the first one of that media type, on the wrapper as it
/// stood.
pub open spec fn handles<R: Resource>(
    before: ResourceWrapper<R>,
    accepted: Seq<AcceptedPair<R::Input>>,
) -> bool {
    exists|i: int, resource: &mut R, request: &mut Request, response: &mut DelayedResponse|
        {
            &&& mime_parse(content_type_of(before.request@)) matches Some(media) && position_of(
                accepted_types(accepted),
                media,
                accepted.len() as int,
            ) == Some(i)
            &&& 0 <= i < accepted.len()
            &&& *resource == before.resource
            &&& *request == before.request
            &&& *response == before.response
            &&& #[trigger] call_ensures(
                R::accept,
                (resource, &accepted[i].1, request, response),
                (),
            )
        }
}

/// What node N11 does once the input handler of a POST that creates has
/// run: the resource has processed the POST, or has not, and the outcome
/// is that of `posted` on the answer that `process_post` gave. Where it
/// has processed it, the response names the path that the resource
/// gives.
pub open spec fn creates<R: Resource>(
    out: Outcomes<R::Input, R::Output>,
    after: ResourceWrapper<R>,
) -> bool {
    exists|handled: &mut R, taken: &mut DelayedResponse, processed: bool|
        {
            &&& #[trigger] call_ensures(R::process_post, (handled, taken), processed)
            &&& out == posted::<R::Input, R::Output>(true, true, processed)
            &&& processed ==> exists|path: String|
                #[trigger] call_ensures(R::create_path, (&after.resource,), path) && names_place(
                    after.response@,
                    path@,
                )
        }
}

/// What node N11 does with a POST. Where the resource says that the POST
/// creates, the node needs the input handler that the resource pairs
/// with the content type of the request: without one it halts with 500
/// and changes nothing; with one, the handler has run as `handles` says,
/// and the node does as `creates` says. Where the
/// POST does not create, the resource processes it on the wrapper as it
/// stands, and the outcome is that of `posted` on the answer that
/// `process_post` gave to that call; the request stays as it was.
pub open spec fn posts<R: Resource>(
    before: ResourceWrapper<R>,
    out: Outcomes<R::Input, R::Output>,
    after: ResourceWrapper<R>,
) -> bool {
    let content_type = content_type_of(before.request@);
    &&& after.metadata == before.metadata
    &&& exists|create: bool|
        #[trigger] call_ensures(R::post_is_create, (&before.resource,), create) && (if create {
            exists|accepted: Vec<AcceptedPair<R::Input>>|
                #[trigger] call_ensures(
                    R::content_types_accepted,
                    (&before.resource,),
                    accepted,
                ) && (if takes(accepted@, content_type) {
                    handles(before, accepted@) && creates(out, after)
                } else {
                    out == Outcomes::<R::Input, R::Output>::Halt(500) && after == before
                })
        } else {
            exists|resource: &mut R, response: &mut DelayedResponse, processed: bool|
                {
                    &&& *resource == before.resource
                    &&& *response == before.response
                    &&& #[trigger] call_ensures(R::process_post, (resource, response), processed)
                    &&& out == posted::<R::Input, R::Output>(false, false, processed)
                    &&& after.request == before.request
                }
        })
}

/// What the nodes O14 and P3 do: with a conflict they halt with 409 and
/// change nothing. Else the outcome is that of `put_to` on what the
/// resource accepts; where it has no handler for the content type,
/// nothing changes, and where it has one, the handler has run as
/// `handles` says.
pub open spec fn takes_put<R: Resource>(
    before: ResourceWrapper<R>,
    n: Node,
    out: Outcomes<R::Input, R::Output>,
    after: ResourceWrapper<R>,
) -> bool {
    let content_type = content_type_of(before.request@);
    &&& after.metadata == before.metadata
    &&& exists|conflict: bool|
        #[trigger] call_ensures(R::is_conflict, (&before.resource,), conflict) && (if conflict {
            out == lifted::<R::Input, R::Output>(branch(n, true)) && after == before
        } else {
            exists|accepted: Vec<AcceptedPair<R::Input>>|
                {
                    &&& #[trigger] call_ensures(
                        R::content_types_accepted,
                        (&before.resource,),
                        accepted,
                    )
                    &&& out == put_to::<R::Input, R::Output>(n, false, accepted@, content_type)
                    &&& !takes(accepted@, content_type) ==> after == before
                    &&& takes(accepted@, content_type) ==> handles(before, accepted@)
                }
        })
}

/// What node B10 does, given the methods that the resource allows. Where
/// the method of the request is among them, the request goes on. Where it
/// is not, the node halts with 405, and the response lists in `Allow` the
/// methods that are allowed.
pub open spec fn allows<R: Resource>(
    before: ResourceWrapper<R>,
    after: ResourceWrapper<R>,
    out: Outcomes<R::Input, R::Output>,
    allowed: Seq<Method>,
) -> bool {
    if lists_method(allowed, before.request@.method) {
        out == Outcomes::<R::Input, R::Output>::Next(Node::B9) && after == before
    } else {
        &&& out == Outcomes::<R::Input, R::Output>::Halt(405)
        &&& after.response@ == header_added(
            before.response@,
            "Allow"@,
            joined_names(allowed, allowed.len() as int),
        )
    }
}

/// What node O18 does, given whether the resource reports multiple
/// choices and what it offers. With multiple choices it halts with 300.
/// Else it needs the output handler that the resource pairs with the
/// media type chosen; where none was chosen, or the resource pairs none
/// with it, the resource has failed: 500. Where it has the handler, the
/// response gets status 200 and names the media type in `Content-Type`,
/// and the outcome is the handler, whatever the method.
pub open spec fn emits<R: Resource>(
    before: ResourceWrapper<R>,
    after: ResourceWrapper<R>,
    out: Outcomes<R::Input, R::Output>,
    multiple: bool,
    offered: Seq<ProvidedPair<R::Output>>,
) -> bool {
    let found = match before.metadata.content_type {
        Some(media) => position_of(provided_types(offered), media@, offered.len() as int),
        None => None,
    };
    if multiple {
        out == Outcomes::<R::Input, R::Output>::Halt(300) && after == before
    } else {
        match found {
            None => out == Outcomes::<R::Input, R::Output>::Halt(500) && after == before,
            Some(i) => {
                &&& after.response@ == header_added(
                    status_set(before.response@, 200),
                    "Content-Type"@,
                    essence_of(before.metadata.content_type->0@),
                )
                &&& after.resource == before.resource
                &&& after.request == before.request
                &&& after.metadata == before.metadata
                &&& out == Outcomes::<R::Input, R::Output>::OutputHandler(offered[i].1)
            },
        }
    }
}

impl<R: Resource> ResourceWrapper<R> {
    /// Service available?
    pub fn b13(&mut self) -> (out: Outcomes<R::Input, R::Output>)
        ensures
            turns(Node::B13, out),
            *final(self) == *old(self),
            visited(*old(self), Node::B13, out, *final(self)),
    {
        let yes = self.resource.service_available();
        assert(answered(*old(self), Node::B13, yes));
        turn(Node::B13, yes)
    }

    /// Known method? It is where the method of the request is among those
    /// that the resource knows.
    pub fn b12(&mut self) -> (out: Outcomes<R::Input, R::Output>)
        ensures
            visited(*old(self), Node::B12, out, *final(self)),
            turns(Node::B12, out),
            exists|known: Seq<Method>|
                out == lifted::<R::Input, R::Output>(
                    branch(Node::B12, lists_method(known, old(self).request@.method)),
                ),
            *final(self) == *old(self),
    {
        let known = self.resource.known_methods();
        let yes = contains_method(&known, &self.request.method);
        let out = turn(Node::B12, yes);
        assert(out == lifted::<R::Input, R::Output>(
            branch(Node::B12, lists_method(known@, old(self).request@.method)),
        ));
        assert(answered(*old(self), Node::B12, yes));
        out
    }

    /// URI too long?
    pub fn b11(&mut self) -> (out: Outcomes<R::Input, R::Output>)
        ensures
            turns(Node::B11, out),
            *final(self) == *old(self),
            visited(*old(self), Node::B11, out, *final(self)),
    {
        let yes = self.resource.uri_too_long(self.request.uri.as_str());
        assert(answered(*old(self), Node::B11, yes));
        turn(Node::B11, yes)
    }

    /// Method allowed? The outcome is that of `allows` on the methods that
    /// the resource allows.
    pub fn b10(&mut self) -> (out: Outcomes<R::Input, R::Output>)
        ensures
            visited(*old(self), Node::B10, out, *final(self)),
            turns(Node::B10, out),
            exists|allowed: Seq<Method>| allows(*old(self), *final(self), out, allowed),
            final(self).resource == old(self).resource,
            final(self).request == old(self).request,
            final(self).metadata == old(self).metadata,
    {
        let allowed = self.resource.allowed_methods();
        let yes = contains_method(&allowed, &self.request.method);
        if !yes {
            refuse_method(&mut self.response, &allowed);
        }
        let out = turn(Node::B10, yes);
        assert(allows(*old(self), *self, out, allowed@));
        out
    }

    /// Well formed? The checksum of the body must not fail, and the
    /// resource must not call the request malformed.
    pub fn b9(&mut self) -> (out: Outcomes<R::Input, R::Output>)
        ensures
            turns(Node::B9, out),
            *final(self) == *old(self),
            visited(*old(self), Node::B9, out, *final(self)),
    {
        let checksum = self.resource.validate_content_checksum();
        let yes = checksum_passes(checksum) && !self.resource.malformed_request();
        assert(answered(*old(self), Node::B9, yes));
        turn(Node::B9, yes)
    }

    /// Authorized?
    pub fn b8(&mut self) -> (out: Outcomes<R::Input, R::Output>)
        ensures
            turns(Node::B8, out),
            *final(self) == *old(self),
            visited(*old(self), Node::B8, out, *final(self)),
    {
        let header = self.request.header_named("Authorization");
        let yes = self.resource.is_authorized(header);
        assert(answered(*old(self), Node::B8, yes));
        turn(Node::B8, yes)
    }

    /// Forbidden?
    pub fn b7(&mut self) -> (out: Outcomes<R::Input, R::Output>)
        ensures
            turns(Node::B7, out),
            *final(self) == *old(self),
            visited(*old(self), Node::B7, out, *final(self)),
    {
        let yes = self.resource.forbidden();
        assert(answered(*old(self), Node::B7, yes));
        turn(Node::B7, yes)
    }

    /// Content headers valid?
    pub fn b6(&mut self) -> (out: Outcomes<R::Input, R::Output>)
        ensures
            turns(Node::B6, out),
            *final(self) == *old(self),
            visited(*old(self), Node::B6, out, *final(self)),
    {
        let headers = content_headers(&self.request.headers);
        let yes = self.resource.valid_content_headers(&headers);
        assert(answered(*old(self), Node::B6, yes));
        turn(Node::B6, yes)
    }

    /// Known content type? A request that names none is taken to carry
    /// `application/octet-stream`.
    pub fn b5(&mut self) -> (out: Outcomes<R::Input, R::Output>)
        ensures
            turns(Node::B5, out),
            *final(self) == *old(self),
            visited(*old(self), Node::B5, out, *final(self)),
    {
        let yes = match self.request.header_named("Content-Type") {
            Some(value) => self.resource.known_content_type(value),
            None => self.resource.known_content_type("application/octet-stream"),
        };
        assert(answered(*old(self), Node::B5, yes));
        turn(Node::B5, yes)
    }

    /// Entity length in order? The header fields are checked by
    /// `length_check`; a length that they announce is put to the resource.
    pub fn b4(&mut self) -> (out: Outcomes<R::Input, R::Output>)
        ensures
            visited(*old(self), Node::B4, out, *final(self)),
            ({
                let check = length_check(
                    old(self).request@.method,
                    old(self).asks("Content-Length"@),
                    old(self).asks("Transfer-Encoding"@) is Some,
                );
                out == lifted::<R::Input, R::Output>(length_step(check, true)) || out == lifted::<
                    R::Input,
                    R::Output,
                >(length_step(check, false))
            }),
            permitted(Node::B4, out),
            *final(self) == *old(self),
    {
        let content_length = self.request.header_named("Content-Length");
        let transfer_encoding = self.request.header_named("Transfer-Encoding").is_some();
        let check = check_length(&self.request.method, content_length, transfer_encoding);
        let accepted = match check {
            LengthCheck::Ask(n) => self.resource.valid_entity_length(n),
            _ => true,
        };
        proof {
            lemma_branch_stays_in_diagram(Node::B4, accepted);
        }
        lift(take_length_step(check, accepted))
    }

    /// OPTIONS?
    pub fn b3(&mut self) -> (out: Outcomes<R::Input, R::Output>)
        ensures
            out == lifted::<R::Input, R::Output>(
                branch(Node::B3, old(self).request@.method == MethodView::Options),
            ),
            *final(self) == *old(self),
            visited(*old(self), Node::B3, out, *final(self)),
    {
        let yes = match self.request.method {
            Method::Options => true,
            _ => false,
        };
        assert(answered(*old(self), Node::B3, yes));
        turn(Node::B3, yes)
    }

    /// Accept exists? Where it does not, the first of the representations
    /// on offer is chosen and recorded. A resource that offers none has
    /// failed: 500.
    pub fn c3(&mut self) -> (out: Outcomes<R::Input, R::Output>)
        ensures
            visited(*old(self), Node::C3, out, *final(self)),
            permitted(Node::C3, out),
            old(self).asks("Accept"@) is Some ==> out == Outcomes::<R::Input, R::Output>::Next(
                Node::C4,
            ) && *final(self) == *old(self),
            old(self).asks("Accept"@) is None ==> exists|offered: Seq<MediaTypeView>|
                settles(*old(self), *final(self), Node::C3, out, offered, None),
            final(self).resource == old(self).resource,
            final(self).request == old(self).request,
            final(self).response == old(self).response,
    {
        if self.request.header_named("Accept").is_some() {
            return turn(Node::C3, true);
        }
        let provided = self.resource.content_types_provided();
        let out = match choose_representation(&provided, None) {
            Ok(i) => {
                self.metadata.content_type = Some(provided[i].0.duplicate());
                turn(Node::C3, false)
            },
            Err(step) => lift(step),
        };
        assert(settles(*old(self), *self, Node::C3, out, provided_types(provided@), None));
        out
    }

    /// Acceptable media type available? The outcome is that of
    /// `representation_choice` on what the resource offers and on the
    /// `Accept` header: on to D4 with the choice recorded, or a halt.
    pub fn c4(&mut self) -> (out: Outcomes<R::Input, R::Output>)
        ensures
            visited(*old(self), Node::C4, out, *final(self)),
            permitted(Node::C4, out),
            exists|offered: Seq<MediaTypeView>|
                settles(
                    *old(self),
                    *final(self),
                    Node::C4,
                    out,
                    offered,
                    old(self).asks("Accept"@),
                ),
            final(self).resource == old(self).resource,
            final(self).request == old(self).request,
            final(self).response == old(self).response,
    {
        let provided = self.resource.content_types_provided();
        let choice = choose_representation(&provided, self.request.header_named("Accept"));
        let out = match choice {
            Ok(i) => {
                self.metadata.content_type = Some(provided[i].0.duplicate());
                turn(Node::C4, true)
            },
            Err(step) => lift(step),
        };
        proof {
            lemma_branch_stays_in_diagram(Node::C4, true);
            lemma_branch_stays_in_diagram(Node::C4, false);
            assert(settles(
                *old(self),
                *self,
                Node::C4,
                out,
                provided_types(provided@),
                old(self).asks("Accept"@),
            ));
        }
        out
    }

    /// Accept-Language exists?
    pub fn d4(&mut self) -> (out: Outcomes<R::Input, R::Output>)
        ensures
            out == lifted::<R::Input, R::Output>(
                branch(Node::D4, old(self).asks("Accept-Language"@) is Some),
            ),
            *final(self) == *old(self),
            visited(*old(self), Node::D4, out, *final(self)),
    {
        let yes = self.request.header_named("Accept-Language").is_some();
        assert(answered(*old(self), Node::D4, yes));
        turn(Node::D4, yes)
    }

    /// Acceptable language available? The outcome is that of `name_choice`
    /// on the languages that the resource offers.
    pub fn d5(&mut self) -> (out: Outcomes<R::Input, R::Output>)
        ensures
            visited(*old(self), Node::D5, out, *final(self)),
            permitted(Node::D5, out),
            exists|offered: Seq<Seq<char>>|
                settles_name(
                    Node::D5,
                    out,
                    offered,
                    old(self).asks("Accept-Language"@),
                    old(self).metadata.language,
                    final(self).metadata.language,
                ),
            final(self).resource == old(self).resource,
            final(self).request == old(self).request,
            final(self).response == old(self).response,
    {
        let provided = self.resource.languages_provided();
        let choice = choose_name(Node::D5, &provided, self.request.header_named("Accept-Language"));
        let out = match choice {
            Ok(Some(i)) => {
                self.metadata.language = Some(provided[i].clone());
                turn(Node::D5, true)
            },
            Ok(None) => turn(Node::D5, true),
            Err(step) => lift(step),
        };
        proof {
            lemma_branch_stays_in_diagram(Node::D5, true);
            lemma_branch_stays_in_diagram(Node::D5, false);
            assert(settles_name(
                Node::D5,
                out,
                texts(provided@),
                old(self).asks("Accept-Language"@),
                old(self).metadata.language,
                self.metadata.language,
            ));
        }
        out
    }

    /// Accept-Charset exists?
    pub fn e5(&mut self) -> (out: Outcomes<R::Input, R::Output>)
        ensures
            out == lifted::<R::Input, R::Output>(
                branch(Node::E5, old(self).asks("Accept-Charset"@) is Some),
            ),
            *final(self) == *old(self),
            visited(*old(self), Node::E5, out, *final(self)),
    {
        let yes = self.request.header_named("Accept-Charset").is_some();
        assert(answered(*old(self), Node::E5, yes));
        turn(Node::E5, yes)
    }

    /// Acceptable charset available? The outcome is that of `name_choice` on
    /// the charsets that the resource offers.
    pub fn e6(&mut self) -> (out: Outcomes<R::Input, R::Output>)
        ensures
            visited(*old(self), Node::E6, out, *final(self)),
            permitted(Node::E6, out),
            exists|offered: Seq<Seq<char>>|
                settles_name(
                    Node::E6,
                    out,
                    offered,
                    old(self).asks("Accept-Charset"@),
                    old(self).metadata.charset,
                    final(self).metadata.charset,
                ),
            final(self).resource == old(self).resource,
            final(self).request == old(self).request,
            final(self).response == old(self).response,
    {
        let provided = self.resource.charsets_provided();
        let choice = choose_name(Node::E6, &provided, self.request.header_named("Accept-Charset"));
        let out = match choice {
            Ok(Some(i)) => {
                self.metadata.charset = Some(provided[i].clone());
                turn(Node::E6, true)
            },
            Ok(None) => turn(Node::E6, true),
            Err(step) => lift(step),
        };
        proof {
            lemma_branch_stays_in_diagram(Node::E6, true);
            lemma_branch_stays_in_diagram(Node::E6, false);
            assert(settles_name(
                Node::E6,
                out,
                texts(provided@),
                old(self).asks("Accept-Charset"@),
                old(self).metadata.charset,
                self.metadata.charset,
            ));
        }
        out
    }

    /// Accept-Encoding exists?
    pub fn f6(&mut self) -> (out: Outcomes<R::Input, R::Output>)
        ensures
            out == lifted::<R::Input, R::Output>(
                branch(Node::F6, old(self).asks("Accept-Encoding"@) is Some),
            ),
            *final(self) == *old(self),
            visited(*old(self), Node::F6, out, *final(self)),
    {
        let yes = self.request.header_named("Accept-Encoding").is_some();
        assert(answered(*old(self), Node::F6, yes));
        turn(Node::F6, yes)
    }

    /// Acceptable encoding available? The outcome is that of `name_choice`
    /// on the content codings that the resource offers.
    pub fn f7(&mut self) -> (out: Outcomes<R::Input, R::Output>)
        ensures
            visited(*old(self), Node::F7, out, *final(self)),
            permitted(Node::F7, out),
            exists|offered: Seq<Seq<char>>|
                settles_name(
                    Node::F7,
                    out,
                    offered,
                    old(self).asks("Accept-Encoding"@),
                    old(self).metadata.encoding,
                    final(self).metadata.encoding,
                ),
            final(self).resource == old(self).resource,
            final(self).request == old(self).request,
            final(self).response == old(self).response,
    {
        let provided = self.resource.encodings_provided();
        let choice = choose_name(Node::F7, &provided, self.request.header_named("Accept-Encoding"));
        let out = match choice {
            Ok(Some(i)) => {
                self.metadata.encoding = Some(provided[i].clone());
                turn(Node::F7, true)
            },
            Ok(None) => turn(Node::F7, true),
            Err(step) => lift(step),
        };
        proof {
            lemma_branch_stays_in_diagram(Node::F7, true);
            lemma_branch_stays_in_diagram(Node::F7, false);
            assert(settles_name(
                Node::F7,
                out,
                texts(provided@),
                old(self).asks("Accept-Encoding"@),
                old(self).metadata.encoding,
                self.metadata.encoding,
            ));
        }
        out
    }

    /// Resource exists?
    pub fn g7(&mut self) -> (out: Outcomes<R::Input, R::Output>)
        ensures
            turns(Node::G7, out),
            *final(self) == *old(self),
            visited(*old(self), Node::G7, out, *final(self)),
    {
        let yes = self.resource.resource_exists();
        assert(answered(*old(self), Node::G7, yes));
        turn(Node::G7, yes)
    }

    /// If-Match exists?
    pub fn g8(&mut self) -> (out: Outcomes<R::Input, R::Output>)
        ensures
            out == lifted::<R::Input, R::Output>(
                branch(Node::G8, old(self).asks("If-Match"@) is Some),
            ),
            *final(self) == *old(self),
            visited(*old(self), Node::G8, out, *final(self)),
    {
        let yes = self.request.header_named("If-Match").is_some();
        assert(answered(*old(self), Node::G8, yes));
        turn(Node::G8, yes)
    }

    /// If-Match: * exists?
    pub fn g9(&mut self) -> (out: Outcomes<R::Input, R::Output>)
        ensures
            out == lifted::<R::Input, R::Output>(
                branch(Node::G9, old(self).asks_any("If-Match"@)),
            ),
            *final(self) == *old(self),
            visited(*old(self), Node::G9, out, *final(self)),
    {
        let yes = match self.request.header_named("If-Match") {
            Some(value) => is_star(value),
            None => false,
        };
        assert(answered(*old(self), Node::G9, yes));
        turn(Node::G9, yes)
    }

    /// ETag in If-Match?
    pub fn g11(&mut self) -> (out: Outcomes<R::Input, R::Output>)
        ensures
            turns(Node::G11, out),
            *final(self) == *old(self),
            visited(*old(self), Node::G11, out, *final(self)),
    {
        let etag = self.resource.generate_etag();
        let tag = match &etag {
            Some(t) => Some(t.as_str()),
            None => None,
        };
        let yes = etag_named(self.request.header_named("If-Match"), tag);
        assert(answered(*old(self), Node::G11, yes));
        turn(Node::G11, yes)
    }

    /// If-Match: * exists, for a resource that does not?
    pub fn h7(&mut self) -> (out: Outcomes<R::Input, R::Output>)
        ensures
            out == lifted::<R::Input, R::Output>(
                branch(Node::H7, old(self).asks_any("If-Match"@)),
            ),
            *final(self) == *old(self),
            visited(*old(self), Node::H7, out, *final(self)),
    {
        let yes = match self.request.header_named("If-Match") {
            Some(value) => is_star(value),
            None => false,
        };
        assert(answered(*old(self), Node::H7, yes));
        turn(Node::H7, yes)
    }

    /// If-Unmodified-Since exists?
    pub fn h10(&mut self) -> (out: Outcomes<R::Input, R::Output>)
        ensures
            out == lifted::<R::Input, R::Output>(
                branch(Node::H10, old(self).asks("If-Unmodified-Since"@) is Some),
            ),
            *final(self) == *old(self),
            visited(*old(self), Node::H10, out, *final(self)),
    {
        let yes = self.request.header_named("If-Unmodified-Since").is_some();
        assert(answered(*old(self), Node::H10, yes));
        turn(Node::H10, yes)
    }

    /// If-Unmodified-Since is a valid date?
    pub fn h11(&mut self) -> (out: Outcomes<R::Input, R::Output>)
        ensures
            out == lifted::<R::Input, R::Output>(
                branch(Node::H11, old(self).asks_date("If-Unmodified-Since"@) is Some),
            ),
            *final(self) == *old(self),
            visited(*old(self), Node::H11, out, *final(self)),
    {
        let yes = match self.request.header_named("If-Unmodified-Since") {
            Some(value) => parse_http_date(value).is_some(),
            None => false,
        };
        assert(answered(*old(self), Node::H11, yes));
        turn(Node::H11, yes)
    }

    /// Last-Modified later than If-Unmodified-Since?
    pub fn h12(&mut self) -> (out: Outcomes<R::Input, R::Output>)
        ensures
            turns(Node::H12, out),
            *final(self) == *old(self),
            visited(*old(self), Node::H12, out, *final(self)),
    {
        let date = match self.request.header_named("If-Unmodified-Since") {
            Some(value) => parse_http_date(value),
            None => None,
        };
        let yes = is_modified_after(self.resource.last_modified(), date);
        assert(answered(*old(self), Node::H12, yes));
        turn(Node::H12, yes)
    }

    /// Moved permanently, asked by a PUT to a resource that does not
    /// exist? Where it has, the response names the new place.
    pub fn i4(&mut self) -> (out: Outcomes<R::Input, R::Output>)
        ensures
            visited(*old(self), Node::I4, out, *final(self)),
            turns(Node::I4, out),
            final(self).resource == old(self).resource,
            final(self).request == old(self).request,
            final(self).metadata == old(self).metadata,
            out is Next ==> final(self).response == old(self).response,
            out is Halt ==> exists|target: Seq<char>|
                final(self).response@ == header_added(old(self).response@, "Location"@, target),
    {
        match self.resource.moved_permanently() {
            Some(target) => {
                redirect(&mut self.response, target.as_str());
                turn(Node::I4, true)
            },
            None => turn(Node::I4, false),
        }
    }

    /// PUT?
    pub fn i7(&mut self) -> (out: Outcomes<R::Input, R::Output>)
        ensures
            out == lifted::<R::Input, R::Output>(
                branch(Node::I7, old(self).request@.method == MethodView::Put),
            ),
            *final(self) == *old(self),
            visited(*old(self), Node::I7, out, *final(self)),
    {
        let yes = match self.request.method {
            Method::Put => true,
            _ => false,
        };
        assert(answered(*old(self), Node::I7, yes));
        turn(Node::I7, yes)
    }

    /// If-None-Match exists?
    pub fn i12(&mut self) -> (out: Outcomes<R::Input, R::Output>)
        ensures
            out == lifted::<R::Input, R::Output>(
                branch(Node::I12, old(self).asks("If-None-Match"@) is Some),
            ),
            *final(self) == *old(self),
            visited(*old(self), Node::I12, out, *final(self)),
    {
        let yes = self.request.header_named("If-None-Match").is_some();
        assert(answered(*old(self), Node::I12, yes));
        turn(Node::I12, yes)
    }

    /// If-None-Match: * exists?
    pub fn i13(&mut self) -> (out: Outcomes<R::Input, R::Output>)
        ensures
            out == lifted::<R::Input, R::Output>(
                branch(Node::I13, old(self).asks_any("If-None-Match"@)),
            ),
            *final(self) == *old(self),
            visited(*old(self), Node::I13, out, *final(self)),
    {
        let yes = match self.request.header_named("If-None-Match") {
            Some(value) => is_star(value),
            None => false,
        };
        assert(answered(*old(self), Node::I13, yes));
        turn(Node::I13, yes)
    }

    /// GET or HEAD?
    pub fn j18(&mut self) -> (out: Outcomes<R::Input, R::Output>)
        ensures
            out == lifted::<R::Input, R::Output>(
                branch(
                    Node::J18,
                    old(self).request@.method == MethodView::Get || old(self).request@.method
                        == MethodView::Head,
                ),
            ),
            *final(self) == *old(self),
            visited(*old(self), Node::J18, out, *final(self)),
    {
        let yes = match self.request.method {
            Method::Get => true,
            Method::Head => true,
            _ => false,
        };
        assert(answered(*old(self), Node::J18, yes));
        turn(Node::J18, yes)
    }

    /// Moved permanently? Where it has, the response names the new place.
    pub fn k5(&mut self) -> (out: Outcomes<R::Input, R::Output>)
        ensures
            visited(*old(self), Node::K5, out, *final(self)),
            turns(Node::K5, out),
            final(self).resource == old(self).resource,
            final(self).request == old(self).request,
            final(self).metadata == old(self).metadata,
            out is Next ==> final(self).response == old(self).response,
            out is Halt ==> exists|target: Seq<char>|
                final(self).response@ == header_added(old(self).response@, "Location"@, target),
    {
        match self.resource.moved_permanently() {
            Some(target) => {
                redirect(&mut self.response, target.as_str());
                turn(Node::K5, true)
            },
            None => turn(Node::K5, false),
        }
    }

    /// Previously existed?
    pub fn k7(&mut self) -> (out: Outcomes<R::Input, R::Output>)
        ensures
            turns(Node::K7, out),
            *final(self) == *old(self),
            visited(*old(self), Node::K7, out, *final(self)),
    {
        let yes = self.resource.previously_existed();
        assert(answered(*old(self), Node::K7, yes));
        turn(Node::K7, yes)
    }

    /// ETag in If-None-Match?
    pub fn k13(&mut self) -> (out: Outcomes<R::Input, R::Output>)
        ensures
            turns(Node::K13, out),
            *final(self) == *old(self),
            visited(*old(self), Node::K13, out, *final(self)),
    {
        let etag = self.resource.generate_etag();
        let tag = match &etag {
            Some(t) => Some(t.as_str()),
            None => None,
        };
        let yes = etag_named(self.request.header_named("If-None-Match"), tag);
        assert(answered(*old(self), Node::K13, yes));
        turn(Node::K13, yes)
    }

    /// Moved temporarily? Where it has, the response names the new place.
    pub fn l5(&mut self) -> (out: Outcomes<R::Input, R::Output>)
        ensures
            visited(*old(self), Node::L5, out, *final(self)),
            turns(Node::L5, out),
            final(self).resource == old(self).resource,
            final(self).request == old(self).request,
            final(self).metadata == old(self).metadata,
            out is Next ==> final(self).response == old(self).response,
            out is Halt ==> exists|target: Seq<char>|
                final(self).response@ == header_added(old(self).response@, "Location"@, target),
    {
        match self.resource.moved_temporarily() {
            Some(target) => {
                redirect(&mut self.response, target.as_str());
                turn(Node::L5, true)
            },
            None => turn(Node::L5, false),
        }
    }

    /// POST, to a resource that never existed?
    pub fn l7(&mut self) -> (out: Outcomes<R::Input, R::Output>)
        ensures
            out == lifted::<R::Input, R::Output>(
                branch(Node::L7, old(self).request@.method == MethodView::Post),
            ),
            *final(self) == *old(self),
            visited(*old(self), Node::L7, out, *final(self)),
    {
        let yes = match self.request.method {
            Method::Post => true,
            _ => false,
        };
        assert(answered(*old(self), Node::L7, yes));
        turn(Node::L7, yes)
    }

    /// If-Modified-Since exists?
    pub fn l13(&mut self) -> (out: Outcomes<R::Input, R::Output>)
        ensures
            out == lifted::<R::Input, R::Output>(
                branch(Node::L13, old(self).asks("If-Modified-Since"@) is Some),
            ),
            *final(self) == *old(self),
            visited(*old(self), Node::L13, out, *final(self)),
    {
        let yes = self.request.header_named("If-Modified-Since").is_some();
        assert(answered(*old(self), Node::L13, yes));
        turn(Node::L13, yes)
    }

    /// If-Modified-Since is a valid date?
    pub fn l14(&mut self) -> (out: Outcomes<R::Input, R::Output>)
        ensures
            out == lifted::<R::Input, R::Output>(
                branch(Node::L14, old(self).asks_date("If-Modified-Since"@) is Some),
            ),
            *final(self) == *old(self),
            visited(*old(self), Node::L14, out, *final(self)),
    {
        let yes = match self.request.header_named("If-Modified-Since") {
            Some(value) => parse_http_date(value).is_some(),
            None => false,
        };
        assert(answered(*old(self), Node::L14, yes));
        turn(Node::L14, yes)
    }

    /// If-Modified-Since later than now? Such a date is left out of
    /// account.
    pub fn l15(&mut self) -> (out: Outcomes<R::Input, R::Output>)
        ensures
            out == lifted::<R::Input, R::Output>(
                branch(
                    Node::L15,
                    lies_ahead(
                        old(self).asks_date("If-Modified-Since"@),
                        old(self).request@.received_at,
                    ),
                ),
            ),
            *final(self) == *old(self),
            visited(*old(self), Node::L15, out, *final(self)),
    {
        let date = match self.request.header_named("If-Modified-Since") {
            Some(value) => parse_http_date(value),
            None => None,
        };
        let yes = match date {
            Some(d) => d > self.request.received_at,
            None => true,
        };
        assert(answered(*old(self), Node::L15, yes));
        turn(Node::L15, yes)
    }

    /// Last-Modified later than If-Modified-Since?
    pub fn l17(&mut self) -> (out: Outcomes<R::Input, R::Output>)
        ensures
            turns(Node::L17, out),
            *final(self) == *old(self),
            visited(*old(self), Node::L17, out, *final(self)),
    {
        let date = match self.request.header_named("If-Modified-Since") {
            Some(value) => parse_http_date(value),
            None => None,
        };
        let yes = is_modified_since(self.resource.last_modified(), date);
        assert(answered(*old(self), Node::L17, yes));
        turn(Node::L17, yes)
    }

    /// POST, to a resource that is gone?
    pub fn m5(&mut self) -> (out: Outcomes<R::Input, R::Output>)
        ensures
            out == lifted::<R::Input, R::Output>(
                branch(Node::M5, old(self).request@.method == MethodView::Post),
            ),
            *final(self) == *old(self),
            visited(*old(self), Node::M5, out, *final(self)),
    {
        let yes = match self.request.method {
            Method::Post => true,
            _ => false,
        };
        assert(answered(*old(self), Node::M5, yes));
        turn(Node::M5, yes)
    }

    /// Server permits POST to a missing resource?
    pub fn m7(&mut self) -> (out: Outcomes<R::Input, R::Output>)
        ensures
            turns(Node::M7, out),
            *final(self) == *old(self),
            visited(*old(self), Node::M7, out, *final(self)),
    {
        let yes = self.resource.allow_missing_post();
        assert(answered(*old(self), Node::M7, yes));
        turn(Node::M7, yes)
    }

    /// DELETE?
    pub fn m16(&mut self) -> (out: Outcomes<R::Input, R::Output>)
        ensures
            out == lifted::<R::Input, R::Output>(
                branch(Node::M16, old(self).request@.method == MethodView::Delete),
            ),
            *final(self) == *old(self),
            visited(*old(self), Node::M16, out, *final(self)),
    {
        let yes = match self.request.method {
            Method::Delete => true,
            _ => false,
        };
        assert(answered(*old(self), Node::M16, yes));
        turn(Node::M16, yes)
    }

    /// Delete enacted? A resource that cannot delete has failed: 500. One
    /// that has not completed the deletion yet answers 202.
    pub fn m20(&mut self) -> (out: Outcomes<R::Input, R::Output>)
        ensures
            visited(*old(self), Node::M20, out, *final(self)),
            turns(Node::M20, out) || out == Outcomes::<R::Input, R::Output>::Halt(500),
            permitted(Node::M20, out),
            *final(self) == *old(self),
    {
        if !self.resource.delete_method() {
            return Outcomes::Halt(500);
        }
        let yes = self.resource.delete_completed();
        proof {
            lemma_branch_stays_in_diagram(Node::M20, yes);
        }
        turn(Node::M20, yes)
    }

    /// Server permits POST to a resource that is gone?
    pub fn n5(&mut self) -> (out: Outcomes<R::Input, R::Output>)
        ensures
            turns(Node::N5, out),
            *final(self) == *old(self),
            visited(*old(self), Node::N5, out, *final(self)),
    {
        let yes = self.resource.allow_missing_post();
        assert(answered(*old(self), Node::N5, yes));
        turn(Node::N5, yes)
    }

    /// POST?
    pub fn n16(&mut self) -> (out: Outcomes<R::Input, R::Output>)
        ensures
            out == lifted::<R::Input, R::Output>(
                branch(Node::N16, old(self).request@.method == MethodView::Post),
            ),
            *final(self) == *old(self),
            visited(*old(self), Node::N16, out, *final(self)),
    {
        let yes = match self.request.method {
            Method::Post => true,
            _ => false,
        };
        assert(answered(*old(self), Node::N16, yes));
        turn(Node::N16, yes)
    }

    /// PUT?
    pub fn o16(&mut self) -> (out: Outcomes<R::Input, R::Output>)
        ensures
            out == lifted::<R::Input, R::Output>(
                branch(Node::O16, old(self).request@.method == MethodView::Put),
            ),
            *final(self) == *old(self),
            visited(*old(self), Node::O16, out, *final(self)),
    {
        let yes = match self.request.method {
            Method::Put => true,
            _ => false,
        };
        assert(answered(*old(self), Node::O16, yes));
        turn(Node::O16, yes)
    }

    /// Response includes an entity? It does where the response that waits
    /// announces one in `Content-Type`.
    pub fn o20(&mut self) -> (out: Outcomes<R::Input, R::Output>)
        ensures
            out == lifted::<R::Input, R::Output>(
                branch(Node::O20, pending_header(old(self).response@, "Content-Type"@) is Some),
            ),
            *final(self) == *old(self),
            visited(*old(self), Node::O20, out, *final(self)),
    {
        let yes = self.response.header_named("Content-Type").is_some();
        assert(answered(*old(self), Node::O20, yes));
        turn(Node::O20, yes)
    }

    /// New resource? It is where the response that waits names its place
    /// in `Location`.
    pub fn p11(&mut self) -> (out: Outcomes<R::Input, R::Output>)
        ensures
            out == lifted::<R::Input, R::Output>(
                branch(Node::P11, pending_header(old(self).response@, "Location"@) is Some),
            ),
            *final(self) == *old(self),
            visited(*old(self), Node::P11, out, *final(self)),
    {
        let yes = self.response.header_named("Location").is_some();
        assert(answered(*old(self), Node::P11, yes));
        turn(Node::P11, yes)
    }

    /// Runs the input handler that the resource has for the content type
    /// of the request, where it has one, and says whether it had: it has
    /// one where `takes` says so of the representations that the resource
    /// accepts. The handler runs on the wrapper as it stood, and what it
    /// left is what is left. Where there is none, nothing changes.
    fn take_in(&mut self) -> (handled: bool)
        ensures
            exists|accepted: Vec<AcceptedPair<R::Input>>|
                #[trigger] call_ensures(
                    R::content_types_accepted,
                    (&old(self).resource,),
                    accepted,
                ) && handled == takes(accepted@, content_type_of(old(self).request@)) && (handled
                    ==> exists|
                    i: int,
                    resource: &mut R,
                    request: &mut Request,
                    response: &mut DelayedResponse,
                |
                    {
                        &&& mime_parse(content_type_of(old(self).request@)) matches Some(media)
                            && position_of(
                            accepted_types(accepted@),
                            media,
                            accepted@.len() as int,
                        ) == Some(i)
                        &&& 0 <= i < accepted@.len()
                        &&& *resource == old(self).resource
                        &&& *request == old(self).request
                        &&& *response == old(self).response
                        &&& #[trigger] call_ensures(
                            R::accept,
                            (resource, &accepted@[i].1, request, response),
                            (),
                        )
                        &&& *final(resource) == final(self).resource
                        &&& *final(request) == final(self).request
                        &&& *final(response) == final(self).response
                    }),
            final(self).metadata == old(self).metadata,
            !handled ==> *final(self) == *old(self),
    {
        let media = match self.request.header_named("Content-Type") {
            Some(value) => MediaType::parse(value),
            None => MediaType::parse("application/octet-stream"),
        };
        let mut accepted = self.resource.content_types_accepted();
        let ghost offered = accepted@;
        let found = match &media {
            Some(m) => find_accepted(&accepted, m),
            None => None,
        };
        assert(found is Some == takes(offered, content_type_of(old(self).request@)));
        match found {
            Some(i) => {
                let pair = accepted.swap_remove(i);
                self.resource.accept(&pair.1, &mut self.request, &mut self.response);
                true
            },
            None => false,
        }
    }

    /// POST, as `posts` says, and with what a spec function cannot say of
    /// a call that changes its arguments. A POST that does not create is
    /// processed on the wrapper as it stood: the outcome goes by the
    /// answer of that call, and the node leaves what the call left. For a
    /// POST that creates, where the resource has an input handler for the
    /// content type, the handler has run on the wrapper as it stood, then
    /// `process_post` on what the handler left, and the outcome goes by
    /// the answer of that call. Where the resource has processed the POST,
    /// the response as `process_post` left it gets status 201 and names in
    /// `Location` the path that the resource gives after both; where it
    /// has not, the node leaves what `process_post` left.
    pub fn n11(&mut self) -> (out: Outcomes<R::Input, R::Output>)
        ensures
            visited(*old(self), Node::N11, out, *final(self)),
            permitted(Node::N11, out),
            final(self).metadata == old(self).metadata,
            exists|create: bool|
                #[trigger] call_ensures(R::post_is_create, (&old(self).resource,), create) && (create
                    || exists|resource: &mut R, response: &mut DelayedResponse, processed: bool|
                    {
                        &&& *resource == old(self).resource
                        &&& *response == old(self).response
                        &&& #[trigger] call_ensures(R::process_post, (resource, response), processed)
                        &&& out == posted::<R::Input, R::Output>(false, false, processed)
                        &&& final(self).resource == *final(resource)
                        &&& final(self).response == *final(response)
                        &&& final(self).request == old(self).request
                    }) && (!create || exists|accepted: Vec<AcceptedPair<R::Input>>|
                    #[trigger] call_ensures(
                        R::content_types_accepted,
                        (&old(self).resource,),
                        accepted,
                    ) && (!takes(accepted@, content_type_of(old(self).request@)) || exists|
                    i: int,
                    resource: &mut R,
                    request: &mut Request,
                    response: &mut DelayedResponse,
                    handled: &mut R,
                    taken: &mut DelayedResponse,
                    processed: bool,
                |
                    {
                        &&& mime_parse(content_type_of(old(self).request@)) matches Some(media)
                            && position_of(
                            accepted_types(accepted@),
                            media,
                            accepted@.len() as int,
                        ) == Some(i)
                        &&& 0 <= i < accepted@.len()
                        &&& *resource == old(self).resource
                        &&& *request == old(self).request
                        &&& *response == old(self).response
                        &&& #[trigger] call_ensures(
                            R::accept,
                            (resource, &accepted@[i].1, request, response),
                            (),
                        )
                        &&& *handled == *final(resource)
                        &&& *taken == *final(response)
                        &&& #[trigger] call_ensures(R::process_post, (handled, taken), processed)
                        &&& out == posted::<R::Input, R::Output>(true, true, processed)
                        &&& final(self).resource == *final(handled)
                        &&& final(self).request == *final(request)
                        &&& !processed ==> final(self).response == *final(taken)
                        &&& processed ==> exists|path: String|
                            #[trigger] call_ensures(
                                R::create_path,
                                (&final(self).resource,),
                                path,
                            ) && final(self).response@ == header_added(
                                status_set(final(taken)@, 201),
                                "Location"@,
                                path@,
                            )
                    })),
    {
        let create = self.resource.post_is_create();
        proof {
            lemma_branch_stays_in_diagram(Node::N11, true);
            lemma_branch_stays_in_diagram(Node::N11, false);
        }
        if !create {
            let processed = self.resource.process_post(&mut self.response);
            return post_outcome(false, false, processed);
        }
        let handled = self.take_in();
        if !handled {
            return post_outcome(true, false, false);
        }
        let processed = self.resource.process_post(&mut self.response);
        let out = post_outcome(true, true, processed);
        if processed {
            let path = self.resource.create_path();
            created(&mut self.response, path.as_str());
            assert(names_place(self.response@, path@));
            assert(call_ensures(R::create_path, (&self.resource,), path));
            assert(creates(out, *self));
        } else {
            assert(creates(out, *self));
        }
        assert(posts(*old(self), out, *self));
        out
    }

    /// Conflict, for a PUT to a resource that exists? As `takes_put` says.
    /// Where the request goes on, the input handler for its content type
    /// has run, and what it left is what the node leaves.
    pub fn o14(&mut self) -> (out: Outcomes<R::Input, R::Output>)
        ensures
            visited(*old(self), Node::O14, out, *final(self)),
            permitted(Node::O14, out),
            final(self).metadata == old(self).metadata,
            out is Next ==> exists|
                accepted: Vec<AcceptedPair<R::Input>>,
                i: int,
                resource: &mut R,
                request: &mut Request,
                response: &mut DelayedResponse,
            |
                {
                    &&& call_ensures(R::content_types_accepted, (&old(self).resource,), accepted)
                    &&& mime_parse(content_type_of(old(self).request@)) matches Some(media)
                        && position_of(accepted_types(accepted@), media, accepted@.len() as int)
                        == Some(i)
                    &&& 0 <= i < accepted@.len()
                    &&& *resource == old(self).resource
                    &&& *request == old(self).request
                    &&& *response == old(self).response
                    &&& #[trigger] call_ensures(
                        R::accept,
                        (resource, &accepted@[i].1, request, response),
                        (),
                    )
                    &&& *final(resource) == final(self).resource
                    &&& *final(request) == final(self).request
                    &&& *final(response) == final(self).response
                },
    {
        let ghost asked = content_type_of(self.request@);
        let conflict = self.resource.is_conflict();
        proof {
            lemma_branch_stays_in_diagram(Node::O14, true);
            lemma_branch_stays_in_diagram(Node::O14, false);
        }
        if conflict {
            return turn(Node::O14, true);
        }
        let handled = self.take_in();
        let ghost accepted = choose|a: Vec<AcceptedPair<R::Input>>|
            #[trigger] call_ensures(R::content_types_accepted, (&old(self).resource,), a)
                && handled == takes(a@, asked);
        let out = put_outcome(Node::O14, false, handled);
        assert(out == put_to::<R::Input, R::Output>(Node::O14, false, accepted@, asked));
        out
    }

    /// Conflict, for a PUT to a resource that does not exist? As
    /// `takes_put` says. Where the request goes on, the input handler for
    /// its content type has run, and what it left is what the node leaves.
    pub fn p3(&mut self) -> (out: Outcomes<R::Input, R::Output>)
        ensures
            visited(*old(self), Node::P3, out, *final(self)),
            permitted(Node::P3, out),
            final(self).metadata == old(self).metadata,
            out is Next ==> exists|
                accepted: Vec<AcceptedPair<R::Input>>,
                i: int,
                resource: &mut R,
                request: &mut Request,
                response: &mut DelayedResponse,
            |
                {
                    &&& call_ensures(R::content_types_accepted, (&old(self).resource,), accepted)
                    &&& mime_parse(content_type_of(old(self).request@)) matches Some(media)
                        && position_of(accepted_types(accepted@), media, accepted@.len() as int)
                        == Some(i)
                    &&& 0 <= i < accepted@.len()
                    &&& *resource == old(self).resource
                    &&& *request == old(self).request
                    &&& *response == old(self).response
                    &&& #[trigger] call_ensures(
                        R::accept,
                        (resource, &accepted@[i].1, request, response),
                        (),
                    )
                    &&& *final(resource) == final(self).resource
                    &&& *final(request) == final(self).request
                    &&& *final(response) == final(self).response
                },
    {
        let ghost asked = content_type_of(self.request@);
        let conflict = self.resource.is_conflict();
        proof {
            lemma_branch_stays_in_diagram(Node::P3, true);
            lemma_branch_stays_in_diagram(Node::P3, false);
        }
        if conflict {
            return turn(Node::P3, true);
        }
        let handled = self.take_in();
        let ghost accepted = choose|a: Vec<AcceptedPair<R::Input>>|
            #[trigger] call_ensures(R::content_types_accepted, (&old(self).resource,), a)
                && handled == takes(a@, asked);
        let out = put_outcome(Node::P3, false, handled);
        assert(out == put_to::<R::Input, R::Output>(Node::P3, false, accepted@, asked));
        out
    }

    /// Multiple representations? Where there are, 300. Else the response
    /// gets status 200 and names the chosen media type in `Content-Type`,
    /// and the outcome is the output handler that the resource pairs with
    /// that media type. A resource that has no handler for the media type
    /// chosen has failed: 500.
    pub fn o18(&mut self) -> (out: Outcomes<R::Input, R::Output>)
        ensures
            visited(*old(self), Node::O18, out, *final(self)),
            permitted(Node::O18, out),
            exists|multiple: bool, offered: Seq<ProvidedPair<R::Output>>|
                emits(*old(self), *final(self), out, multiple, offered),
            out == Outcomes::<R::Input, R::Output>::Halt(300) || out == Outcomes::<
                R::Input,
                R::Output,
            >::Halt(500) || out is OutputHandler,
            out is OutputHandler ==> (old(self).metadata.content_type matches Some(media)
                && final(self).response@ == header_added(
                status_set(old(self).response@, 200),
                "Content-Type"@,
                essence_of(media@),
            )),
            out is Halt ==> final(self).response == old(self).response,
            final(self).resource == old(self).resource,
            final(self).request == old(self).request,
            final(self).metadata == old(self).metadata,
    {
        if self.resource.multiple_choices() {
            assert(emits(*old(self), *self, Outcomes::Halt(300), true, Seq::empty()));
            return turn(Node::O18, true);
        }
        let mut provided = self.resource.content_types_provided();
        let ghost offered = provided@;
        let found = match &self.metadata.content_type {
            Some(media) => find_provided(&provided, media),
            None => None,
        };
        let at = match found {
            Some(i) => i,
            None => {
                assert(emits(*old(self), *self, Outcomes::Halt(500), false, offered));
                return Outcomes::Halt(500);
            },
        };
        match &self.metadata.content_type {
            Some(media) => {
                announce(&mut self.response, media);
            },
            None => {},
        }
        let pair = provided.swap_remove(at);
        let out = Outcomes::OutputHandler(pair.1);
        assert(emits(*old(self), *self, out, false, offered));
        out
    }

    /// Visits a node: asks its question and hands back what follows from
    /// the answer, as `visited` says of the node. At the nodes that run an
    /// input handler, N11, O14 and P3, it does what the method of the
    /// node does, on the wrapper as it stands: what that method ensures
    /// of its outcome and of what it leaves holds of this visit.
    pub fn visit(&mut self, node: Node) -> (out: Outcomes<R::Input, R::Output>)
        ensures
            visited(*old(self), node, out, *final(self)),
            permitted(node, out),
            out is Done || out is OutputHandler ==> waits_with(
                final(self).response@,
                status_made_at(node),
            ),
            node == Node::N11 ==> exists|w: &mut Self|
                *w == *old(self) && *final(w) == *final(self) && #[trigger] call_ensures(
                    Self::n11,
                    (w,),
                    out,
                ),
            node == Node::O14 ==> exists|w: &mut Self|
                *w == *old(self) && *final(w) == *final(self) && #[trigger] call_ensures(
                    Self::o14,
                    (w,),
                    out,
                ),
            node == Node::P3 ==> exists|w: &mut Self|
                *w == *old(self) && *final(w) == *final(self) && #[trigger] call_ensures(
                    Self::p3,
                    (w,),
                    out,
                ),
    {
        let out = match node {
            Node::B13 => self.b13(),
            Node::B12 => self.b12(),
            Node::B11 => self.b11(),
            Node::B10 => self.b10(),
            Node::B9 => self.b9(),
            Node::B8 => self.b8(),
            Node::B7 => self.b7(),
            Node::B6 => self.b6(),
            Node::B5 => self.b5(),
            Node::B4 => self.b4(),
            Node::B3 => self.b3(),
            Node::C3 => self.c3(),
            Node::C4 => self.c4(),
            Node::D4 => self.d4(),
            Node::D5 => self.d5(),
            Node::E5 => self.e5(),
            Node::E6 => self.e6(),
            Node::F6 => self.f6(),
            Node::F7 => self.f7(),
            Node::G7 => self.g7(),
            Node::G8 => self.g8(),
            Node::G9 => self.g9(),
            Node::G11 => self.g11(),
            Node::H7 => self.h7(),
            Node::H10 => self.h10(),
            Node::H11 => self.h11(),
            Node::H12 => self.h12(),
            Node::I4 => self.i4(),
            Node::I7 => self.i7(),
            Node::I12 => self.i12(),
            Node::I13 => self.i13(),
            Node::J18 => self.j18(),
            Node::K5 => self.k5(),
            Node::K7 => self.k7(),
            Node::K13 => self.k13(),
            Node::L5 => self.l5(),
            Node::L7 => self.l7(),
            Node::L13 => self.l13(),
            Node::L14 => self.l14(),
            Node::L15 => self.l15(),
            Node::L17 => self.l17(),
            Node::M5 => self.m5(),
            Node::M7 => self.m7(),
            Node::M16 => self.m16(),
            Node::M20 => self.m20(),
            Node::N5 => self.n5(),
            Node::N11 => self.n11(),
            Node::N16 => self.n16(),
            Node::O14 => self.o14(),
            Node::O16 => self.o16(),
            Node::O18 => self.o18(),
            Node::O20 => self.o20(),
            Node::P3 => self.p3(),
            Node::P11 => self.p11(),
        };
        proof {
            lemma_branch_stays_in_diagram(node, true);
            lemma_branch_stays_in_diagram(node, false);
        }
        out
    }
}

} // verus!
