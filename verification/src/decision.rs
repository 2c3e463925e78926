//! What the nodes decide, as functions of plain values: the answers of the
//! resource and the header fields of the request go in, the step that the
//! diagram takes comes out.

use vstd::prelude::*;
use crate::conneg::{
    choose_token, media_choice, media_views, parse_accept, select_media, texts, token_choice,
    Error,
};
use crate::flow::Outcomes;
use crate::graph::{branch, take_branch, Node, Step};
use crate::media::{MediaType, MediaTypeView};
use crate::message::{header_views, Header, HeaderView, Method, MethodView};
use crate::precondition::{announced_length, parse_length};
use crate::resource::{AcceptedPair, ProvidedPair};
use crate::text::{chars_of, lower, to_lower};

verus! {

/// A step as the loop that runs the nodes takes it: on to the next node,
/// or a halt.
pub open spec fn lifted<I, O>(step: Step) -> Outcomes<I, O> {
    match step {
        Step::To(n) => Outcomes::Next(n),
        Step::Stop(s) => Outcomes::Halt(s),
    }
}

/// The outcome of node `n` is one of the two that the diagram gives it.
pub open spec fn turns<I, O>(n: Node, out: Outcomes<I, O>) -> bool {
    out == lifted::<I, O>(branch(n, true)) || out == lifted::<I, O>(branch(n, false))
}

/// A step as an outcome.
pub fn lift<I, O>(step: Step) -> (r: Outcomes<I, O>)
    ensures
        r == lifted::<I, O>(step),
{
    match step {
        Step::To(n) => Outcomes::Next(n),
        Step::Stop(s) => Outcomes::Halt(s),
    }
}

/// The outcome of node `n` when the answer to its question is `yes`.
pub fn turn<I, O>(n: Node, yes: bool) -> (r: Outcomes<I, O>)
    ensures
        r == lifted::<I, O>(branch(n, yes)),
{
    lift(take_branch(n, yes))
}

/// Whether the check of the body's checksum lets the request pass at node
/// B9: it does unless the check was made and failed.
pub fn checksum_passes(checksum: Option<bool>) -> (r: bool)
    ensures
        r == (checksum != Some(false)),
{
    match checksum {
        Some(valid) => valid,
        None => true,
    }
}

/// What the header fields of a request say of its body, for node B4.
#[derive(Clone, Copy, Debug, PartialEq, Eq, Structural)]
pub enum LengthCheck {
    /// The header fields are in order, and no length is to be asked about.
    Pass,
    /// The header fields contradict the method or each other: 400.
    Refuse,
    /// The resource is to be asked whether it takes a body of this length.
    Ask(u64),
}

/// Whether a method carries no body: GET, HEAD and OPTIONS.
pub open spec fn bodiless(method: MethodView) -> bool {
    method == MethodView::Get || method == MethodView::Head || method == MethodView::Options
}

/// The rules of node B4. A method without a body must not announce a
/// length. `Transfer-Encoding` and `Content-Length` exclude each other. A
/// length that is announced must be a number. A method with a body must
/// announce a length unless it names a transfer encoding.
pub open spec fn length_check(
    method: MethodView,
    content_length: Option<Seq<char>>,
    transfer_encoding: bool,
) -> LengthCheck {
    if bodiless(method) {
        if content_length is Some {
            LengthCheck::Refuse
        } else {
            LengthCheck::Pass
        }
    } else if transfer_encoding && content_length is Some {
        LengthCheck::Refuse
    } else {
        match content_length {
            Some(value) => match announced_length(value) {
                Some(n) => LengthCheck::Ask(n as u64),
                None => LengthCheck::Refuse,
            },
            None => if transfer_encoding {
                LengthCheck::Pass
            } else {
                LengthCheck::Refuse
            },
        }
    }
}

/// The step of node B4 once the header fields are checked and, where a
/// length is announced, the resource has said whether it takes it.
pub open spec fn length_step(check: LengthCheck, accepted: bool) -> Step {
    match check {
        LengthCheck::Pass => Step::To(Node::B3),
        LengthCheck::Refuse => Step::Stop(400),
        LengthCheck::Ask(_) => branch(Node::B4, accepted),
    }
}

/// Whether a method carries no body.
pub fn is_bodiless(method: &Method) -> (r: bool)
    ensures
        r == bodiless(method@),
{
    match method {
        Method::Get => true,
        Method::Head => true,
        Method::Options => true,
        _ => false,
    }
}

/// Checks the header fields that speak of the body of a request.
pub fn check_length(method: &Method, content_length: Option<&str>, transfer_encoding: bool) -> (r:
    LengthCheck)
    ensures
        r == length_check(
            method@,
            match content_length {
                Some(v) => Some(v@),
                None => None,
            },
            transfer_encoding,
        ),
{
    if is_bodiless(method) {
        if content_length.is_some() {
            LengthCheck::Refuse
        } else {
            LengthCheck::Pass
        }
    } else if transfer_encoding && content_length.is_some() {
        LengthCheck::Refuse
    } else {
        match content_length {
            Some(value) => match parse_length(value) {
                Some(n) => LengthCheck::Ask(n),
                None => LengthCheck::Refuse,
            },
            None => if transfer_encoding {
                LengthCheck::Pass
            } else {
                LengthCheck::Refuse
            },
        }
    }
}

/// The step of node B4.
pub fn take_length_step(check: LengthCheck, accepted: bool) -> (r: Step)
    ensures
        r == length_step(check, accepted),
{
    match check {
        LengthCheck::Pass => Step::To(Node::B3),
        LengthCheck::Refuse => Step::Stop(400),
        LengthCheck::Ask(_) => take_branch(Node::B4, accepted),
    }
}

/// The step of a negotiating node: on where something was selected, 406
/// where nothing on offer is acceptable, 400 where the header cannot be
/// read.
pub open spec fn negotiated(n: Node, failure: Option<Error>) -> Step {
    match failure {
        None => branch(n, true),
        Some(Error::NotProvided) => branch(n, false),
        Some(Error::ParseError) => Step::Stop(400),
    }
}

/// The step of a negotiating node.
pub fn take_negotiated(n: Node, failure: Option<Error>) -> (r: Step)
    ensures
        r == negotiated(n, failure),
{
    match failure {
        None => take_branch(n, true),
        Some(Error::NotProvided) => take_branch(n, false),
        Some(Error::ParseError) => Step::Stop(400),
    }
}

/// Whether `name` begins with `prefix`, whatever the case of its letters.
pub open spec fn begins_with(name: Seq<char>, prefix: Seq<char>) -> bool {
    &&& prefix.len() <= name.len()
    &&& forall|i: int| 0 <= i < prefix.len() ==> lower(#[trigger] name[i]) == lower(prefix[i])
}

/// Whether a header field speaks of the content of the request: its name
/// begins with `Content-`.
pub open spec fn speaks_of_content(h: HeaderView) -> bool {
    begins_with(h.name, "Content-"@)
}

/// Whether `name` begins with `prefix`, whatever the case of its letters.
pub fn has_prefix(name: &str, prefix: &str) -> (r: bool)
    ensures
        r == begins_with(name@, prefix@),
{
    let n = chars_of(name);
    let p = chars_of(prefix);
    if p.len() > n.len() {
        return false;
    }
    let mut i: usize = 0;
    while i < p.len()
        invariant
            n@ == name@,
            p@ == prefix@,
            p.len() <= n.len(),
            i <= p.len(),
            forall|k: int| 0 <= k < i ==> lower(#[trigger] n@[k]) == lower(p@[k]),
        decreases p.len() - i,
    {
        if to_lower(n[i]) != to_lower(p[i]) {
            return false;
        }
        i += 1;
    }
    true
}

/// The header fields that speak of the content of the request, in the
/// order in which they stand.
pub fn content_headers(headers: &Vec<Header>) -> (r: Vec<Header>)
    ensures
        header_views(r@) == header_views(headers@).filter(|h: HeaderView| speaks_of_content(h)),
{
    let ghost pred = |h: HeaderView| speaks_of_content(h);
    let ghost views = header_views(headers@);
    let mut out: Vec<Header> = Vec::new();
    let mut i: usize = 0;
    proof {
        reveal(Seq::filter);
        assert(views.take(0).filter(pred) =~= Seq::<HeaderView>::empty());
        assert(header_views(out@) =~= Seq::<HeaderView>::empty());
    }
    while i < headers.len()
        invariant
            i <= headers.len(),
            views == header_views(headers@),
            pred == (|h: HeaderView| speaks_of_content(h)),
            header_views(out@) == views.take(i as int).filter(pred),
        decreases headers.len() - i,
    {
        let ghost before = header_views(out@);
        assert(views[i as int] == headers@[i as int]@);
        proof {
            reveal(Seq::filter);
            assert(views.take(i as int + 1).drop_last() =~= views.take(i as int));
            assert(views.take(i as int + 1).last() == views[i as int]);
        }
        if has_prefix(headers[i].name.as_str(), "Content-") {
            out.push(headers[i].duplicate());
            assert(header_views(out@) =~= before.push(views[i as int]));
        }
        i += 1;
    }
    assert(views.take(headers.len() as int) =~= views);
    out
}

/// The media types of the representations on offer.
pub open spec fn provided_types<H>(pairs: Seq<ProvidedPair<H>>) -> Seq<MediaTypeView> {
    Seq::new(pairs.len(), |i: int| pairs[i].0@)
}

/// The media types of the representations that are taken in.
pub open spec fn accepted_types<H>(pairs: Seq<AcceptedPair<H>>) -> Seq<MediaTypeView> {
    Seq::new(pairs.len(), |i: int| pairs[i].0@)
}

/// The position of the first of the first `n` media types that is `media`.
pub open spec fn position_of(types: Seq<MediaTypeView>, media: MediaTypeView, n: int) -> Option<
    int,
>
    decreases n,
{
    if n <= 0 {
        None
    } else {
        match position_of(types, media, n - 1) {
            Some(i) => Some(i),
            None => if types[n - 1] == media {
                Some(n - 1)
            } else {
                None
            },
        }
    }
}

/// A position that `position_of` finds holds the media type, and nothing
/// before it does. Where it finds none, the media type is not there.
pub proof fn lemma_position_is_first(types: Seq<MediaTypeView>, media: MediaTypeView, n: int)
    requires
        0 <= n <= types.len(),
    ensures
        match position_of(types, media, n) {
            Some(i) => 0 <= i < n && types[i] == media && forall|j: int|
                0 <= j < i ==> #[trigger] types[j] != media,
            None => forall|j: int| 0 <= j < n ==> #[trigger] types[j] != media,
        },
    decreases n,
{
    if n > 0 {
        lemma_position_is_first(types, media, n - 1);
    }
}

/// Copies of the media types on offer, in their order.
pub fn offered_types<H>(pairs: &Vec<ProvidedPair<H>>) -> (r: Vec<MediaType>)
    ensures
        media_views(r@) == provided_types(pairs@),
{
    let mut out: Vec<MediaType> = Vec::new();
    let mut i: usize = 0;
    while i < pairs.len()
        invariant
            i <= pairs.len(),
            out.len() == i,
            forall|k: int| 0 <= k < i ==> (#[trigger] out@[k])@ == pairs@[k].0@,
        decreases pairs.len() - i,
    {
        out.push(pairs[i].0.duplicate());
        i += 1;
    }
    assert(media_views(out@) =~= provided_types(pairs@));
    out
}

/// Finds the first representation on offer that has the media type.
pub fn find_provided<H>(pairs: &Vec<ProvidedPair<H>>, media: &MediaType) -> (r: Option<usize>)
    ensures
        match r {
            Some(i) => i < pairs.len() && position_of(
                provided_types(pairs@),
                media@,
                pairs.len() as int,
            ) == Some(i as int),
            None => position_of(provided_types(pairs@), media@, pairs.len() as int) is None,
        },
{
    let ghost types = provided_types(pairs@);
    let mut i: usize = 0;
    while i < pairs.len()
        invariant
            i <= pairs.len(),
            types == provided_types(pairs@),
            position_of(types, media@, i as int) is None,
        decreases pairs.len() - i,
    {
        if pairs[i].0.same(media) {
            proof {
                lemma_found_stays(types, media@, i as int + 1, pairs.len() as int);
            }
            return Some(i);
        }
        i += 1;
    }
    None
}

/// Finds the first representation taken in that has the media type.
pub fn find_accepted<H>(pairs: &Vec<AcceptedPair<H>>, media: &MediaType) -> (r: Option<usize>)
    ensures
        match r {
            Some(i) => i < pairs.len() && position_of(
                accepted_types(pairs@),
                media@,
                pairs.len() as int,
            ) == Some(i as int),
            None => position_of(accepted_types(pairs@), media@, pairs.len() as int) is None,
        },
{
    let ghost types = accepted_types(pairs@);
    let mut i: usize = 0;
    while i < pairs.len()
        invariant
            i <= pairs.len(),
            types == accepted_types(pairs@),
            position_of(types, media@, i as int) is None,
        decreases pairs.len() - i,
    {
        if pairs[i].0.same(media) {
            proof {
                lemma_found_stays(types, media@, i as int + 1, pairs.len() as int);
            }
            return Some(i);
        }
        i += 1;
    }
    None
}

proof fn lemma_found_stays(types: Seq<MediaTypeView>, media: MediaTypeView, m: int, n: int)
    requires
        0 <= m <= n,
        position_of(types, media, m) is Some,
    ensures
        position_of(types, media, n) == position_of(types, media, m),
    decreases n - m,
{
    if m < n {
        lemma_found_stays(types, media, m, n - 1);
    }
}

/// The outcome of node N11. A POST that creates needs an input handler
/// for the content type of the request; a resource that has none has
/// failed: 500. Once the handler has run and the resource has processed
/// the POST, the request is done, with a head that the node has made. A
/// POST that does not create halts with 201 once it is processed. One that
/// the resource does not process goes on to O20.
pub open spec fn posted<I, O>(create: bool, handled: bool, processed: bool) -> Outcomes<I, O> {
    if create {
        if !handled {
            Outcomes::Halt(500)
        } else if processed {
            Outcomes::Done
        } else {
            Outcomes::Next(Node::O20)
        }
    } else {
        lifted::<I, O>(branch(Node::N11, processed))
    }
}

/// The outcome of node N11.
pub fn post_outcome<I, O>(create: bool, handled: bool, processed: bool) -> (r: Outcomes<I, O>)
    ensures
        r == posted::<I, O>(create, handled, processed),
{
    if create {
        if !handled {
            Outcomes::Halt(500)
        } else if processed {
            Outcomes::Done
        } else {
            Outcomes::Next(Node::O20)
        }
    } else {
        turn(Node::N11, processed)
    }
}

/// The outcome of the nodes O14 and P3, which take a PUT in: 409 where the
/// resource reports a conflict; else the input handler for the content
/// type of the request runs, and the request goes on. A resource that has
/// no such handler has failed: 500.
pub open spec fn put<I, O>(n: Node, conflict: bool, handled: bool) -> Outcomes<I, O> {
    if conflict {
        lifted::<I, O>(branch(n, true))
    } else if handled {
        lifted::<I, O>(branch(n, false))
    } else {
        Outcomes::Halt(500)
    }
}

/// The outcome of the nodes O14 and P3.
pub fn put_outcome<I, O>(n: Node, conflict: bool, handled: bool) -> (r: Outcomes<I, O>)
    ensures
        r == put::<I, O>(n, conflict, handled),
{
    if conflict {
        turn(n, true)
    } else if handled {
        turn(n, false)
    } else {
        Outcomes::Halt(500)
    }
}

/// The representation that the nodes C3 and C4 settle on, by its place
/// among those on offer. A resource that offers none has failed: 500. A
/// request without `Accept` gets the first on offer. Else the header
/// chooses: where it chooses none, 406, and where it cannot be read, 400.
pub open spec fn representation_choice(offered: Seq<MediaTypeView>, accept: Option<Seq<char>>)
    -> Result<int, Step> {
    if offered.len() == 0 {
        Err(Step::Stop(500))
    } else {
        match accept {
            None => Ok(0),
            Some(header) => match media_choice(offered, header) {
                Ok(i) => Ok(i),
                Err(e) => Err(negotiated(Node::C4, Some(e))),
            },
        }
    }
}

/// Settles on a representation for the nodes C3 and C4.
pub fn choose_representation<H>(provided: &Vec<ProvidedPair<H>>, accept: Option<&str>) -> (r:
    Result<usize, Step>)
    ensures
        match representation_choice(
            provided_types(provided@),
            match accept {
                Some(h) => Some(h@),
                None => None,
            },
        ) {
            Ok(i) => 0 <= i < provided.len() && r == Ok::<usize, Step>(i as usize),
            Err(s) => r == Err::<usize, Step>(s),
        },
{
    if provided.len() == 0 {
        return Err(Step::Stop(500));
    }
    let header = match accept {
        Some(h) => h,
        None => {
            return Ok(0);
        },
    };
    let offered = offered_types(provided);
    match parse_accept(header) {
        Err(e) => Err(take_negotiated(Node::C4, Some(e))),
        Ok(ranges) => match select_media(offered.as_slice(), &ranges) {
            Some(i) => Ok(i),
            None => Err(take_negotiated(Node::C4, Some(Error::NotProvided))),
        },
    }
}

/// The language, charset or content coding that the nodes D5, E6 and F7
/// settle on, by its place among those on offer. Without the header there
/// is nothing to settle. Else the header chooses: where it chooses none,
/// 406, and where it cannot be read, 400.
pub open spec fn name_choice(n: Node, offered: Seq<Seq<char>>, header: Option<Seq<char>>)
    -> Result<Option<int>, Step> {
    match header {
        None => Ok(None),
        Some(h) => match token_choice(offered, h) {
            Ok(i) => Ok(Some(i)),
            Err(e) => Err(negotiated(n, Some(e))),
        },
    }
}

/// Settles on a language, a charset or a content coding.
pub fn choose_name(n: Node, provided: &Vec<String>, header: Option<&str>) -> (r: Result<
    Option<usize>,
    Step,
>)
    ensures
        match name_choice(
            n,
            texts(provided@),
            match header {
                Some(h) => Some(h@),
                None => None,
            },
        ) {
            Ok(Some(i)) => 0 <= i < provided.len() && r == Ok::<Option<usize>, Step>(
                Some(i as usize),
            ),
            Ok(None) => r == Ok::<Option<usize>, Step>(None),
            Err(s) => r == Err::<Option<usize>, Step>(s),
        },
{
    match header {
        None => Ok(None),
        Some(h) => match choose_token(provided, h) {
            Ok(i) => Ok(Some(i)),
            Err(e) => Err(take_negotiated(n, Some(e))),
        },
    }
}

} // verus!
