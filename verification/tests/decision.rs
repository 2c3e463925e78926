use gerust::conneg::Error;
use gerust::decision::{
    check_length, checksum_passes, choose_name, choose_representation, content_headers,
    find_accepted, find_provided, has_prefix, is_bodiless, lift, offered_types, post_outcome,
    put_outcome, take_length_step, take_negotiated, turn, LengthCheck,
};
use gerust::flow::Outcomes;
use gerust::graph::{take_branch, Node, Step};
use gerust::media::MediaType;
use gerust::message::{
    Header, Method, ACCEPTED, BAD_REQUEST, CONFLICT, CREATED, FORBIDDEN, GONE,
    INTERNAL_SERVER_ERROR, METHOD_NOT_ALLOWED, MOVED_PERMANENTLY, MULTIPLE_CHOICES,
    NOT_ACCEPTABLE, NOT_FOUND, NOT_IMPLEMENTED, NOT_MODIFIED, NO_CONTENT, OK, PAYLOAD_TOO_LARGE,
    PRECONDITION_FAILED, SERVICE_UNAVAILABLE, TEMPORARY_REDIRECT, UNAUTHORIZED,
    UNSUPPORTED_MEDIA_TYPE, URI_TOO_LONG,
};
use gerust::resource::{AcceptedPair, ProvidedPair};

fn media(text: &str) -> MediaType {
    MediaType::parse(text).unwrap()
}

fn provided(list: &[&str]) -> Vec<ProvidedPair<u8>> {
    list.iter().map(|m| ProvidedPair(media(m), 0u8)).collect()
}

fn accepted(list: &[&str]) -> Vec<AcceptedPair<u8>> {
    list.iter().map(|m| AcceptedPair(media(m), 0u8)).collect()
}

fn names(list: &[&str]) -> Vec<String> {
    list.iter().map(|s| s.to_string()).collect()
}

fn field(name: &str, value: &str) -> Header {
    Header { name: name.to_string(), value: value.to_string() }
}

#[test]
fn the_diagram_turns_as_drawn() {
    let table: [(Node, Step, Step); 54] = [
        (Node::B13, Step::To(Node::B12), Step::Stop(503)),
        (Node::B12, Step::To(Node::B11), Step::Stop(501)),
        (Node::B11, Step::Stop(414), Step::To(Node::B10)),
        (Node::B10, Step::To(Node::B9), Step::Stop(405)),
        (Node::B9, Step::To(Node::B8), Step::Stop(400)),
        (Node::B8, Step::To(Node::B7), Step::Stop(401)),
        (Node::B7, Step::Stop(403), Step::To(Node::B6)),
        (Node::B6, Step::To(Node::B5), Step::Stop(501)),
        (Node::B5, Step::To(Node::B4), Step::Stop(415)),
        (Node::B4, Step::To(Node::B3), Step::Stop(413)),
        (Node::B3, Step::Stop(200), Step::To(Node::C3)),
        (Node::C3, Step::To(Node::C4), Step::To(Node::D4)),
        (Node::C4, Step::To(Node::D4), Step::Stop(406)),
        (Node::D4, Step::To(Node::D5), Step::To(Node::E5)),
        (Node::D5, Step::To(Node::E5), Step::Stop(406)),
        (Node::E5, Step::To(Node::E6), Step::To(Node::F6)),
        (Node::E6, Step::To(Node::F6), Step::Stop(406)),
        (Node::F6, Step::To(Node::F7), Step::To(Node::G7)),
        (Node::F7, Step::To(Node::G7), Step::Stop(406)),
        (Node::G7, Step::To(Node::G8), Step::To(Node::H7)),
        (Node::G8, Step::To(Node::G9), Step::To(Node::H10)),
        (Node::G9, Step::To(Node::H10), Step::To(Node::G11)),
        (Node::G11, Step::To(Node::H10), Step::Stop(412)),
        (Node::H7, Step::Stop(412), Step::To(Node::I7)),
        (Node::H10, Step::To(Node::H11), Step::To(Node::I12)),
        (Node::H11, Step::To(Node::H12), Step::To(Node::I12)),
        (Node::H12, Step::Stop(412), Step::To(Node::I12)),
        (Node::I4, Step::Stop(301), Step::To(Node::P3)),
        (Node::I7, Step::To(Node::I4), Step::To(Node::K7)),
        (Node::I12, Step::To(Node::I13), Step::To(Node::L13)),
        (Node::I13, Step::To(Node::J18), Step::To(Node::K13)),
        (Node::J18, Step::Stop(304), Step::Stop(412)),
        (Node::K5, Step::Stop(301), Step::To(Node::L5)),
        (Node::K7, Step::To(Node::K5), Step::To(Node::L7)),
        (Node::K13, Step::To(Node::J18), Step::To(Node::L13)),
        (Node::L5, Step::Stop(307), Step::To(Node::M5)),
        (Node::L7, Step::To(Node::M7), Step::Stop(404)),
        (Node::L13, Step::To(Node::L14), Step::To(Node::M16)),
        (Node::L14, Step::To(Node::L15), Step::To(Node::M16)),
        (Node::L15, Step::To(Node::M16), Step::To(Node::L17)),
        (Node::L17, Step::To(Node::M16), Step::Stop(304)),
        (Node::M5, Step::To(Node::N5), Step::Stop(410)),
        (Node::M7, Step::To(Node::N11), Step::Stop(404)),
        (Node::M16, Step::To(Node::M20), Step::To(Node::N16)),
        (Node::M20, Step::To(Node::O20), Step::Stop(202)),
        (Node::N5, Step::To(Node::N11), Step::Stop(410)),
        (Node::N11, Step::Stop(201), Step::To(Node::O20)),
        (Node::N16, Step::To(Node::N11), Step::To(Node::O16)),
        (Node::O14, Step::Stop(409), Step::To(Node::P11)),
        (Node::O16, Step::To(Node::O14), Step::To(Node::O18)),
        (Node::O18, Step::Stop(300), Step::Stop(200)),
        (Node::O20, Step::To(Node::O18), Step::Stop(204)),
        (Node::P3, Step::Stop(409), Step::To(Node::P11)),
        (Node::P11, Step::Stop(201), Step::To(Node::O20)),
    ];
    for (node, yes, no) in table {
        assert_eq!(take_branch(node, true), yes);
        assert_eq!(take_branch(node, false), no);
    }
}

#[test]
fn no_walk_through_the_diagram_comes_back() {
    let all = [
        Node::B13, Node::B12, Node::B11, Node::B10, Node::B9, Node::B8, Node::B7, Node::B6,
        Node::B5, Node::B4, Node::B3, Node::C3, Node::C4, Node::D4, Node::D5, Node::E5, Node::E6,
        Node::F6, Node::F7, Node::G7, Node::G8, Node::G9, Node::G11, Node::H7, Node::H10,
        Node::H11, Node::H12, Node::I4, Node::I7, Node::I12, Node::I13, Node::J18, Node::K5,
        Node::K7, Node::K13, Node::L5, Node::L7, Node::L13, Node::L14, Node::L15, Node::L17,
        Node::M5, Node::M7, Node::M16, Node::M20, Node::N5, Node::N11, Node::N16, Node::O14,
        Node::O16, Node::O18, Node::O20, Node::P3, Node::P11,
    ];
    // from every node, follow every edge as far as it goes: no walk meets its start again
    for start in all {
        let mut front = vec![start];
        let mut steps = 0;
        while !front.is_empty() {
            let mut next: Vec<Node> = Vec::new();
            for node in &front {
                for answer in [true, false] {
                    if let Step::To(target) = take_branch(*node, answer) {
                        assert_ne!(target, start);
                        if !next.contains(&target) {
                            next.push(target);
                        }
                    }
                }
            }
            front = next;
            steps += 1;
            assert!(steps <= 54);
        }
    }
}

#[test]
fn steps_become_outcomes() {
    assert!(matches!(lift::<u8, u8>(Step::To(Node::G7)), Outcomes::Next(Node::G7)));
    assert!(matches!(lift::<u8, u8>(Step::Stop(404)), Outcomes::Halt(404)));
    assert!(matches!(turn::<u8, u8>(Node::B13, true), Outcomes::Next(Node::B12)));
    assert!(matches!(turn::<u8, u8>(Node::B13, false), Outcomes::Halt(503)));
    assert!(matches!(turn::<u8, u8>(Node::J18, false), Outcomes::Halt(412)));
}

#[test]
fn checksums_pass_unless_they_fail() {
    assert!(checksum_passes(None));
    assert!(checksum_passes(Some(true)));
    assert!(!checksum_passes(Some(false)));
}

#[test]
fn methods_without_a_body() {
    assert!(is_bodiless(&Method::Get));
    assert!(is_bodiless(&Method::Head));
    assert!(is_bodiless(&Method::Options));
    assert!(!is_bodiless(&Method::Post));
    assert!(!is_bodiless(&Method::Put));
    assert!(!is_bodiless(&Method::Delete));
    assert!(!is_bodiless(&Method::Extension("GET".to_string())));
}

#[test]
fn length_headers_are_checked() {
    assert_eq!(check_length(&Method::Get, None, false), LengthCheck::Pass);
    assert_eq!(check_length(&Method::Get, None, true), LengthCheck::Pass);
    assert_eq!(check_length(&Method::Get, Some("0"), false), LengthCheck::Refuse);
    assert_eq!(check_length(&Method::Options, Some("12"), false), LengthCheck::Refuse);
    assert_eq!(check_length(&Method::Post, Some("12"), true), LengthCheck::Refuse);
    assert_eq!(check_length(&Method::Post, Some("12"), false), LengthCheck::Ask(12));
    assert_eq!(check_length(&Method::Put, Some("0"), false), LengthCheck::Ask(0));
    assert_eq!(check_length(&Method::Post, Some("1 2"), false), LengthCheck::Refuse);
    assert_eq!(check_length(&Method::Post, None, true), LengthCheck::Pass);
    assert_eq!(check_length(&Method::Post, None, false), LengthCheck::Refuse);
    assert_eq!(check_length(&Method::Delete, None, false), LengthCheck::Refuse);
}

#[test]
fn the_length_check_decides_the_step() {
    assert_eq!(take_length_step(LengthCheck::Pass, false), Step::To(Node::B3));
    assert_eq!(take_length_step(LengthCheck::Refuse, true), Step::Stop(400));
    assert_eq!(take_length_step(LengthCheck::Ask(5), true), Step::To(Node::B3));
    assert_eq!(take_length_step(LengthCheck::Ask(5), false), Step::Stop(413));
}

#[test]
fn negotiation_failures_become_halts() {
    assert_eq!(take_negotiated(Node::C4, None), Step::To(Node::D4));
    assert_eq!(take_negotiated(Node::C4, Some(Error::NotProvided)), Step::Stop(406));
    assert_eq!(take_negotiated(Node::C4, Some(Error::ParseError)), Step::Stop(400));
    assert_eq!(take_negotiated(Node::F7, None), Step::To(Node::G7));
    assert_eq!(take_negotiated(Node::E6, Some(Error::NotProvided)), Step::Stop(406));
}

#[test]
fn a_representation_is_settled_on() {
    let offer = provided(&["text/html", "application/json"]);
    assert_eq!(choose_representation(&offer, None), Ok(0));
    assert_eq!(choose_representation(&offer, Some("application/json")), Ok(1));
    assert_eq!(choose_representation(&offer, Some("*/*;q=0.1, application/*;q=0.2")), Ok(1));
    assert_eq!(choose_representation(&offer, Some("image/png")), Err(Step::Stop(406)));
    assert_eq!(choose_representation(&offer, Some("image")), Err(Step::Stop(400)));
    let nothing = provided(&[]);
    assert_eq!(choose_representation(&nothing, None), Err(Step::Stop(500)));
    assert_eq!(choose_representation(&nothing, Some("*/*")), Err(Step::Stop(500)));
    assert_eq!(choose_representation(&nothing, Some("oops")), Err(Step::Stop(500)));
}

#[test]
fn a_name_is_settled_on() {
    let offer = names(&["en", "de"]);
    assert_eq!(choose_name(Node::D5, &offer, None), Ok(None));
    assert_eq!(choose_name(Node::D5, &offer, Some("de")), Ok(Some(1)));
    assert_eq!(choose_name(Node::D5, &offer, Some("fr, *;q=0.1")), Ok(Some(0)));
    assert_eq!(choose_name(Node::D5, &offer, Some("fr")), Err(Step::Stop(406)));
    assert_eq!(choose_name(Node::D5, &offer, Some("fr;q=")), Err(Step::Stop(400)));
    assert_eq!(choose_name(Node::E6, &Vec::new(), None), Ok(None));
    assert_eq!(choose_name(Node::E6, &Vec::new(), Some("utf-8")), Err(Step::Stop(406)));
}

#[test]
fn content_headers_are_picked_by_their_prefix() {
    let headers = vec![
        field("Host", "example.org"),
        field("Content-Type", "text/plain"),
        field("content-length", "3"),
        field("Accept", "*/*"),
        field("CONTENT-MD5", "abc"),
        field("Content", "no"),
        field("X-Content-Type", "no"),
    ];
    let picked = content_headers(&headers);
    let names: Vec<&str> = picked.iter().map(|h| h.name.as_str()).collect();
    assert_eq!(names, vec!["Content-Type", "content-length", "CONTENT-MD5"]);
    assert_eq!(picked[1].value, "3");
    assert!(has_prefix("Content-Type", "content-"));
    assert!(has_prefix("content-", "Content-"));
    assert!(!has_prefix("Conten", "Content-"));
    assert!(has_prefix("anything", ""));
}

#[test]
fn handlers_are_found_by_their_media_type() {
    let offer = provided(&["text/html", "application/json", "text/html"]);
    assert_eq!(find_provided(&offer, &media("text/html")), Some(0));
    assert_eq!(find_provided(&offer, &media("application/json")), Some(1));
    assert_eq!(find_provided(&offer, &media("text/plain")), None);
    assert_eq!(find_provided(&offer, &media("text/*")), None);
    let taken = accepted(&["application/json", "application/xml"]);
    assert_eq!(find_accepted(&taken, &media("application/xml")), Some(1));
    assert_eq!(find_accepted(&taken, &media("application/json; charset=utf-8")), Some(0));
    assert_eq!(find_accepted(&taken, &media("text/plain")), None);
    assert_eq!(find_accepted(&accepted(&[]), &media("text/plain")), None);
    let types: Vec<String> = offered_types(&offer).iter().map(|m| m.essence()).collect();
    assert_eq!(types, vec!["text/html", "application/json", "text/html"]);
}

#[test]
fn a_post_ends_as_the_answers_say() {
    assert!(matches!(post_outcome::<u8, u8>(true, false, false), Outcomes::Halt(500)));
    assert!(matches!(post_outcome::<u8, u8>(true, false, true), Outcomes::Halt(500)));
    assert!(matches!(post_outcome::<u8, u8>(true, true, true), Outcomes::Done));
    assert!(matches!(post_outcome::<u8, u8>(true, true, false), Outcomes::Next(Node::O20)));
    assert!(matches!(post_outcome::<u8, u8>(false, false, true), Outcomes::Halt(201)));
    assert!(matches!(post_outcome::<u8, u8>(false, false, false), Outcomes::Next(Node::O20)));
}

#[test]
fn a_put_ends_as_the_answers_say() {
    for node in [Node::O14, Node::P3] {
        assert!(matches!(put_outcome::<u8, u8>(node, true, false), Outcomes::Halt(409)));
        assert!(matches!(put_outcome::<u8, u8>(node, true, true), Outcomes::Halt(409)));
        assert!(matches!(put_outcome::<u8, u8>(node, false, true), Outcomes::Next(Node::P11)));
        assert!(matches!(put_outcome::<u8, u8>(node, false, false), Outcomes::Halt(500)));
    }
}

#[test]
fn the_halts_of_the_diagram_go_by_their_names() {
    let halts = [
        (Node::B13, false, SERVICE_UNAVAILABLE),
        (Node::B12, false, NOT_IMPLEMENTED),
        (Node::B11, true, URI_TOO_LONG),
        (Node::B10, false, METHOD_NOT_ALLOWED),
        (Node::B9, false, BAD_REQUEST),
        (Node::B8, false, UNAUTHORIZED),
        (Node::B7, true, FORBIDDEN),
        (Node::B5, false, UNSUPPORTED_MEDIA_TYPE),
        (Node::B4, false, PAYLOAD_TOO_LARGE),
        (Node::B3, true, OK),
        (Node::C4, false, NOT_ACCEPTABLE),
        (Node::G11, false, PRECONDITION_FAILED),
        (Node::J18, true, NOT_MODIFIED),
        (Node::K5, true, MOVED_PERMANENTLY),
        (Node::L5, true, TEMPORARY_REDIRECT),
        (Node::L7, false, NOT_FOUND),
        (Node::M5, false, GONE),
        (Node::M20, false, ACCEPTED),
        (Node::N11, true, CREATED),
        (Node::O14, true, CONFLICT),
        (Node::O18, true, MULTIPLE_CHOICES),
        (Node::O20, false, NO_CONTENT),
    ];
    for (node, answer, status) in halts {
        assert_eq!(take_branch(node, answer), Step::Stop(status));
    }
    assert_eq!(choose_representation(&provided(&[]), None), Err(Step::Stop(INTERNAL_SERVER_ERROR)));
}
