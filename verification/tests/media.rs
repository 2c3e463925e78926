use gerust::media::MediaType;

#[test]
fn media_types_are_read_by_their_names() {
    let m = MediaType::parse("text/html").unwrap();
    assert_eq!(m.type_(), "text");
    assert_eq!(m.subtype(), "html");
    assert_eq!(m.suffix(), None);
    assert_eq!(m.essence(), "text/html");
}

#[test]
fn names_come_back_in_lower_case() {
    let m = MediaType::parse("Text/HTML").unwrap();
    assert_eq!(m.type_(), "text");
    assert_eq!(m.subtype(), "html");
    assert!(m.same(&MediaType::parse("text/html").unwrap()));
}

#[test]
fn a_suffix_is_told_from_the_subtype() {
    let m = MediaType::parse("image/svg+xml").unwrap();
    assert_eq!(m.type_(), "image");
    assert_eq!(m.subtype(), "svg");
    assert_eq!(m.suffix(), Some("xml"));
    assert_eq!(m.essence(), "image/svg+xml");
    assert!(!m.same(&MediaType::parse("image/svg").unwrap()));
}

#[test]
fn parameters_are_not_kept() {
    let m = MediaType::parse("application/json; charset=utf-8").unwrap();
    assert_eq!(m.essence(), "application/json");
    assert!(m.same(&MediaType::parse("application/json").unwrap()));
}

#[test]
fn ranges_are_recognised() {
    let any = MediaType::parse("*/*").unwrap();
    assert!(any.any_type());
    assert!(any.any_subtype());
    let text = MediaType::parse("text/*").unwrap();
    assert!(!text.any_type());
    assert!(text.any_subtype());
    assert!(text.same_type(&MediaType::parse("text/plain").unwrap()));
    assert!(!text.same_type(&any));
    let html = MediaType::parse("text/html").unwrap();
    assert!(!html.any_type());
    assert!(!html.any_subtype());
}

#[test]
fn what_is_no_media_type_is_refused() {
    assert!(MediaType::parse("").is_none());
    assert!(MediaType::parse("text").is_none());
    assert!(MediaType::parse("/html").is_none());
    assert!(MediaType::parse("text/html ").is_none());
    assert!(MediaType::parse("text/ht ml").is_none());
    assert!(MediaType::parse("text/html; charset").is_none());
}

#[test]
fn a_copy_is_the_same_media_type() {
    let m = MediaType::parse("application/vnd.api+json").unwrap();
    let copy = m.duplicate();
    assert!(copy.same(&m));
    assert_eq!(copy.essence(), "application/vnd.api+json");
}
