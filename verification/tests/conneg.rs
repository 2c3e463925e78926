use gerust::conneg::{
    choose_mediatype, choose_token, mime_type_provided, parse_accept, parse_entry, parse_tokens,
    parse_weight, Error,
};
use gerust::media::MediaType;

fn media(text: &str) -> MediaType {
    MediaType::parse(text).unwrap()
}

fn chars(text: &str) -> Vec<char> {
    text.chars().collect()
}

fn names(list: &[&str]) -> Vec<String> {
    list.iter().map(|s| s.to_string()).collect()
}

fn chosen(provided: &[MediaType], header: &str) -> Result<String, Error> {
    match choose_mediatype(provided, header) {
        Ok(m) => Ok(m.essence()),
        Err(e) => Err(e),
    }
}

#[test]
fn accept_type_parsing() {
    let header = "text/html,application/xhtml+xml,application/xml;q=0.9,*/*;q=0.8";
    let xml = media("application/xml");

    let provided = [media("text/html")];
    let res = choose_mediatype(&provided, header);
    assert!(res.unwrap().same(&media("text/html")));

    let provided = [xml.duplicate()];
    let res = choose_mediatype(&provided, header);
    assert!(res.unwrap().same(&xml));

    let provided = [media("text/html"), xml.duplicate()];
    let res = choose_mediatype(&provided, header);
    assert!(res.unwrap().same(&media("text/html")));

    let provided = [media("text/plain"), media("image/png")];
    let res = choose_mediatype(&provided, header);
    assert!(res.unwrap().same(&media("text/plain")));
}

#[test]
fn accept_headers_priority_rules() {
    let header = "text/html,text/*,*/*";
    let provided = [media("text/plain")];
    let res = choose_mediatype(&provided, header);
    assert!(res.unwrap().same(&media("text/plain")));

    let provided = [media("text/plain"), media("application/json")];
    let res = choose_mediatype(&provided, header);
    assert!(res.unwrap().same(&media("text/plain")));
}

#[test]
fn nothing_acceptable_is_not_provided() {
    let provided = [media("text/html")];
    assert_eq!(chosen(&provided, "application/json"), Err(Error::NotProvided));
    assert_eq!(chosen(&[], "*/*"), Err(Error::NotProvided));
}

#[test]
fn empty_accept_is_a_parse_error() {
    let provided = [media("text/html")];
    assert_eq!(chosen(&provided, ""), Err(Error::ParseError));
    assert_eq!(chosen(&provided, "   "), Err(Error::ParseError));
    assert_eq!(chosen(&provided, "text/html,"), Err(Error::ParseError));
    assert_eq!(chosen(&provided, ",text/html"), Err(Error::ParseError));
}

#[test]
fn malformed_ranges_are_parse_errors() {
    let provided = [media("text/html")];
    assert_eq!(chosen(&provided, "text"), Err(Error::ParseError));
    assert_eq!(chosen(&provided, "text/html;level=1"), Err(Error::ParseError));
    assert_eq!(chosen(&provided, "text/html;q=high"), Err(Error::ParseError));
    assert_eq!(chosen(&provided, "text/html;q=1e0"), Err(Error::ParseError));
    assert_eq!(chosen(&provided, "text/html;q=-0.5"), Err(Error::ParseError));
    assert_eq!(chosen(&provided, "text/html;q=0.5;x"), Err(Error::ParseError));
    assert_eq!(chosen(&provided, "text/html;q=0.5 x"), Err(Error::ParseError));
    assert_eq!(chosen(&provided, "text/html;q="), Err(Error::ParseError));
    assert_eq!(chosen(&provided, "text/html;"), Err(Error::ParseError));
    assert_eq!(chosen(&provided, "te xt/html"), Err(Error::ParseError));
    // a later element that is malformed spoils a header that has a match already
    assert_eq!(chosen(&provided, "text/html, nonsense"), Err(Error::ParseError));
}

#[test]
fn wildcards_match_with_lower_specificity() {
    let provided = [media("image/png"), media("text/plain"), media("text/html")];
    assert_eq!(chosen(&provided, "*/*"), Ok("image/png".to_string()));
    assert_eq!(chosen(&provided, "text/*"), Ok("text/plain".to_string()));
    assert_eq!(chosen(&provided, "text/html"), Ok("text/html".to_string()));
    // at equal weight the exact range wins over the wildcards, wherever it stands
    assert_eq!(chosen(&provided, "*/*, text/*, text/html"), Ok("text/html".to_string()));
    assert_eq!(chosen(&provided, "*/*, text/*"), Ok("text/plain".to_string()));
}

#[test]
fn highest_weight_wins() {
    let provided = [media("text/html"), media("application/json")];
    assert_eq!(
        chosen(&provided, "text/html;q=0.5, application/json;q=0.9"),
        Ok("application/json".to_string())
    );
    assert_eq!(
        chosen(&provided, "text/html;q=0.9, application/json;q=0.5"),
        Ok("text/html".to_string())
    );
    // a wildcard of higher weight beats an exact range of lower weight
    assert_eq!(chosen(&provided, "application/json;q=0.3, */*;q=0.4"), Ok("text/html".to_string()));
    // weights that differ in the third decimal only
    assert_eq!(
        chosen(&provided, "text/html;q=0.998, application/json;q=0.999"),
        Ok("application/json".to_string())
    );
    // weights above 1 rank above a range without a weight
    assert_eq!(
        chosen(&provided, "text/html, application/json;q=1.5"),
        Ok("application/json".to_string())
    );
    // weights that differ in the ninth decimal only
    assert_eq!(
        chosen(&provided, "text/html;q=0.333333333, application/json;q=0.333333334"),
        Ok("application/json".to_string())
    );
}

#[test]
fn ties_go_to_the_first_range() {
    let provided = [media("application/json"), media("text/html")];
    assert_eq!(chosen(&provided, "text/html, application/json"), Ok("text/html".to_string()));
    assert_eq!(chosen(&provided, "application/json, text/html"), Ok("application/json".to_string()));
    assert_eq!(
        chosen(&provided, "text/html;q=0.7, application/json;q=0.7"),
        Ok("text/html".to_string())
    );
}

#[test]
fn weight_zero_is_not_acceptable() {
    let provided = [media("text/html")];
    assert_eq!(chosen(&provided, "text/html;q=0"), Err(Error::NotProvided));
    assert_eq!(chosen(&provided, "text/html;q=0.000"), Err(Error::NotProvided));
    assert_eq!(chosen(&provided, "*/*;q=0.0"), Err(Error::NotProvided));
    let provided = [media("text/html"), media("text/plain")];
    assert_eq!(chosen(&provided, "text/html;q=0, text/plain;q=0.001"), Ok("text/plain".to_string()));
}

#[test]
fn duplicate_ranges_change_nothing() {
    let provided = [media("text/plain"), media("text/html")];
    assert_eq!(chosen(&provided, "text/html, text/html"), Ok("text/html".to_string()));
    assert_eq!(chosen(&provided, "text/html;q=0.2, text/html;q=0.8, text/plain;q=0.5"),
        Ok("text/html".to_string()));
}

#[test]
fn blanks_around_ranges_and_weights_are_skipped() {
    let provided = [media("text/html"), media("application/xml")];
    assert_eq!(chosen(&provided, " text/html ; q=0.5 ,\tapplication/xml ;q=0.6 "),
        Ok("application/xml".to_string()));
}

#[test]
fn a_browser_header_selects_html() {
    let provided = [media("text/html"), media("application/xml")];
    assert_eq!(
        chosen(&provided, "text/html,application/xml;q=0.9,*/*;q=0.8"),
        Ok("text/html".to_string())
    );
}

#[test]
fn negotiation_is_repeatable() {
    let provided = [media("text/html"), media("application/xml"), media("image/png")];
    for header in ["image/*;q=0.3, */*;q=0.2", "nonsense", "application/json", "*/*"] {
        assert_eq!(chosen(&provided, header), chosen(&provided, header));
    }
}

#[test]
fn weights_are_read_exactly() {
    const ONE: u64 = 1_000_000_000;
    assert_eq!(parse_weight(&chars("0")), Some(0));
    assert_eq!(parse_weight(&chars("1")), Some(ONE));
    assert_eq!(parse_weight(&chars("0.")), Some(0));
    assert_eq!(parse_weight(&chars("1.")), Some(ONE));
    assert_eq!(parse_weight(&chars(".5")), Some(ONE / 2));
    assert_eq!(parse_weight(&chars("0.8")), Some(800_000_000));
    assert_eq!(parse_weight(&chars("0.25")), Some(250_000_000));
    assert_eq!(parse_weight(&chars("0.123")), Some(123_000_000));
    assert_eq!(parse_weight(&chars("0.007")), Some(7_000_000));
    assert_eq!(parse_weight(&chars("0.3333")), Some(333_300_000));
    assert_eq!(parse_weight(&chars("0.000000001")), Some(1));
    assert_eq!(parse_weight(&chars("0.999999999")), Some(999_999_999));
    assert_eq!(parse_weight(&chars("1.000")), Some(ONE));
    assert_eq!(parse_weight(&chars("1.5")), Some(1_500_000_000));
    assert_eq!(parse_weight(&chars("007")), Some(7 * ONE));
    assert_eq!(parse_weight(&chars("999999999.999999999")), Some(999_999_999_999_999_999));
    assert_eq!(parse_weight(&chars("")), None);
    assert_eq!(parse_weight(&chars(".")), None);
    assert_eq!(parse_weight(&chars("1.2.3")), None);
    assert_eq!(parse_weight(&chars("0.0000000001")), None);
    assert_eq!(parse_weight(&chars("1000000000")), None);
    assert_eq!(parse_weight(&chars("0,5")), None);
    assert_eq!(parse_weight(&chars("0.5a")), None);
    assert_eq!(parse_weight(&chars("-1")), None);
    assert_eq!(parse_weight(&chars("+1")), None);
    assert_eq!(parse_weight(&chars("1e-3")), None);
    assert_eq!(parse_weight(&chars("inf")), None);
    assert_eq!(parse_weight(&chars("NaN")), None);
}

#[test]
fn entries_are_taken_apart() {
    assert_eq!(parse_entry(&chars("text/html")), Some((0, 9, 1_000_000_000)));
    assert_eq!(parse_entry(&chars("  text/html  ")), Some((2, 11, 1_000_000_000)));
    assert_eq!(parse_entry(&chars("text/html;q=0.9")), Some((0, 9, 900_000_000)));
    assert_eq!(parse_entry(&chars(" a/b ; q=0.25  ")), Some((1, 4, 250_000_000)));
    assert_eq!(parse_entry(&chars("")), None);
    assert_eq!(parse_entry(&chars(";q=1")), None);
    assert_eq!(parse_entry(&chars("a/b;Q=1")), None);
    assert_eq!(parse_entry(&chars("a/b;q =1")), None);
}

#[test]
fn accept_headers_are_read_in_order() {
    let ranges = parse_accept("text/html, */*;q=0.1").unwrap();
    assert_eq!(ranges.len(), 2);
    assert_eq!(ranges[0].media.essence(), "text/html");
    assert_eq!(ranges[0].weight, 1_000_000_000);
    assert_eq!(ranges[1].media.essence(), "*/*");
    assert_eq!(ranges[1].weight, 100_000_000);
    assert_eq!(parse_accept("text/html, oops").err(), Some(Error::ParseError));
}

#[test]
fn the_best_offer_is_the_closest_and_first() {
    let provided = [media("text/plain"), media("text/html"), media("text/html")];
    assert_eq!(mime_type_provided(&media("text/html"), &provided), Some((1, 0)));
    assert_eq!(mime_type_provided(&media("text/*"), &provided), Some((0, 1)));
    assert_eq!(mime_type_provided(&media("*/*"), &provided), Some((0, 2)));
    assert_eq!(mime_type_provided(&media("image/png"), &provided), None);
    assert_eq!(mime_type_provided(&media("image/*"), &provided), None);
    // an offer that is itself a range fits the same range exactly
    let provided = [media("text/plain"), media("text/*")];
    assert_eq!(mime_type_provided(&media("text/*"), &provided), Some((1, 0)));
}

#[test]
fn suffixes_take_part_in_the_match() {
    let provided = [media("application/xhtml+xml"), media("application/xhtml")];
    assert_eq!(chosen(&provided, "application/xhtml"), Ok("application/xhtml".to_string()));
    assert_eq!(chosen(&provided, "application/xhtml+xml"), Ok("application/xhtml+xml".to_string()));
}

#[test]
fn names_are_negotiated_like_media_types() {
    let provided = names(&["utf-8", "iso-8859-1"]);
    assert_eq!(choose_token(&provided, "iso-8859-1"), Ok(1));
    assert_eq!(choose_token(&provided, "ISO-8859-1, utf-8;q=0.5"), Ok(1));
    assert_eq!(choose_token(&provided, "UTF-8"), Ok(0));
    assert_eq!(choose_token(&provided, "*"), Ok(0));
    assert_eq!(choose_token(&provided, "*;q=0.1, iso-8859-1;q=0.2"), Ok(1));
    assert_eq!(choose_token(&provided, "*, iso-8859-1"), Ok(1));
    assert_eq!(choose_token(&provided, "utf-16"), Err(Error::NotProvided));
    assert_eq!(choose_token(&provided, "utf-8;q=0"), Err(Error::NotProvided));
    assert_eq!(choose_token(&provided, "utf-8;q=7"), Ok(0));
    assert_eq!(choose_token(&provided, "utf-8;q=seven"), Err(Error::ParseError));
    assert_eq!(choose_token(&provided, ""), Err(Error::ParseError));
    assert_eq!(choose_token(&Vec::new(), "utf-8"), Err(Error::NotProvided));
}

#[test]
fn headers_of_names_are_read_in_order() {
    let ranges = parse_tokens("en-GB, en;q=0.8 , *;q=0.1").unwrap();
    assert_eq!(ranges.len(), 3);
    assert_eq!(ranges[0].token, "en-GB");
    assert_eq!(ranges[0].weight, 1_000_000_000);
    assert_eq!(ranges[1].token, "en");
    assert_eq!(ranges[1].weight, 800_000_000);
    assert_eq!(ranges[2].token, "*");
    assert_eq!(ranges[2].weight, 100_000_000);
    assert_eq!(parse_tokens("en,,de").err(), Some(Error::ParseError));
}
