use contest_scaffold::cli::{resolve_add_test, resolve_default, ContestInfo};
use contest_scaffold::contests::Contests;
use contest_scaffold::errors::ParseError;
use contest_scaffold::names::{extract_name_from_url, format_contest_name, parse_id3, ContestName};

#[test]
fn url_name_is_the_segment_after_the_contest_area() {
    assert_eq!(extract_name_from_url("https://atcoder.jp/contests/abc123"), Ok("abc123".to_string()));
    assert_eq!(
        extract_name_from_url("https://atcoder.jp/contests/abc123/tasks"),
        Ok("abc123".to_string())
    );
    assert_eq!(
        extract_name_from_url("http://atcoder.jp/contests/xyz_2020"),
        Ok("xyz_2020".to_string())
    );
}

#[test]
fn urls_outside_the_contest_area_are_rejected() {
    assert_eq!(extract_name_from_url("https://example.com/contests/abc123"), Err(()));
    assert_eq!(extract_name_from_url("https://atcoder.jp/contests/"), Err(()));
    assert_eq!(extract_name_from_url("https://atcoder.jp/"), Err(()));
    assert_eq!(extract_name_from_url("abc123"), Err(()));
    assert_eq!(extract_name_from_url(""), Err(()));
}

fn axc(name: &str) -> Option<(String, String)> {
    match format_contest_name(name) {
        ContestName::Axc(series, digits) => Some((series, digits)),
        ContestName::Other(_) => None,
    }
}

fn opaque(name: &str) -> Option<String> {
    match format_contest_name(name) {
        ContestName::Axc(_, _) => None,
        ContestName::Other(t) => Some(t),
    }
}

#[test]
fn canonical_names_split_into_series_and_id() {
    assert_eq!(axc("abc123"), Some(("abc".to_string(), "123".to_string())));
    assert_eq!(axc("ABC-123"), Some(("abc".to_string(), "123".to_string())));
    assert_eq!(axc("Abc_042"), Some(("abc".to_string(), "042".to_string())));
    assert_eq!(axc("agc001"), Some(("agc".to_string(), "001".to_string())));
    assert_eq!(axc("ARC999"), Some(("arc".to_string(), "999".to_string())));
}

#[test]
fn non_canonical_names_become_opaque() {
    assert_eq!(opaque("xyz123"), Some("xyz123".to_string()));
    assert_eq!(opaque("abc12"), Some("abc12".to_string()));
    assert_eq!(opaque("abc1234"), Some("abc1234".to_string()));
    assert_eq!(opaque("My_Contest"), Some("my-contest".to_string()));
    assert_eq!(opaque("abc--123"), Some("abc--123".to_string()));
    assert_eq!(opaque(""), Some("".to_string()));
}

#[test]
fn opaque_names_lowercase_beyond_ascii() {
    assert_eq!(opaque("Äx"), Some("äx".to_string()));
    assert_eq!(opaque("ÉTÉ_2020"), Some("été-2020".to_string()));
    assert_eq!(opaque("Контест"), Some("контест".to_string()));
}

#[test]
fn three_digit_ids_parse() {
    assert_eq!(parse_id3("000"), 0);
    assert_eq!(parse_id3("125"), 125);
    assert_eq!(parse_id3("999"), 999);
}

fn info(
    url: Option<&str>,
    name: Option<&str>,
    kind: Option<&str>,
) -> Result<ContestInfo, ParseError> {
    let url = url.map(|s| s.to_string());
    let name = name.map(|s| s.to_string());
    let kind = kind.map(|s| s.to_string());
    resolve_default(url.as_ref(), name.as_ref(), kind.as_ref())
}

#[test]
fn a_canonical_url_resolves_alone() {
    let r = info(Some("https://atcoder.jp/contests/abc100/tasks"), None, None).unwrap();
    assert_eq!(r.name, "abc-100");
    assert_eq!(r.kind, Contests::S_ABC);
    assert_eq!(r.url, Some("https://atcoder.jp/contests/abc100".to_string()));
}

#[test]
fn a_canonical_name_resolves_alone() {
    let r = info(None, Some("ABC300"), None).unwrap();
    assert_eq!(r.name, "abc-300");
    assert_eq!(r.kind, Contests::ABC);
    assert_eq!(r.url, None);
}

#[test]
fn an_explicit_kind_overrides_the_inferred_one() {
    let r = info(None, Some("abc100"), Some("ARC")).unwrap();
    assert_eq!(r.name, "abc-100");
    assert_eq!(r.kind, Contests::ARC);
}

#[test]
fn an_opaque_name_needs_an_explicit_kind() {
    let r = info(None, Some("Spring_Festival"), Some("agc")).unwrap();
    assert_eq!(r.name, "spring-festival");
    assert_eq!(r.kind, Contests::AGC);

    let missing = info(None, Some("Spring_Festival"), None);
    assert_eq!(missing, Err(ParseError::MissingContestKind));
    assert_eq!(missing.unwrap_err().value(), "name and kind is required !");
}

#[test]
fn the_name_argument_overrides_the_url_name() {
    let r = info(Some("https://atcoder.jp/contests/abc100"), Some("arc050"), None).unwrap();
    assert_eq!(r.name, "arc-050");
    assert_eq!(r.kind, Contests::ARC);
    assert_eq!(r.url, Some("https://atcoder.jp/contests/abc100".to_string()));
}

#[test]
fn a_bad_url_aborts_resolution() {
    let r = info(Some("https://example.com/abc100"), Some("abc100"), None);
    assert_eq!(r, Err(ParseError::InvalidUrl));
    assert_eq!(r.unwrap_err().value(), "Invalid URL !");
}

#[test]
fn a_bad_kind_token_aborts_resolution() {
    let r = info(None, Some("abc100"), Some("xyz"));
    assert_eq!(r, Err(ParseError::InvalidContestKind));
}

#[test]
fn nothing_given_is_missing() {
    assert_eq!(info(None, None, None), Err(ParseError::MissingContestKind));
}

fn add_test(url: Option<&str>, kind: Option<&str>) -> Result<(String, Vec<String>), ParseError> {
    let url = url.map(|s| s.to_string());
    let kind = kind.map(|s| s.to_string());
    resolve_add_test(url.as_ref(), kind.as_ref())
}

#[test]
fn add_test_resolves_a_canonical_url() {
    let (url, names) = add_test(Some("https://atcoder.jp/contests/abc120/tasks"), None).unwrap();
    assert_eq!(url, "https://atcoder.jp/contests/abc120");
    assert_eq!(names, vec!["a", "b", "c", "d"]);
}

#[test]
fn add_test_takes_the_explicit_kind() {
    let (url, names) = add_test(Some("https://atcoder.jp/contests/spring2020"), Some("abc")).unwrap();
    assert_eq!(url, "https://atcoder.jp/contests/spring2020");
    assert_eq!(names.len(), 8);
}

#[test]
fn add_test_without_a_kind_is_missing_args() {
    let r = add_test(Some("https://atcoder.jp/contests/spring2020"), None);
    assert_eq!(r, Err(ParseError::MissingArgs));
    assert_eq!(r.unwrap_err().value(), "invalid args");
}

#[test]
fn add_test_without_a_url_is_missing_args() {
    assert_eq!(add_test(None, Some("abc")), Err(ParseError::MissingArgs));
    assert_eq!(add_test(None, None), Err(ParseError::MissingArgs));
}

#[test]
fn add_test_rejects_a_bad_url() {
    assert_eq!(add_test(Some("ftp://atcoder.jp/contests/abc100"), None), Err(ParseError::InvalidUrl));
}
