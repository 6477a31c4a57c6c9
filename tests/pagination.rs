use std::collections::HashMap;

use qa_catalogue::error::CatalogueError;
use qa_catalogue::pagination::{extract_pagination, Pagination};

fn params(pairs: &[(&str, &str)]) -> HashMap<String, String> {
    pairs.iter().map(|(k, v)| (k.to_string(), v.to_string())).collect()
}

#[test]
fn both_parameters_are_parsed() {
    let p = extract_pagination(params(&[("limit", "3"), ("offset", "1")])).unwrap();
    assert_eq!(p, Pagination { limit: Some(3), offset: 1 });
}

#[test]
fn signs_and_leading_zeros_are_accepted() {
    let p = extract_pagination(params(&[("limit", "+07"), ("offset", "-0")])).unwrap();
    assert_eq!(p, Pagination { limit: Some(7), offset: 0 });
}

#[test]
fn largest_values_are_accepted() {
    let p = extract_pagination(params(&[("limit", "2147483647"), ("offset", "2147483647")])).unwrap();
    assert_eq!(p, Pagination { limit: Some(i32::MAX), offset: i32::MAX });
}

#[test]
fn absent_parameters_mean_everything() {
    let whole = Pagination { limit: None, offset: 0 };
    assert_eq!(extract_pagination(params(&[])).unwrap(), whole);
    assert_eq!(extract_pagination(params(&[("limit", "2")])).unwrap(), whole);
    assert_eq!(extract_pagination(params(&[("offset", "2")])).unwrap(), whole);
    assert_eq!(extract_pagination(params(&[("other", "x")])).unwrap(), whole);
    assert_eq!(Pagination::default(), whole);
}

#[test]
fn malformed_parameter_is_a_parse_error() {
    for (l, o) in [("abc", "0"), ("1", "x"), ("", "0"), ("1.5", "0"), ("+", "0"), (" 1", "0"), ("2147483648", "0")] {
        let r = extract_pagination(params(&[("limit", l), ("offset", o)]));
        assert!(matches!(r, Err(CatalogueError::ParseInt(_))), "{:?} {:?}", l, o);
    }
}

#[test]
fn negative_parameter_is_refused() {
    let r = extract_pagination(params(&[("limit", "-1"), ("offset", "0")]));
    assert!(matches!(r, Err(CatalogueError::NegativeParameter)));
    let r = extract_pagination(params(&[("limit", "1"), ("offset", "-5")]));
    assert!(matches!(r, Err(CatalogueError::NegativeParameter)));
}

#[test]
fn limit_is_checked_before_offset() {
    let r = extract_pagination(params(&[("limit", "-1"), ("offset", "zz")]));
    assert!(matches!(r, Err(CatalogueError::NegativeParameter)));
    let r = extract_pagination(params(&[("limit", "zz"), ("offset", "-1")]));
    assert!(matches!(r, Err(CatalogueError::ParseInt(_))));
}

#[test]
fn error_messages() {
    assert_eq!(CatalogueError::QuestionNotFound.message(), "Question not found");
    assert_eq!(CatalogueError::NegativeParameter.message(), "Parameter must not be negative");
    assert_eq!(CatalogueError::Persistence("disk full".to_string()).message(), "disk full");
    let e = "abc".parse::<i32>().unwrap_err();
    assert_eq!(
        CatalogueError::ParseInt(e).message(),
        "Cannot parse parameter: invalid digit found in string"
    );
}
