use std::collections::HashMap;

use qa_catalogue::api::{
    add_question, add_reply, delete_question, delete_reply, get_question, get_questions,
    list_reply, read_reply, return_error, update_question, update_reply, Body, Reply,
};
use qa_catalogue::error::CatalogueError;
use qa_catalogue::question::{NewQuestion, Question};
use qa_catalogue::store::Store;

fn payload(title: &str, content: &str, tags: &[&str]) -> NewQuestion {
    NewQuestion {
        title: title.to_string(),
        content: content.to_string(),
        tags: Some(tags.iter().map(|s| s.to_string()).collect()),
    }
}

fn params(pairs: &[(&str, &str)]) -> HashMap<String, String> {
    pairs.iter().map(|(k, v)| (k.to_string(), v.to_string())).collect()
}

fn text(r: &Reply) -> &str {
    match &r.body {
        Body::Message(m) => m.as_str(),
        other => panic!("expected a message, got {:?}", other),
    }
}

fn list(r: &Reply) -> &Vec<Question> {
    match &r.body {
        Body::Questions(qs) => qs,
        other => panic!("expected a list, got {:?}", other),
    }
}

#[test]
fn post_then_get_returns_the_question() {
    let mut store = Store::new();
    let r = add_question(&mut store, payload("T", "C", &["x"]));
    assert_eq!(r.status, 201);
    assert_eq!(text(&r), "Question added");
    let r = get_question(&store, 1);
    assert_eq!(r.status, 200);
    match r.body {
        Body::Single(q) => assert_eq!(
            q,
            Question::new(1, "T".to_string(), "C".to_string(), Some(vec!["x".to_string()]))
        ),
        other => panic!("expected a question, got {:?}", other),
    }
}

#[test]
fn page_past_the_end_is_empty_list() {
    let mut store = Store::new();
    for t in ["a", "b", "c"] {
        add_question(&mut store, payload(t, t, &[]));
    }
    let r = get_questions(&store, params(&[("limit", "1"), ("offset", "5")]));
    assert_eq!(r.status, 200);
    assert!(list(&r).is_empty());
}

#[test]
fn unparsable_limit_is_range_not_satisfiable() {
    let store = Store::new();
    let r = get_questions(&store, params(&[("limit", "abc"), ("offset", "0")]));
    assert_eq!(r.status, 416);
    assert_eq!(text(&r), "Failed to parse range");
    let r = get_questions(&store, params(&[("limit", "1"), ("offset", "-1")]));
    assert_eq!(r.status, 416);
}

#[test]
fn delete_on_empty_store_is_not_found() {
    let mut store = Store::new();
    let r = delete_question(&mut store, 99);
    assert_eq!(r.status, 404);
    assert_eq!(text(&r), "Question not found");
}

#[test]
fn list_without_parameters_returns_everything() {
    let mut store = Store::new();
    for t in ["a", "b", "c"] {
        add_question(&mut store, payload(t, t, &[]));
    }
    let r = get_questions(&store, params(&[]));
    assert_eq!(r.status, 200);
    let titles: Vec<&str> = list(&r).iter().map(|q| q.title.as_str()).collect();
    assert_eq!(titles, vec!["a", "b", "c"]);
    let r = get_questions(&store, params(&[("limit", "2")]));
    assert_eq!(list(&r).len(), 3);
    let r = get_questions(&store, params(&[("limit", "2"), ("offset", "1")]));
    let titles: Vec<&str> = list(&r).iter().map(|q| q.title.as_str()).collect();
    assert_eq!(titles, vec!["b", "c"]);
}

#[test]
fn read_missing_question_is_not_found() {
    let store = Store::new();
    let r = get_question(&store, 1);
    assert_eq!(r.status, 404);
    assert_eq!(text(&r), "Question not found");
}

#[test]
fn update_existing_and_missing() {
    let mut store = Store::new();
    add_question(&mut store, payload("T", "C", &[]));
    let r = update_question(&mut store, 1, payload("U", "D", &["z"]));
    assert_eq!(r.status, 200);
    assert_eq!(text(&r), "Question updated");
    assert_eq!(store.get_question(&1).unwrap().title, "U");
    let r = update_question(&mut store, 2, payload("V", "E", &[]));
    assert_eq!(r.status, 404);
    assert_eq!(text(&r), "Question not found");
}

#[test]
fn delete_existing_question() {
    let mut store = Store::new();
    add_question(&mut store, payload("T", "C", &[]));
    let r = delete_question(&mut store, 1);
    assert_eq!(r.status, 200);
    assert_eq!(text(&r), "Question deleted");
    assert_eq!(get_question(&store, 1).status, 404);
}

#[test]
fn unknown_route_is_not_found() {
    let r = return_error();
    assert_eq!(r.status, 404);
    assert_eq!(text(&r), "Route not found");
}

#[test]
fn store_failures_become_bad_request_with_their_message() {
    let e = || CatalogueError::Persistence("connection reset".to_string());
    for r in [
        list_reply(Err(e())),
        add_reply::<()>(Err(e())),
        read_reply(Err(e())),
        update_reply(Err(e())),
        delete_reply(Err(e())),
    ] {
        assert_eq!(r.status, 400);
        assert_eq!(text(&r), "connection reset");
    }
}

#[test]
fn outcome_replies_for_success_and_absence() {
    assert_eq!(add_reply(Ok(())).status, 201);
    assert_eq!(update_reply(Ok(())).status, 200);
    assert_eq!(delete_reply(Err(CatalogueError::QuestionNotFound)).status, 404);
    assert_eq!(read_reply(Err(CatalogueError::QuestionNotFound)).status, 404);
    assert_eq!(list_reply(Err(CatalogueError::NegativeParameter)).status, 416);
    assert_eq!(list(&list_reply(Ok(Vec::new()))).len(), 0);
}
