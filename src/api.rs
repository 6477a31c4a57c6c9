use vstd::prelude::*;

use std::collections::HashMap;

use crate::error::CatalogueError;
use crate::pagination::{extract_pagination, pagination_of, param};
use crate::question::{NewQuestion, Question, QuestionView};
use crate::store::{has_question, window, Store};

verus! {

/// Status of a successful read, update or delete.
pub const STATUS_OK: u16 = 200;

/// Status of a successful creation.
pub const STATUS_CREATED: u16 = 201;

/// Status of a failure reported by the backing store.
pub const STATUS_BAD_REQUEST: u16 = 400;

/// Status of a request that names an absent question or no route.
pub const STATUS_NOT_FOUND: u16 = 404;

/// Status of a request whose pagination parameters are malformed.
pub const STATUS_RANGE_NOT_SATISFIABLE: u16 = 416;

/// What a response carries: a text, or questions to be sent as JSON.
#[derive(Debug)]
pub enum Body {
    Message(String),
    Questions(Vec<Question>),
    Single(Question),
}

/// A response: an HTTP status and a body.
#[derive(Debug)]
pub struct Reply {
    pub status: u16,
    pub body: Body,
}

/// The questions of a list, as mathematical values.
pub open spec fn questions_view(qs: Vec<Question>) -> Seq<QuestionView> {
    qs@.map_values(|q: Question| q@)
}

/// `r` has status `status` and the text `text` as its body.
pub open spec fn is_message(r: Reply, status: u16, text: Seq<char>) -> bool {
    r.status == status && (r.body matches Body::Message(m) && m@ == text)
}

/// `r` has status 200 and the questions `v` as its body.
pub open spec fn is_list(r: Reply, v: Seq<QuestionView>) -> bool {
    r.status == STATUS_OK && (r.body matches Body::Questions(b) && questions_view(b) == v)
}

/// `r` has status 200 and the question `v` as its body.
pub open spec fn is_single(r: Reply, v: QuestionView) -> bool {
    r.status == STATUS_OK && (r.body matches Body::Single(b) && b@ == v)
}

/// The reply to a failure that is neither a parameter error nor a missing
/// question: 400, with the failure's own message.
pub open spec fn is_failure_reply(r: Reply, e: CatalogueError) -> bool {
    &&& r.status == STATUS_BAD_REQUEST
    &&& r.body is Message
    &&& e matches CatalogueError::Persistence(m) ==> r.body->Message_0@ == m@
}

fn message(status: u16, text: &str) -> (r: Reply)
    ensures
        is_message(r, status, text@),
{
    Reply { status, body: Body::Message(String::from_str(text)) }
}

fn failure(e: &CatalogueError) -> (r: Reply)
    ensures
        is_failure_reply(r, *e),
{
    Reply { status: STATUS_BAD_REQUEST, body: Body::Message(e.message()) }
}

/// The reply to a list request: 200 with the questions, 416 when the
/// pagination parameters are malformed, 400 on any other failure.
pub fn list_reply(outcome: Result<Vec<Question>, CatalogueError>) -> (r: Reply)
    ensures
        outcome matches Ok(qs) ==> is_list(r, questions_view(qs)),
        outcome matches Err(e) ==> if e.is_parameter_error() {
            is_message(r, STATUS_RANGE_NOT_SATISFIABLE, "Failed to parse range"@)
        } else {
            is_failure_reply(r, e)
        },
{
    match outcome {
        Ok(qs) => Reply { status: STATUS_OK, body: Body::Questions(qs) },
        Err(e) => match e {
            CatalogueError::ParseInt(_) | CatalogueError::NegativeParameter => message(
                STATUS_RANGE_NOT_SATISFIABLE,
                "Failed to parse range",
            ),
            _ => failure(&e),
        },
    }
}

/// The reply to a create request: 201 on success, 400 on failure.
pub fn add_reply<T>(outcome: Result<T, CatalogueError>) -> (r: Reply)
    ensures
        outcome is Ok ==> is_message(r, STATUS_CREATED, "Question added"@),
        outcome matches Err(e) ==> is_failure_reply(r, e),
{
    match outcome {
        Ok(_) => message(STATUS_CREATED, "Question added"),
        Err(e) => failure(&e),
    }
}

/// The reply to a read request: 200 with the question, 404 when it is
/// absent, 400 on any other failure.
pub fn read_reply(outcome: Result<Question, CatalogueError>) -> (r: Reply)
    ensures
        outcome matches Ok(q) ==> is_single(r, q@),
        outcome matches Err(e) ==> if e is QuestionNotFound {
            is_message(r, STATUS_NOT_FOUND, "Question not found"@)
        } else {
            is_failure_reply(r, e)
        },
{
    match outcome {
        Ok(q) => Reply { status: STATUS_OK, body: Body::Single(q) },
        Err(CatalogueError::QuestionNotFound) => message(STATUS_NOT_FOUND, "Question not found"),
        Err(e) => failure(&e),
    }
}

/// The reply to an update request: 200 on success, 404 when the question is
/// absent, 400 on any other failure.
pub fn update_reply(outcome: Result<(), CatalogueError>) -> (r: Reply)
    ensures
        outcome is Ok ==> is_message(r, STATUS_OK, "Question updated"@),
        outcome matches Err(e) ==> if e is QuestionNotFound {
            is_message(r, STATUS_NOT_FOUND, "Question not found"@)
        } else {
            is_failure_reply(r, e)
        },
{
    match outcome {
        Ok(()) => message(STATUS_OK, "Question updated"),
        Err(CatalogueError::QuestionNotFound) => message(STATUS_NOT_FOUND, "Question not found"),
        Err(e) => failure(&e),
    }
}

/// The reply to a delete request: 200 on success, 404 when the question is
/// absent, 400 on any other failure.
pub fn delete_reply(outcome: Result<(), CatalogueError>) -> (r: Reply)
    ensures
        outcome is Ok ==> is_message(r, STATUS_OK, "Question deleted"@),
        outcome matches Err(e) ==> if e is QuestionNotFound {
            is_message(r, STATUS_NOT_FOUND, "Question not found"@)
        } else {
            is_failure_reply(r, e)
        },
{
    match outcome {
        Ok(()) => message(STATUS_OK, "Question deleted"),
        Err(CatalogueError::QuestionNotFound) => message(STATUS_NOT_FOUND, "Question not found"),
        Err(e) => failure(&e),
    }
}

/// The reply to a request for a route that does not exist.
pub fn return_error() -> (r: Reply)
    ensures
        is_message(r, STATUS_NOT_FOUND, "Route not found"@),
{
    message(STATUS_NOT_FOUND, "Route not found")
}

/// `GET /questions`: the window of questions that the query parameters select.
pub fn get_questions(store: &Store, params: HashMap<String, String>) -> (r: Reply)
    requires
        store.wf(),
    ensures
        match (param(params@, "limit"@), param(params@, "offset"@)) {
            (Some(l), Some(o)) => match pagination_of(l, o) {
                Ok((lv, ov)) => is_list(r, window(store@.questions, Some(lv), ov)),
                Err(_) => is_message(r, STATUS_RANGE_NOT_SATISFIABLE, "Failed to parse range"@),
            },
            _ => is_list(r, store@.questions),
        },
{
    match extract_pagination(params) {
        Ok(p) => {
            let qs = store.get_questions(p.limit, p.offset);
            proof {
                assert(store@.questions.subrange(0, store@.questions.len() as int)
                    =~= store@.questions);
            }
            list_reply(Ok(qs))
        },
        Err(e) => list_reply(Err(e)),
    }
}

/// `POST /questions`: stores the payload under a fresh identifier.
pub fn add_question(store: &mut Store, question: NewQuestion) -> (r: Reply)
    requires
        old(store).wf(),
    ensures
        final(store).wf(),
        old(store)@.last_question_id < i32::MAX ==> {
            &&& is_message(r, STATUS_CREATED, "Question added"@)
            &&& final(store)@ == old(store)@.added_question(question@)
        },
        old(store)@.last_question_id == i32::MAX ==> r.status == STATUS_BAD_REQUEST
            && final(store)@ == old(store)@,
{
    let outcome = store.add_question(question);
    add_reply(outcome)
}

/// `GET /questions/{id}`: the question that carries `id`.
pub fn get_question(store: &Store, id: i32) -> (r: Reply)
    requires
        store.wf(),
    ensures
        has_question(store@.questions, id as int) ==> is_single(r, store@.question(id as int)),
        !has_question(store@.questions, id as int) ==> is_message(
            r,
            STATUS_NOT_FOUND,
            "Question not found"@,
        ),
{
    read_reply(store.get_question(&id))
}

/// `PUT /questions/{id}`: replaces the question that carries `id`.
pub fn update_question(store: &mut Store, id: i32, question: NewQuestion) -> (r: Reply)
    requires
        old(store).wf(),
    ensures
        final(store).wf(),
        has_question(old(store)@.questions, id as int) ==> {
            &&& is_message(r, STATUS_OK, "Question updated"@)
            &&& final(store)@ == old(store)@.updated_question(id as int, question@)
        },
        !has_question(old(store)@.questions, id as int) ==> is_message(
            r,
            STATUS_NOT_FOUND,
            "Question not found"@,
        ) && final(store)@ == old(store)@,
{
    let outcome = store.update_question(&id, question);
    update_reply(outcome)
}

/// `DELETE /questions/{id}`: removes the question that carries `id`.
pub fn delete_question(store: &mut Store, id: i32) -> (r: Reply)
    requires
        old(store).wf(),
    ensures
        final(store).wf(),
        has_question(old(store)@.questions, id as int) ==> {
            &&& is_message(r, STATUS_OK, "Question deleted"@)
            &&& final(store)@ == old(store)@.deleted_question(id as int)
        },
        !has_question(old(store)@.questions, id as int) ==> is_message(
            r,
            STATUS_NOT_FOUND,
            "Question not found"@,
        ) && final(store)@ == old(store)@,
{
    let outcome = store.delete_question(&id);
    delete_reply(outcome)
}

} // verus!
