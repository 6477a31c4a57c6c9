use vstd::prelude::*;

verus! {

/// A stored answer as a mathematical value.
pub ghost struct AnswerView {
    pub id: int,
    pub content: Seq<char>,
    pub corresponding_question: int,
}

/// The payload of an answer, without its identifier, as a mathematical value.
pub ghost struct NewAnswerView {
    pub content: Seq<char>,
    pub corresponding_question: int,
}

/// An answer attached to the question whose id is `corresponding_question`.
#[derive(Debug, PartialEq, Eq)]
pub struct Answer {
    pub id: i32,
    pub content: String,
    pub corresponding_question: i32,
}

/// The payload accepted when an answer is created.
#[derive(Debug, PartialEq, Eq)]
pub struct NewAnswer {
    pub content: String,
    pub corresponding_question: i32,
}

impl View for Answer {
    type V = AnswerView;

    open spec fn view(&self) -> AnswerView {
        AnswerView {
            id: self.id as int,
            content: self.content@,
            corresponding_question: self.corresponding_question as int,
        }
    }
}

impl View for NewAnswer {
    type V = NewAnswerView;

    open spec fn view(&self) -> NewAnswerView {
        NewAnswerView {
            content: self.content@,
            corresponding_question: self.corresponding_question as int,
        }
    }
}

impl AnswerView {
    /// The record that results from giving the payload `a` the identifier `id`.
    pub open spec fn from_new(id: int, a: NewAnswerView) -> AnswerView {
        AnswerView { id, content: a.content, corresponding_question: a.corresponding_question }
    }
}

impl Answer {
    /// A detached copy of this answer.
    pub fn duplicate(&self) -> (r: Answer)
        ensures
            r@ == self@,
    {
        Answer {
            id: self.id,
            content: self.content.clone(),
            corresponding_question: self.corresponding_question,
        }
    }

    /// The answer that carries `id` and the fields of `a`.
    pub fn from_new(id: i32, a: NewAnswer) -> (r: Answer)
        ensures
            r@ == AnswerView::from_new(id as int, a@),
    {
        Answer { id, content: a.content, corresponding_question: a.corresponding_question }
    }
}

} // verus!
