use vstd::prelude::*;

verus! {

/// The abstract value of a list of tags: each tag as its characters.
pub open spec fn tags_view(tags: Option<Vec<String>>) -> Option<Seq<Seq<char>>> {
    match tags {
        Some(v) => Some(v@.map_values(|s: String| s@)),
        None => None,
    }
}

/// A stored question as a mathematical value.
pub ghost struct QuestionView {
    pub id: int,
    pub title: Seq<char>,
    pub content: Seq<char>,
    pub tags: Option<Seq<Seq<char>>>,
}

/// The payload of a question, without its identifier, as a mathematical value.
pub ghost struct NewQuestionView {
    pub title: Seq<char>,
    pub content: Seq<char>,
    pub tags: Option<Seq<Seq<char>>>,
}

/// A question as stored in the catalogue; `id` is assigned by the store.
#[derive(Debug, PartialEq, Eq)]
pub struct Question {
    pub id: i32,
    pub title: String,
    pub content: String,
    pub tags: Option<Vec<String>>,
}

/// The payload accepted when a question is created or replaced.
#[derive(Debug, PartialEq, Eq)]
pub struct NewQuestion {
    pub title: String,
    pub content: String,
    pub tags: Option<Vec<String>>,
}

impl View for Question {
    type V = QuestionView;

    open spec fn view(&self) -> QuestionView {
        QuestionView {
            id: self.id as int,
            title: self.title@,
            content: self.content@,
            tags: tags_view(self.tags),
        }
    }
}

impl View for NewQuestion {
    type V = NewQuestionView;

    open spec fn view(&self) -> NewQuestionView {
        NewQuestionView { title: self.title@, content: self.content@, tags: tags_view(self.tags) }
    }
}

impl QuestionView {
    /// The record that results from giving the payload `q` the identifier `id`.
    pub open spec fn from_new(id: int, q: NewQuestionView) -> QuestionView {
        QuestionView { id, title: q.title, content: q.content, tags: q.tags }
    }

    /// The record without its identifier.
    pub open spec fn payload(self) -> NewQuestionView {
        NewQuestionView { title: self.title, content: self.content, tags: self.tags }
    }
}

/// Copies a list of tags, string by string.
fn copy_tags(tags: &Option<Vec<String>>) -> (r: Option<Vec<String>>)
    ensures
        tags_view(r) == tags_view(*tags),
{
    match tags {
        None => None,
        Some(v) => {
            let mut out: Vec<String> = Vec::new();
            let n = v.len();
            for i in 0..n
                invariant
                    n == v@.len(),
                    out@.len() == i,
                    forall|j: int| 0 <= j < i ==> #[trigger] out@[j]@ == v@[j]@,
            {
                out.push(v[i].clone());
            }
            assert(out@.map_values(|s: String| s@) =~= v@.map_values(|s: String| s@));
            Some(out)
        },
    }
}

impl Question {
    /// Builds a question from its four fields.
    pub fn new(id: i32, title: String, content: String, tags: Option<Vec<String>>) -> (r: Self)
        ensures
            r.id == id,
            r.title == title,
            r.content == content,
            r.tags == tags,
    {
        Question { id, title, content, tags }
    }

    /// A detached copy of this question.
    pub fn duplicate(&self) -> (r: Question)
        ensures
            r@ == self@,
    {
        Question {
            id: self.id,
            title: self.title.clone(),
            content: self.content.clone(),
            tags: copy_tags(&self.tags),
        }
    }

    /// The question that carries `id` and the fields of `q`.
    pub fn from_new(id: i32, q: NewQuestion) -> (r: Question)
        ensures
            r@ == QuestionView::from_new(id as int, q@),
    {
        Question { id, title: q.title, content: q.content, tags: q.tags }
    }
}

} // verus!
