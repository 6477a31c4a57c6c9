use vstd::prelude::*;

use crate::answer::{Answer, AnswerView, NewAnswer, NewAnswerView};
use crate::error::CatalogueError;
use crate::question::{NewQuestion, NewQuestionView, Question, QuestionView};

verus! {

/// The content of a store as a mathematical value: the records in creation
/// order and the last identifier handed out for each kind of record.
pub ghost struct StoreView {
    pub questions: Seq<QuestionView>,
    pub answers: Seq<AnswerView>,
    pub last_question_id: int,
    pub last_answer_id: int,
}

/// The window of at most `limit` items (no bound when `None`) that starts at
/// position `offset` of `s`; empty when `offset` lies past the end.
pub open spec fn window<A>(s: Seq<A>, limit: Option<int>, offset: int) -> Seq<A> {
    let start = if offset < s.len() { offset } else { s.len() as int };
    let end = match limit {
        Some(l) => if start + l < s.len() { start + l } else { s.len() as int },
        None => s.len() as int,
    };
    s.subrange(start, end)
}

/// A limit given as an optional machine integer, as a mathematical value.
pub open spec fn limit_view(limit: Option<i32>) -> Option<int> {
    match limit {
        Some(l) => Some(l as int),
        None => None,
    }
}

/// Whether some question in `qs` carries `id`.
pub open spec fn has_question(qs: Seq<QuestionView>, id: int) -> bool {
    exists|i: int| 0 <= i < qs.len() && #[trigger] qs[i].id == id
}

/// The position in `qs` of the question that carries `id`.
pub open spec fn position_of(qs: Seq<QuestionView>, id: int) -> int {
    choose|i: int| 0 <= i < qs.len() && #[trigger] qs[i].id == id
}

/// `qs` with the question that carries `id` replaced by the payload `q` under the same id.
pub open spec fn replaced(qs: Seq<QuestionView>, id: int, q: NewQuestionView) -> Seq<QuestionView> {
    qs.map_values(|r: QuestionView| if r.id == id { QuestionView::from_new(id, q) } else { r })
}

/// `qs` without the question that carries `id`.
pub open spec fn removed(qs: Seq<QuestionView>, id: int) -> Seq<QuestionView> {
    qs.remove(position_of(qs, id))
}

/// Identifiers strictly increase along the sequence, so each occurs once.
pub open spec fn question_ids_ascending(qs: Seq<QuestionView>) -> bool {
    forall|i: int, j: int| 0 <= i < j < qs.len() ==> qs[i].id < qs[j].id
}

/// Identifiers strictly increase along the sequence, so each occurs once.
pub open spec fn answer_ids_ascending(xs: Seq<AnswerView>) -> bool {
    forall|i: int, j: int| 0 <= i < j < xs.len() ==> xs[i].id < xs[j].id
}

impl StoreView {
    /// Identifiers are unique, ascending in creation order, positive and at
    /// most the last one handed out, which fits in `i32`.
    pub open spec fn wf(self) -> bool {
        &&& 0 <= self.last_question_id <= i32::MAX
        &&& 0 <= self.last_answer_id <= i32::MAX
        &&& question_ids_ascending(self.questions)
        &&& answer_ids_ascending(self.answers)
        &&& forall|i: int|
            0 <= i < self.questions.len() ==> 1 <= #[trigger] self.questions[i].id
                <= self.last_question_id
        &&& forall|i: int|
            0 <= i < self.answers.len() ==> 1 <= #[trigger] self.answers[i].id
                <= self.last_answer_id
    }

    /// The question that carries `id`; meaningful when `has_question` holds.
    pub open spec fn question(self, id: int) -> QuestionView {
        self.questions[position_of(self.questions, id)]
    }

    /// The content after the payload `q` is added under the next identifier.
    pub open spec fn added_question(self, q: NewQuestionView) -> StoreView {
        StoreView {
            questions: self.questions.push(QuestionView::from_new(self.last_question_id + 1, q)),
            last_question_id: self.last_question_id + 1,
            ..self
        }
    }

    /// The content after the payloads of `qs` are added one after another.
    pub open spec fn added_questions(self, qs: Seq<NewQuestionView>) -> StoreView
        decreases qs.len(),
    {
        if qs.len() == 0 {
            self
        } else {
            self.added_questions(qs.drop_last()).added_question(qs.last())
        }
    }

    /// The content after the question that carries `id` takes the fields of `q`.
    pub open spec fn updated_question(self, id: int, q: NewQuestionView) -> StoreView {
        StoreView { questions: replaced(self.questions, id, q), ..self }
    }

    /// The content after the question that carries `id` is removed.
    pub open spec fn deleted_question(self, id: int) -> StoreView {
        StoreView { questions: removed(self.questions, id), ..self }
    }

    /// The content after the payload `a` is added under the next answer identifier.
    pub open spec fn added_answer(self, a: NewAnswerView) -> StoreView {
        StoreView {
            answers: self.answers.push(AnswerView::from_new(self.last_answer_id + 1, a)),
            last_answer_id: self.last_answer_id + 1,
            ..self
        }
    }
}

/// With ascending identifiers, the question found at `i` is the one `position_of` names.
pub proof fn lemma_position_unique(qs: Seq<QuestionView>, id: int, i: int)
    requires
        question_ids_ascending(qs),
        0 <= i < qs.len(),
        qs[i].id == id,
    ensures
        has_question(qs, id),
        position_of(qs, id) == i,
{
    assert(has_question(qs, id));
    let j = position_of(qs, id);
    if j < i {
        assert(qs[j].id < qs[i].id);
    } else if i < j {
        assert(qs[i].id < qs[j].id);
    }
}

/// Adding a question to a well-formed store whose identifiers are not
/// exhausted keeps it well formed.
pub proof fn lemma_added_question_wf(s: StoreView, q: NewQuestionView)
    requires
        s.wf(),
        s.last_question_id < i32::MAX,
    ensures
        s.added_question(q).wf(),
{
    let t = s.added_question(q);
    assert forall|i: int, j: int| 0 <= i < j < t.questions.len() implies t.questions[i].id
        < t.questions[j].id by {
        if j == s.questions.len() {
            assert(s.questions[i].id <= s.last_question_id);
        }
    }
}

/// A page holds `min(limit, max(0, N - offset))` of the `N` questions
/// (`max(0, N - offset)` without a limit), and its question at position `i`
/// is the stored question at position `offset + i`, so pages keep creation order.
pub proof fn lemma_page(s: StoreView, limit: Option<i32>, offset: i32)
    requires
        offset >= 0,
        limit matches Some(l) ==> l >= 0,
    ensures
        ({
            let n = s.questions.len() as int;
            let rest = if n - offset > 0 { n - offset } else { 0 };
            window(s.questions, limit_view(limit), offset as int).len() == match limit {
                Some(l) => if (l as int) < rest { l as int } else { rest },
                None => rest,
            }
        }),
        forall|i: int|
            0 <= i < window(s.questions, limit_view(limit), offset as int).len()
                ==> #[trigger] window(s.questions, limit_view(limit), offset as int)[i]
                == s.questions[offset + i],
{
}

/// No question carries an identifier that the store has not handed out.
pub proof fn lemma_unissued_absent(s: StoreView, id: int)
    requires
        s.wf(),
        id < 1 || id > s.last_question_id,
    ensures
        !has_question(s.questions, id),
{
}

/// Adding payloads one after another keeps every earlier record in place,
/// appends one record per payload under the identifiers that follow the last
/// one handed out, in order, and keeps identifiers unique.
pub proof fn lemma_adds_keep_every_record(s: StoreView, qs: Seq<NewQuestionView>)
    requires
        s.wf(),
        s.last_question_id + qs.len() <= i32::MAX,
    ensures
        ({
            let t = s.added_questions(qs);
            let n = s.questions.len() as int;
            &&& t.wf()
            &&& t.last_question_id == s.last_question_id + qs.len()
            &&& t.questions.len() == n + qs.len()
            &&& t.questions.subrange(0, n) == s.questions
            &&& forall|i: int|
                0 <= i < qs.len() ==> #[trigger] t.questions[n + i] == QuestionView::from_new(
                    s.last_question_id + 1 + i,
                    qs[i],
                )
            &&& forall|i: int, j: int|
                0 <= i < t.questions.len() && 0 <= j < t.questions.len() && i != j
                    ==> t.questions[i].id != t.questions[j].id
            &&& t.answers == s.answers
        }),
    decreases qs.len(),
{
    let n = s.questions.len() as int;
    if qs.len() > 0 {
        let p = qs.drop_last();
        lemma_adds_keep_every_record(s, p);
        let u = s.added_questions(p);
        lemma_added_question_wf(u, qs.last());
        let t = s.added_questions(qs);
        assert(t == u.added_question(qs.last()));
        assert(t.questions.subrange(0, n) =~= s.questions) by {
            assert forall|k: int| 0 <= k < n implies t.questions[k] == s.questions[k] by {
                assert(u.questions.subrange(0, n)[k] == u.questions[k]);
            }
        }
        assert forall|i: int| 0 <= i < qs.len() implies #[trigger] t.questions[n + i]
            == QuestionView::from_new(s.last_question_id + 1 + i, qs[i]) by {
            if i < p.len() {
                assert(p[i] == qs[i]);
            }
        }
    } else {
        assert(s.questions.subrange(0, n) =~= s.questions);
    }
    let t = s.added_questions(qs);
    assert forall|i: int, j: int|
        0 <= i < t.questions.len() && 0 <= j < t.questions.len() && i != j implies t.questions[i].id
        != t.questions[j].id by {
        if i < j {
            assert(t.questions[i].id < t.questions[j].id);
        } else {
            assert(t.questions[j].id < t.questions[i].id);
        }
    }
}

/// Reading back the identifier that an addition handed out gives the added
/// payload, unchanged, under that identifier.
pub proof fn lemma_add_then_get(s: StoreView, q: NewQuestionView)
    requires
        s.wf(),
        s.last_question_id < i32::MAX,
    ensures
        has_question(s.added_question(q).questions, s.last_question_id + 1),
        s.added_question(q).question(s.last_question_id + 1) == QuestionView::from_new(
            s.last_question_id + 1,
            q,
        ),
        s.added_question(q).question(s.last_question_id + 1).payload() == q,
{
    let t = s.added_question(q);
    lemma_added_question_wf(s, q);
    lemma_position_unique(t.questions, s.last_question_id + 1, s.questions.len() as int);
}

/// Deleting a question that is present removes exactly that record: one
/// fewer remains, every other record remains in order, and afterwards no
/// question carries `id`, so a second deletion finds nothing.
pub proof fn lemma_delete_once(s: StoreView, id: int)
    requires
        s.wf(),
        has_question(s.questions, id),
    ensures
        s.deleted_question(id).wf(),
        s.deleted_question(id).questions.len() == s.questions.len() - 1,
        !has_question(s.deleted_question(id).questions, id),
        forall|r: QuestionView| #[trigger]
            s.questions.contains(r) && r.id != id ==> s.deleted_question(id).questions.contains(r),
{
    let k = position_of(s.questions, id);
    let t = s.deleted_question(id);
    assert(t.questions =~= s.questions.remove(k));
    assert forall|i: int, j: int| 0 <= i < j < t.questions.len() implies t.questions[i].id
        < t.questions[j].id by {
        if j < k {
        } else if i < k {
            assert(t.questions[j] == s.questions[j + 1]);
        } else {
            assert(t.questions[i] == s.questions[i + 1]);
            assert(t.questions[j] == s.questions[j + 1]);
        }
    }
    assert forall|i: int| 0 <= i < t.questions.len() implies #[trigger] t.questions[i].id != id by {
        if i < k {
            assert(s.questions[i].id < s.questions[k].id);
        } else {
            assert(t.questions[i] == s.questions[i + 1]);
            assert(s.questions[k].id < s.questions[i + 1].id);
        }
    }
    assert forall|r: QuestionView| #[trigger]
        s.questions.contains(r) && r.id != id implies t.questions.contains(r) by {
        let i = choose|i: int| 0 <= i < s.questions.len() && s.questions[i] == r;
        if i < k {
            assert(t.questions[i] == r);
        } else {
            assert(i != k);
            assert(t.questions[i - 1] == r);
        }
    }
}

/// An identifier whose question was deleted is never handed out again: after
/// any number of further additions no question carries it.
pub proof fn lemma_deleted_stays_absent(s: StoreView, id: int, qs: Seq<NewQuestionView>)
    requires
        s.wf(),
        has_question(s.questions, id),
        s.last_question_id + qs.len() <= i32::MAX,
    ensures
        !has_question(s.deleted_question(id).added_questions(qs).questions, id),
{
    let d = s.deleted_question(id);
    lemma_delete_once(s, id);
    lemma_adds_keep_every_record(d, qs);
    let t = d.added_questions(qs);
    let n = d.questions.len() as int;
    let k = position_of(s.questions, id);
    assert(s.questions[k].id <= s.last_question_id);
    assert forall|i: int| 0 <= i < t.questions.len() implies #[trigger] t.questions[i].id != id by {
        if i < n {
            assert(t.questions.subrange(0, n)[i] == t.questions[i]);
        } else {
            assert(t.questions[n + (i - n)] == QuestionView::from_new(
                d.last_question_id + 1 + (i - n),
                qs[i - n],
            ));
        }
    }
}

/// The in-memory table of questions and answers. Every operation either takes
/// effect in full or leaves the store as it was.
pub struct Store {
    questions: Vec<Question>,
    answers: Vec<Answer>,
    last_question_id: i32,
    last_answer_id: i32,
}

impl View for Store {
    type V = StoreView;

    closed spec fn view(&self) -> StoreView {
        StoreView {
            questions: self.questions@.map_values(|q: Question| q@),
            answers: self.answers@.map_values(|a: Answer| a@),
            last_question_id: self.last_question_id as int,
            last_answer_id: self.last_answer_id as int,
        }
    }
}

impl Store {
    /// The store's invariant.
    pub open spec fn wf(&self) -> bool {
        self@.wf()
    }

    /// An empty store.
    pub fn new() -> (r: Store)
        ensures
            r.wf(),
            r@.questions == Seq::<QuestionView>::empty(),
            r@.answers == Seq::<AnswerView>::empty(),
            r@.last_question_id == 0,
            r@.last_answer_id == 0,
    {
        let r = Store {
            questions: Vec::new(),
            answers: Vec::new(),
            last_question_id: 0,
            last_answer_id: 0,
        };
        assert(r@.questions =~= Seq::<QuestionView>::empty());
        assert(r@.answers =~= Seq::<AnswerView>::empty());
        r
    }

    /// The position of the question that carries `id`, if any.
    fn find_question(&self, id: i32) -> (r: Option<usize>)
        requires
            self.wf(),
        ensures
            r is None <==> !has_question(self@.questions, id as int),
            r matches Some(i) ==> i < self@.questions.len() && i == position_of(
                self@.questions,
                id as int,
            ),
    {
        let n = self.questions.len();
        let mut i: usize = 0;
        while i < n
            invariant
                n == self.questions@.len(),
                n == self@.questions.len(),
                0 <= i <= n,
                self.wf(),
                forall|j: int| 0 <= j < i ==> #[trigger] self@.questions[j].id != id,
            decreases n - i,
        {
            if self.questions[i].id == id {
                proof {
                    lemma_position_unique(self@.questions, id as int, i as int);
                }
                return Some(i);
            }
            i = i + 1;
        }
        None
    }

    /// Adds a question under the next identifier and returns that identifier.
    /// Fails, changing nothing, once every identifier of `i32` has been used.
    pub fn add_question(&mut self, new_question: NewQuestion) -> (r: Result<i32, CatalogueError>)
        requires
            old(self).wf(),
        ensures
            final(self).wf(),
            r is Ok <==> old(self)@.last_question_id < i32::MAX,
            r matches Ok(id) ==> id == old(self)@.last_question_id + 1 && final(self)@ == old(
                self,
            )@.added_question(new_question@),
            r matches Err(e) ==> e is Persistence && final(self)@ == old(self)@,
    {
        if self.last_question_id == i32::MAX {
            let text = String::from_str("question identifiers are exhausted");
            return Err(CatalogueError::Persistence(text));
        }
        let id = self.last_question_id + 1;
        let q = Question::from_new(id, new_question);
        let ghost before = self.questions@;
        self.questions.push(q);
        self.last_question_id = id;
        assert(self.questions@.map_values(|q: Question| q@) =~= before.map_values(
            |q: Question| q@,
        ).push(q@));
        Ok(id)
    }

    /// The questions in creation order, from position `offset` on, at most
    /// `limit` of them (all of them when `limit` is `None`).
    pub fn get_questions(&self, limit: Option<i32>, offset: i32) -> (r: Vec<Question>)
        requires
            self.wf(),
            offset >= 0,
            limit matches Some(l) ==> l >= 0,
        ensures
            r@.map_values(|q: Question| q@) == window(
                self@.questions,
                limit_view(limit),
                offset as int,
            ),
    {
        let n = self.questions.len();
        let start: usize = if (offset as usize) < n {
            offset as usize
        } else {
            n
        };
        let end: usize = match limit {
            Some(l) => if (l as usize) < n - start {
                start + l as usize
            } else {
                n
            },
            None => n,
        };
        let mut out: Vec<Question> = Vec::new();
        let mut k: usize = start;
        while k < end
            invariant
                n == self.questions@.len(),
                start <= k <= end <= n,
                out@.len() == k - start,
                forall|j: int|
                    0 <= j < out@.len() ==> #[trigger] out@[j]@ == self.questions@[start + j]@,
            decreases end - k,
        {
            out.push(self.questions[k].duplicate());
            k = k + 1;
        }
        assert(out@.map_values(|q: Question| q@) =~= window(
            self@.questions,
            limit_view(limit),
            offset as int,
        ));
        out
    }

    /// A detached copy of the question that carries `id`.
    pub fn get_question(&self, id: &i32) -> (r: Result<Question, CatalogueError>)
        requires
            self.wf(),
        ensures
            r is Ok <==> has_question(self@.questions, *id as int),
            r matches Ok(q) ==> q@ == self@.question(*id as int),
            r matches Err(e) ==> e is QuestionNotFound,
    {
        match self.find_question(*id) {
            Some(i) => Ok(self.questions[i].duplicate()),
            None => Err(CatalogueError::QuestionNotFound),
        }
    }

    /// Replaces every field but the identifier of the question that carries `id`.
    pub fn update_question(&mut self, id: &i32, new_question: NewQuestion) -> (r: Result<
        (),
        CatalogueError,
    >)
        requires
            old(self).wf(),
        ensures
            final(self).wf(),
            r is Ok <==> has_question(old(self)@.questions, *id as int),
            r is Ok ==> final(self)@ == old(self)@.updated_question(*id as int, new_question@),
            r matches Err(e) ==> e is QuestionNotFound && final(self)@ == old(self)@,
    {
        match self.find_question(*id) {
            None => Err(CatalogueError::QuestionNotFound),
            Some(i) => {
                let ghost before = self@.questions;
                let q = Question::from_new(*id, new_question);
                self.questions[i] = q;
                assert(self@.questions =~= replaced(before, *id as int, new_question@)) by {
                    assert forall|k: int| 0 <= k < before.len() && k != i implies before[k].id
                        != *id by {
                        if k < i {
                            assert(before[k].id < before[i as int].id);
                        } else {
                            assert(before[i as int].id < before[k].id);
                        }
                    }
                }
                Ok(())
            },
        }
    }

    /// Removes the question that carries `id`.
    pub fn delete_question(&mut self, id: &i32) -> (r: Result<(), CatalogueError>)
        requires
            old(self).wf(),
        ensures
            final(self).wf(),
            r is Ok <==> has_question(old(self)@.questions, *id as int),
            r is Ok ==> final(self)@ == old(self)@.deleted_question(*id as int),
            r matches Err(e) ==> e is QuestionNotFound && final(self)@ == old(self)@,
    {
        match self.find_question(*id) {
            None => Err(CatalogueError::QuestionNotFound),
            Some(i) => {
                let ghost before = self.questions@;
                self.questions.remove(i);
                assert(self.questions@.map_values(|q: Question| q@) =~= before.map_values(
                    |q: Question| q@,
                ).remove(i as int));
                Ok(())
            },
        }
    }

    /// The answers in creation order, from position `offset` on, at most
    /// `limit` of them (all of them when `limit` is `None`).
    pub fn get_answers(&self, limit: Option<i32>, offset: i32) -> (r: Vec<Answer>)
        requires
            self.wf(),
            offset >= 0,
            limit matches Some(l) ==> l >= 0,
        ensures
            r@.map_values(|a: Answer| a@) == window(
                self@.answers,
                limit_view(limit),
                offset as int,
            ),
    {
        let n = self.answers.len();
        let start: usize = if (offset as usize) < n {
            offset as usize
        } else {
            n
        };
        let end: usize = match limit {
            Some(l) => if (l as usize) < n - start {
                start + l as usize
            } else {
                n
            },
            None => n,
        };
        let mut out: Vec<Answer> = Vec::new();
        let mut k: usize = start;
        while k < end
            invariant
                n == self.answers@.len(),
                start <= k <= end <= n,
                out@.len() == k - start,
                forall|j: int|
                    0 <= j < out@.len() ==> #[trigger] out@[j]@ == self.answers@[start + j]@,
            decreases end - k,
        {
            out.push(self.answers[k].duplicate());
            k = k + 1;
        }
        assert(out@.map_values(|a: Answer| a@) =~= window(
            self@.answers,
            limit_view(limit),
            offset as int,
        ));
        out
    }

    /// Adds an answer under the next identifier and returns that identifier.
    /// Fails, changing nothing, once every identifier of `i32` has been used.
    pub fn add_answer(&mut self, new_answer: NewAnswer) -> (r: Result<i32, CatalogueError>)
        requires
            old(self).wf(),
        ensures
            final(self).wf(),
            r is Ok <==> old(self)@.last_answer_id < i32::MAX,
            r matches Ok(id) ==> id == old(self)@.last_answer_id + 1 && final(self)@ == old(
                self,
            )@.added_answer(new_answer@),
            r matches Err(e) ==> e is Persistence && final(self)@ == old(self)@,
    {
        if self.last_answer_id == i32::MAX {
            let text = String::from_str("answer identifiers are exhausted");
            return Err(CatalogueError::Persistence(text));
        }
        let id = self.last_answer_id + 1;
        let a = Answer::from_new(id, new_answer);
        let ghost before = self.answers@;
        self.answers.push(a);
        self.last_answer_id = id;
        assert(self.answers@.map_values(|a: Answer| a@) =~= before.map_values(|a: Answer| a@).push(
            a@,
        ));
        Ok(id)
    }
}

} // verus!
