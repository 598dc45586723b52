//! Reads a page's quiz: multiple-choice questions given field by field, and
//! generated questions given as an embedded YAML list.
use vstd::prelude::*;
use vstd::string::StringExecFns;
use crate::json::{Json, field, text_field, bool_field, get_text, get_bool, yaml_tree, parse_yaml_text};
use crate::model::{QuizItem, QuizAnswerItem};
use crate::error::{Entity, EntityView, IngestError, ErrorView, Problem, ProblemView, missing, missing_spec, err_view, first_error, lemma_first_error_step, lemma_first_error_prefix, lemma_take_all};
use crate::text::same_text;

verus! {

/// The question entries of a page's quiz, if it has a list of them.
pub open spec fn quiz_entries(page: Json) -> Option<Seq<Json>> {
    match field(page, "Quiz"@) {
        Some(q) => match field(q, "Questions"@) {
            Some(Json::Array(a)) => Some(a@),
            _ => None,
        },
        None => None,
    }
}

/// The first field that an answer lacks.
pub open spec fn answer_error(a: Json, page: Seq<char>, id: Seq<char>, j: nat) -> Option<ErrorView> {
    let at = EntityView::Answer(page, id, j);
    if text_field(a, "id"@) is None {
        Some(missing_spec(at, "id"@))
    } else if text_field(a, "Text"@) is None {
        Some(missing_spec(at, "Text"@))
    } else if bool_field(a, "IsCorrect"@) is None {
        Some(missing_spec(at, "IsCorrect"@))
    } else {
        None
    }
}

/// `x` is the answer that a well-formed answer entry describes.
pub open spec fn answer_built(x: QuizAnswerItem, a: Json) -> bool {
    x.answer@ == text_field(a, "Text"@)->0 && x.correct == bool_field(a, "IsCorrect"@)->0
}

/// The outcomes of the answers of a question, in order.
pub open spec fn answer_errors(answers: Seq<Json>, page: Seq<char>, id: Seq<char>) -> Seq<Option<ErrorView>> {
    Seq::new(answers.len(), |j: int| answer_error(answers[j], page, id, j as nat))
}

/// The answer list of a multiple-choice entry.
pub open spec fn answer_list(q: Json) -> Option<Seq<Json>> {
    match field(q, "Answers"@) {
        Some(Json::Array(a)) => Some(a@),
        _ => None,
    }
}

/// The first thing that a multiple-choice entry lacks.
pub open spec fn choice_error(q: Json, page: Seq<char>, id: Seq<char>) -> Option<ErrorView> {
    let at = EntityView::Question(page, id);
    if text_field(q, "Question"@) is None {
        Some(missing_spec(at, "Question"@))
    } else if answer_list(q) is None || answer_list(q)->0.len() == 0 {
        Some(missing_spec(at, "Answers"@))
    } else {
        first_error(answer_errors(answer_list(q)->0, page, id))
    }
}

/// `item` is the question that a well-formed multiple-choice entry describes,
/// its answers in their order there.
pub open spec fn choice_built(item: QuizItem, q: Json) -> bool {
    let answers = answer_list(q)->0;
    &&& item.question@ == text_field(q, "Question"@)->0
    &&& item.answers@.len() == answers.len()
    &&& forall|j: int| 0 <= j < answers.len() ==> answer_built(#[trigger] item.answers@[j], answers[j])
}

/// A generated quiz item: an object with a question and a list of answers,
/// each with its text and whether it is correct.
pub open spec fn generated_ok(t: Json) -> bool {
    &&& text_field(t, "question"@) is Some
    &&& field(t, "answers"@) matches Some(Json::Array(answers))
    &&& forall|k: int| 0 <= k < answers@.len() ==> text_field(#[trigger] answers@[k], "answer"@) is Some
        && bool_field(answers@[k], "correct"@) is Some
}

/// `item` is the quiz item that a well-formed generated item describes.
pub open spec fn generated_built(item: QuizItem, t: Json) -> bool {
    let answers = match field(t, "answers"@) {
        Some(Json::Array(a)) => a@,
        _ => Seq::<Json>::empty(),
    };
    &&& item.question@ == text_field(t, "question"@)->0
    &&& item.answers@.len() == answers.len()
    &&& forall|k: int| 0 <= k < answers.len() ==> (#[trigger] item.answers@[k]).answer@ == text_field(answers[k], "answer"@)->0
        && item.answers@[k].correct == bool_field(answers[k], "correct"@)->0
}

/// The items of a generated question's text, when it is a list of items.
pub open spec fn generated_items(text: Seq<char>) -> Option<Seq<Json>> {
    match yaml_tree(text) {
        Some(Json::Array(items)) => if forall|i: int| 0 <= i < items@.len() ==> generated_ok(#[trigger] items@[i]) {
            Some(items@)
        } else {
            None
        },
        _ => None,
    }
}

/// Why a generated question cannot be read, if it cannot.
pub open spec fn generated_error(text: Seq<char>, page: Seq<char>, id: Seq<char>) -> Option<ErrorView> {
    let at = EntityView::Question(page, id);
    match generated_items(text) {
        None => Some(ErrorView { entity: at, problem: ProblemView::MalformedGeneratedQuiz }),
        Some(items) => if items.len() == 0 {
            Some(ErrorView { entity: at, problem: ProblemView::EmptyGeneratedQuiz })
        } else {
            None
        },
    }
}

/// Whether an entry is tagged as a multiple-choice question.
pub open spec fn is_choice_entry(q: Json) -> bool {
    field(q, "__component"@) matches Some(Json::Str(s)) && s@ == "quizzes.multiple-choice-question"@
}

/// The text of an entry's generated question, if it has one.
pub open spec fn generated_text(q: Json) -> Option<Seq<char>> {
    match field(q, "GeneratedQuestion"@) {
        Some(Json::Str(s)) => Some(s@),
        _ => None,
    }
}

/// Why the quiz entry at position `i` cannot be read, if it cannot.
pub open spec fn entry_error(q: Json, page: Seq<char>, i: nat) -> Option<ErrorView> {
    match text_field(q, "id"@) {
        None => Some(missing_spec(EntityView::QuizEntry(page, i), "id"@)),
        Some(id) => if is_choice_entry(q) {
            choice_error(q, page, id)
        } else if generated_text(q) is Some {
            generated_error(generated_text(q)->0, page, id)
        } else {
            Some(ErrorView { entity: EntityView::QuizEntry(page, i), problem: ProblemView::UnknownQuizEntry })
        },
    }
}

/// `item` is what a readable quiz entry describes: a generated question
/// yields the first item of its list.
pub open spec fn entry_built(item: QuizItem, q: Json) -> bool {
    if is_choice_entry(q) {
        choice_built(item, q)
    } else {
        generated_built(item, generated_items(generated_text(q)->0)->0[0])
    }
}

/// The outcomes of the entries of a quiz, in order.
pub open spec fn entry_errors(entries: Seq<Json>, page: Seq<char>) -> Seq<Option<ErrorView>> {
    Seq::new(entries.len(), |i: int| entry_error(entries[i], page, i as nat))
}

/// Why a page's quiz cannot be read, if it cannot.
pub open spec fn quiz_error(page: Json, title: Seq<char>) -> Option<ErrorView> {
    match quiz_entries(page) {
        Some(entries) => first_error(entry_errors(entries, title)),
        None => None,
    }
}

/// `quiz` is what a page with a readable quiz holds: nothing when there is
/// no entry, else one item per entry in order.
pub open spec fn quiz_built(quiz: Option<Vec<QuizItem>>, page: Json) -> bool {
    match quiz_entries(page) {
        Some(entries) if entries.len() > 0 => quiz matches Some(items) && items@.len() == entries.len()
            && forall|i: int| 0 <= i < entries.len() ==> entry_built(#[trigger] items@[i], entries[i]),
        _ => quiz is None,
    }
}

/// Parses one answer of a multiple-choice question.
pub fn parse_quiz_answer(answer: &Json, page_title: &str, question_id: &str, index: usize) -> (r: Result<QuizAnswerItem, IngestError>)
    ensures
        match answer_error(*answer, page_title@, question_id@, index as nat) {
            Some(e) => r is Err && err_view(r) == e,
            None => r matches Ok(x) && answer_built(x, *answer),
        },
{
    if get_text(answer, "id").is_none() {
        return Err(missing(Entity::Answer(String::from_str(page_title), String::from_str(question_id), index), "id"));
    }
    let answer_text = match get_text(answer, "Text") {
        Some(t) => t,
        None => return Err(missing(Entity::Answer(String::from_str(page_title), String::from_str(question_id), index), "Text")),
    };
    let correct = match get_bool(answer, "IsCorrect") {
        Some(b) => b,
        None => return Err(missing(Entity::Answer(String::from_str(page_title), String::from_str(question_id), index), "IsCorrect")),
    };
    Ok(QuizAnswerItem { answer: answer_text, correct })
}

/// Parses a multiple-choice question: its text and its non-empty list of
/// answers, in order.
pub fn parse_multiple_choice_question(question: &Json, page_title: &str, id: &str) -> (r: Result<QuizItem, IngestError>)
    ensures
        match choice_error(*question, page_title@, id@) {
            Some(e) => r is Err && err_view(r) == e,
            None => r matches Ok(item) && choice_built(item, *question),
        },
{
    let question_text = match get_text(question, "Question") {
        Some(t) => t,
        None => return Err(missing(Entity::Question(String::from_str(page_title), String::from_str(id)), "Question")),
    };
    let answers = match question.get("Answers") {
        Some(a) => match a.as_array() {
            Some(list) => list,
            None => return Err(missing(Entity::Question(String::from_str(page_title), String::from_str(id)), "Answers")),
        },
        None => return Err(missing(Entity::Question(String::from_str(page_title), String::from_str(id)), "Answers")),
    };
    if answers.len() == 0 {
        return Err(missing(Entity::Question(String::from_str(page_title), String::from_str(id)), "Answers"));
    }
    let ghost errs = answer_errors(answers@, page_title@, id@);
    let mut quiz_answers: Vec<QuizAnswerItem> = Vec::new();
    let mut j: usize = 0;
    while j < answers.len()
        invariant
            j <= answers@.len(),
            answer_list(*question) == Some(answers@),
            answers@.len() > 0,
            text_field(*question, "Question"@) == Some(question_text@),
            errs == answer_errors(answers@, page_title@, id@),
            first_error(errs.take(j as int)) is None,
            quiz_answers@.len() == j,
            forall|k: int| 0 <= k < j ==> answer_built(#[trigger] quiz_answers@[k], answers@[k]),
        decreases answers.len() - j,
    {
        proof { lemma_first_error_step(errs, j as int); }
        match parse_quiz_answer(&answers[j], page_title, id, j) {
            Ok(x) => quiz_answers.push(x),
            Err(e) => {
                proof { lemma_first_error_prefix(errs, j + 1); }
                return Err(e);
            },
        }
        j = j + 1;
    }
    proof { lemma_take_all(errs); }
    Ok(QuizItem { question: question_text, answers: quiz_answers })
}

/// Reads one generated item; nothing when it does not have the shape of one.
pub fn generated_item(t: &Json) -> (r: Option<QuizItem>)
    ensures
        match r {
            Some(item) => generated_ok(*t) && generated_built(item, *t),
            None => !generated_ok(*t),
        },
{
    let question = match get_text(t, "question") {
        Some(q) => q,
        None => return None,
    };
    let answers = match t.get("answers") {
        Some(a) => match a.as_array() {
            Some(list) => list,
            None => return None,
        },
        None => return None,
    };
    let mut items: Vec<QuizAnswerItem> = Vec::new();
    let mut k: usize = 0;
    while k < answers.len()
        invariant
            k <= answers@.len(),
            field(*t, "answers"@) == Some(Json::Array(*answers)),
            text_field(*t, "question"@) == Some(question@),
            items@.len() == k,
            forall|m: int| 0 <= m < k ==> text_field(#[trigger] answers@[m], "answer"@) is Some
                && bool_field(answers@[m], "correct"@) is Some,
            forall|m: int| 0 <= m < k ==> (#[trigger] items@[m]).answer@ == text_field(answers@[m], "answer"@)->0
                && items@[m].correct == bool_field(answers@[m], "correct"@)->0,
        decreases answers.len() - k,
    {
        let text = match get_text(&answers[k], "answer") {
            Some(x) => x,
            None => return None,
        };
        let correct = match get_bool(&answers[k], "correct") {
            Some(b) => b,
            None => return None,
        };
        items.push(QuizAnswerItem { answer: text, correct });
        k = k + 1;
    }
    Some(QuizItem { question, answers: items })
}

/// Parses a generated question: a YAML list of quiz items, of which the
/// first is taken.
pub fn parse_generated_question(yaml_text: &str, page_title: &str, id: &str) -> (r: Result<QuizItem, IngestError>)
    ensures
        match generated_error(yaml_text@, page_title@, id@) {
            Some(e) => r is Err && err_view(r) == e,
            None => r matches Ok(item) && generated_built(item, generated_items(yaml_text@)->0[0]),
        },
{
    let malformed = IngestError {
        entity: Entity::Question(String::from_str(page_title), String::from_str(id)),
        problem: Problem::MalformedGeneratedQuiz,
    };
    let tree = match parse_yaml_text(yaml_text) {
        Some(t) => t,
        None => return Err(malformed),
    };
    let items = match &tree {
        Json::Array(items) => items,
        _ => return Err(malformed),
    };
    let mut first: Option<QuizItem> = None;
    let mut i: usize = 0;
    while i < items.len()
        invariant
            i <= items@.len(),
            yaml_tree(yaml_text@) == Some(Json::Array(*items)),
            forall|m: int| 0 <= m < i ==> generated_ok(#[trigger] items@[m]),
            i == 0 <==> first is None,
            malformed@ == (ErrorView { entity: EntityView::Question(page_title@, id@), problem: ProblemView::MalformedGeneratedQuiz }),
            first matches Some(item) ==> generated_built(item, items@[0]),
        decreases items.len() - i,
    {
        match generated_item(&items[i]) {
            Some(item) => {
                if i == 0 {
                    first = Some(item);
                }
            },
            None => {
                assert(!generated_ok(items@[i as int]));
                assert(generated_items(yaml_text@) is None);
                return Err(malformed);
            },
        }
        i = i + 1;
    }
    match first {
        Some(item) => Ok(item),
        None => Err(IngestError {
            entity: Entity::Question(String::from_str(page_title), String::from_str(id)),
            problem: Problem::EmptyGeneratedQuiz,
        }),
    }
}

/// Parses one quiz entry, a multiple-choice or a generated question.
pub fn parse_quiz_item(question: &Json, page_title: &str, index: usize) -> (r: Result<QuizItem, IngestError>)
    ensures
        match entry_error(*question, page_title@, index as nat) {
            Some(e) => r is Err && err_view(r) == e,
            None => r matches Ok(item) && entry_built(item, *question),
        },
{
    let id = match get_text(question, "id") {
        Some(i) => i,
        None => return Err(missing(Entity::QuizEntry(String::from_str(page_title), index), "id")),
    };
    let is_choice = match question.get("__component") {
        Some(c) => match c.as_str() {
            Some(s) => same_text(s.as_str(), "quizzes.multiple-choice-question"),
            None => false,
        },
        None => false,
    };
    if is_choice {
        return parse_multiple_choice_question(question, page_title, id.as_str());
    }
    match question.get("GeneratedQuestion") {
        Some(g) => match g.as_str() {
            Some(text) => return parse_generated_question(text.as_str(), page_title, id.as_str()),
            None => {},
        },
        None => {},
    }
    Err(IngestError { entity: Entity::QuizEntry(String::from_str(page_title), index), problem: Problem::UnknownQuizEntry })
}

/// Parses a page's quiz; an absent or empty list of questions is no quiz.
pub fn parse_quiz(page: &Json, page_title: &str) -> (r: Result<Option<Vec<QuizItem>>, IngestError>)
    ensures
        match quiz_error(*page, page_title@) {
            Some(e) => r is Err && err_view(r) == e,
            None => r matches Ok(quiz) && quiz_built(quiz, *page),
        },
{
    let questions = match page.get("Quiz") {
        Some(q) => match q.get("Questions") {
            Some(qs) => match qs.as_array() {
                Some(list) => list,
                None => return Ok(None),
            },
            None => return Ok(None),
        },
        None => return Ok(None),
    };
    let ghost errs = entry_errors(questions@, page_title@);
    let mut items: Vec<QuizItem> = Vec::new();
    let mut i: usize = 0;
    while i < questions.len()
        invariant
            i <= questions@.len(),
            quiz_entries(*page) == Some(questions@),
            errs == entry_errors(questions@, page_title@),
            first_error(errs.take(i as int)) is None,
            items@.len() == i,
            forall|k: int| 0 <= k < i ==> entry_built(#[trigger] items@[k], questions@[k]),
        decreases questions.len() - i,
    {
        proof { lemma_first_error_step(errs, i as int); }
        match parse_quiz_item(&questions[i], page_title, i) {
            Ok(item) => items.push(item),
            Err(e) => {
                proof { lemma_first_error_prefix(errs, i + 1); }
                return Err(e);
            },
        }
        i = i + 1;
    }
    proof { lemma_take_all(errs); }
    if items.len() == 0 {
        Ok(None)
    } else {
        Ok(Some(items))
    }
}

} // verus!
