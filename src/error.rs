//! Why ingestion fails, and which entity it names.
use vstd::prelude::*;
use vstd::string::StringExecFns;

verus! {

/// What a failed ingestion names as the offender.
#[derive(Debug)]
pub enum Entity {
    Volume,
    /// A page known only by its position, before its title is read.
    PageAt(usize),
    /// A page, by title.
    Page(String),
    /// The chapter of the page with this title.
    Chapter(String),
    /// The chunk at a position in the page with this title.
    Chunk(String, usize),
    /// The quiz entry at a position in the page with this title.
    QuizEntry(String, usize),
    /// The quiz question with this id in the page with this title.
    Question(String, String),
    /// The answer at a position of a quiz question (page title, question id).
    Answer(String, String, usize),
}

/// What went wrong.
#[derive(Debug)]
pub enum Problem {
    /// A required field is absent or cannot be coerced to its type.
    Missing(String),
    /// A quiz entry is neither a multiple-choice nor a generated question.
    UnknownQuizEntry,
    /// A generated question's text is not a list of quiz items.
    MalformedGeneratedQuiz,
    /// A generated question's text holds no quiz item.
    EmptyGeneratedQuiz,
    /// The volume document is not JSON.
    NotJson,
}

/// Why ingestion failed.
#[derive(Debug)]
pub struct IngestError {
    pub entity: Entity,
    pub problem: Problem,
}

pub enum EntityView {
    Volume,
    PageAt(nat),
    Page(Seq<char>),
    Chapter(Seq<char>),
    Chunk(Seq<char>, nat),
    QuizEntry(Seq<char>, nat),
    Question(Seq<char>, Seq<char>),
    Answer(Seq<char>, Seq<char>, nat),
}

pub enum ProblemView {
    Missing(Seq<char>),
    UnknownQuizEntry,
    MalformedGeneratedQuiz,
    EmptyGeneratedQuiz,
    NotJson,
}

pub struct ErrorView {
    pub entity: EntityView,
    pub problem: ProblemView,
}

impl View for Entity {
    type V = EntityView;

    open spec fn view(&self) -> EntityView {
        match *self {
            Entity::Volume => EntityView::Volume,
            Entity::PageAt(i) => EntityView::PageAt(i as nat),
            Entity::Page(t) => EntityView::Page(t@),
            Entity::Chapter(t) => EntityView::Chapter(t@),
            Entity::Chunk(t, i) => EntityView::Chunk(t@, i as nat),
            Entity::QuizEntry(t, i) => EntityView::QuizEntry(t@, i as nat),
            Entity::Question(t, q) => EntityView::Question(t@, q@),
            Entity::Answer(t, q, i) => EntityView::Answer(t@, q@, i as nat),
        }
    }
}

impl View for Problem {
    type V = ProblemView;

    open spec fn view(&self) -> ProblemView {
        match *self {
            Problem::Missing(f) => ProblemView::Missing(f@),
            Problem::UnknownQuizEntry => ProblemView::UnknownQuizEntry,
            Problem::MalformedGeneratedQuiz => ProblemView::MalformedGeneratedQuiz,
            Problem::EmptyGeneratedQuiz => ProblemView::EmptyGeneratedQuiz,
            Problem::NotJson => ProblemView::NotJson,
        }
    }
}

impl View for IngestError {
    type V = ErrorView;

    open spec fn view(&self) -> ErrorView {
        ErrorView { entity: self.entity@, problem: self.problem@ }
    }
}

pub open spec fn missing_spec(entity: EntityView, name: Seq<char>) -> ErrorView {
    ErrorView { entity, problem: ProblemView::Missing(name) }
}

/// The error that `entity` lacks the field `name`.
pub fn missing(entity: Entity, name: &str) -> (r: IngestError)
    ensures
        r@ == missing_spec(entity@, name@),
{
    IngestError { entity, problem: Problem::Missing(String::from_str(name)) }
}

/// The failure of a fallible step, as a view.
pub open spec fn err_view<T>(r: Result<T, IngestError>) -> ErrorView
    recommends
        r is Err,
{
    r->Err_0@
}

/// The first error of a sequence of outcomes, in order.
pub open spec fn first_error(s: Seq<Option<ErrorView>>) -> Option<ErrorView>
    decreases s.len(),
{
    if s.len() == 0 {
        None
    } else {
        match first_error(s.drop_last()) {
            Some(e) => Some(e),
            None => s.last(),
        }
    }
}

/// One more outcome: the first error so far, else that outcome.
pub proof fn lemma_first_error_step(s: Seq<Option<ErrorView>>, i: int)
    requires
        0 <= i < s.len(),
    ensures
        first_error(s.take(i + 1)) == (match first_error(s.take(i)) {
            Some(e) => Some(e),
            None => s[i],
        }),
{
    assert(s.take(i + 1).drop_last() =~= s.take(i));
}

/// An error in a prefix is the first error of the whole.
pub proof fn lemma_first_error_prefix(s: Seq<Option<ErrorView>>, k: int)
    requires
        0 <= k <= s.len(),
        first_error(s.take(k)) is Some,
    ensures
        first_error(s) == first_error(s.take(k)),
    decreases s.len(),
{
    if k < s.len() {
        assert(s.drop_last().take(k) =~= s.take(k));
        lemma_first_error_prefix(s.drop_last(), k);
    } else {
        assert(s.take(k) =~= s);
    }
}

/// A whole sequence is its own longest prefix.
pub proof fn lemma_take_all<T>(s: Seq<T>)
    ensures
        s.take(s.len() as int) == s,
{
    assert(s.take(s.len() as int) =~= s);
}

} // verus!
