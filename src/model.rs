//! The canonical model of a volume: pages, chunks, quizzes.
use vstd::prelude::*;
use crate::json::Json;

verus! {

/// How a chunk is presented.
#[derive(Clone, Copy, Debug, PartialEq, Eq, Structural)]
pub enum ChunkType {
    Regular,
    Plain,
    Video,
}

/// A constructed-response question attached to a chunk.
#[derive(Debug)]
pub struct QuestionAnswer {
    pub question: String,
    pub answer: String,
    pub slug: String,
}

/// A content unit of a page.
#[derive(Debug)]
pub struct ChunkData {
    pub title: String,
    pub slug: String,
    /// Heading depth: 2, 3 or 4.
    pub depth: usize,
    pub content: String,
    pub cri: Option<QuestionAnswer>,
    pub show_header: bool,
    pub chunk_type: ChunkType,
}

/// The chapter that encloses a page.
#[derive(Debug)]
pub struct PageParent {
    pub title: String,
    pub slug: String,
}

impl PageParent {
    pub fn new(title: String, slug: String) -> (r: PageParent)
        ensures
            r.title == title,
            r.slug == slug,
    {
        PageParent { title, slug }
    }
}

/// One answer of a multiple-choice question.
#[derive(Debug)]
pub struct QuizAnswerItem {
    pub answer: String,
    pub correct: bool,
}

/// A multiple-choice question.
#[derive(Debug)]
pub struct QuizItem {
    pub question: String,
    pub answers: Vec<QuizAnswerItem>,
}

/// One gap of a cloze test.
#[derive(Debug)]
pub struct ClozeGap {
    pub start: usize,
    pub end: usize,
    pub gapped_text: String,
    pub original_word: Option<String>,
}

/// A text with gaps to fill.
#[derive(Debug)]
pub struct ClozeTest {
    pub original_text: String,
    pub gaps: Vec<ClozeGap>,
}

/// A page of a volume.
#[derive(Debug)]
pub struct PageData {
    pub title: String,
    /// Unique within the volume.
    pub slug: String,
    pub parent: Option<PageParent>,
    /// Relative position in the volume.
    pub order: usize,
    /// Evaluation assignments: "summary", "quiz".
    pub assignments: Vec<String>,
    pub quiz: Option<Vec<QuizItem>>,
    pub chunks: Vec<ChunkData>,
}

/// The volume as it arrives, its pages still raw.
#[derive(Debug)]
pub struct VolumeData {
    pub title: String,
    pub description: String,
    pub slug: String,
    pub free_pages: Vec<String>,
    pub summary: Option<String>,
    pub pages: Vec<Json>,
}

} // verus!
