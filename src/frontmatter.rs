//! The frontmatter of a rendered page, field by field.
use vstd::prelude::*;
use crate::headings::Heading;
use crate::model::{ChunkType, PageParent, QuizItem, QuestionAnswer, VolumeData};

verus! {

/// What the frontmatter records of one chunk.
#[derive(Debug)]
pub struct ChunkMeta<'a> {
    pub title: &'a str,
    pub slug: &'a str,
    pub chunk_type: &'a ChunkType,
    /// Left out of the output when empty.
    pub headings: Vec<Heading>,
}

impl<'a> ChunkMeta<'a> {
    pub fn new(title: &'a str, slug: &'a str, chunk_type: &'a ChunkType) -> (r: ChunkMeta<'a>)
        ensures
            r.title == title,
            r.slug == slug,
            r.chunk_type == chunk_type,
            r.headings@.len() == 0,
    {
        ChunkMeta { title, slug, chunk_type, headings: Vec::new() }
    }

    pub fn add_headings(&mut self, headings: Vec<Heading>)
        ensures
            final(self).headings == headings,
            final(self).title == old(self).title,
            final(self).slug == old(self).slug,
            final(self).chunk_type == old(self).chunk_type,
    {
        self.headings = headings;
    }
}

/// One field of a page's frontmatter.
#[derive(Debug)]
pub enum Frontmatter<'a> {
    Title(&'a str),
    Slug(&'a str),
    NextSlug(Option<&'a str>),
    Order(usize),
    Assignments(&'a [String]),
    Parent(Option<&'a PageParent>),
    Quiz(Option<&'a Vec<QuizItem>>),
    Cri(Vec<&'a QuestionAnswer>),
    Chunks(Vec<ChunkMeta<'a>>),
}

pub open spec fn key_spec(f: Frontmatter) -> Seq<char> {
    match f {
        Frontmatter::Title(_) => "title"@,
        Frontmatter::Slug(_) => "slug"@,
        Frontmatter::NextSlug(_) => "next_slug"@,
        Frontmatter::Order(_) => "order"@,
        Frontmatter::Assignments(_) => "assignments"@,
        Frontmatter::Parent(_) => "parent"@,
        Frontmatter::Quiz(_) => "quiz"@,
        Frontmatter::Cri(_) => "cri"@,
        Frontmatter::Chunks(_) => "chunks"@,
    }
}

impl<'a> Frontmatter<'a> {
    /// The key under which this field is written.
    pub fn key(&self) -> (r: &'static str)
        ensures
            r@ == key_spec(*self),
    {
        match self {
            Frontmatter::Title(_) => "title",
            Frontmatter::Slug(_) => "slug",
            Frontmatter::NextSlug(_) => "next_slug",
            Frontmatter::Order(_) => "order",
            Frontmatter::Assignments(_) => "assignments",
            Frontmatter::Parent(_) => "parent",
            Frontmatter::Quiz(_) => "quiz",
            Frontmatter::Cri(_) => "cri",
            Frontmatter::Chunks(_) => "chunks",
        }
    }
}

/// The name under which a chunk variant is written.
pub open spec fn type_name_spec(t: ChunkType) -> Seq<char> {
    match t {
        ChunkType::Regular => "regular"@,
        ChunkType::Plain => "plain"@,
        ChunkType::Video => "video"@,
    }
}

impl ChunkType {
    /// The name under which this variant is written.
    pub fn name(&self) -> (r: &'static str)
        ensures
            r@ == type_name_spec(*self),
    {
        match self {
            ChunkType::Regular => "regular",
            ChunkType::Plain => "plain",
            ChunkType::Video => "video",
        }
    }
}

/// One field of a volume's metadata document.
#[derive(Debug)]
pub enum VolumeFrontmatter<'a> {
    Title(&'a str),
    Slug(&'a str),
    Description(&'a str),
    FreePages(&'a [String]),
    Summary(Option<&'a str>),
}

impl<'a> VolumeFrontmatter<'a> {
    /// The key under which this field is written.
    pub fn key(&self) -> (r: &'static str)
        ensures
            r@ == match *self {
                VolumeFrontmatter::Title(_) => "title"@,
                VolumeFrontmatter::Slug(_) => "slug"@,
                VolumeFrontmatter::Description(_) => "description"@,
                VolumeFrontmatter::FreePages(_) => "free_pages"@,
                VolumeFrontmatter::Summary(_) => "summary"@,
            },
    {
        match self {
            VolumeFrontmatter::Title(_) => "title",
            VolumeFrontmatter::Slug(_) => "slug",
            VolumeFrontmatter::Description(_) => "description",
            VolumeFrontmatter::FreePages(_) => "free_pages",
            VolumeFrontmatter::Summary(_) => "summary",
        }
    }
}

/// The fields of a volume's metadata document, in output order: title,
/// slug, description, free_pages, summary.
pub fn volume_metadata<'a>(volume: &'a VolumeData) -> (r: Vec<VolumeFrontmatter<'a>>)
    ensures
        r@.len() == 5,
        r@[0] matches VolumeFrontmatter::Title(t) && t@ == volume.title@,
        r@[1] matches VolumeFrontmatter::Slug(s) && s@ == volume.slug@,
        r@[2] matches VolumeFrontmatter::Description(d) && d@ == volume.description@,
        r@[3] matches VolumeFrontmatter::FreePages(f) && f@ == volume.free_pages@,
        r@[4] matches VolumeFrontmatter::Summary(s) && match (s, volume.summary) {
            (Some(x), Some(y)) => x@ == y@,
            (None, None) => true,
            _ => false,
        },
{
    let summary: Option<&'a str> = match &volume.summary {
        Some(s) => Some(s.as_str()),
        None => None,
    };
    let mut r: Vec<VolumeFrontmatter<'a>> = Vec::new();
    r.push(VolumeFrontmatter::Title(volume.title.as_str()));
    r.push(VolumeFrontmatter::Slug(volume.slug.as_str()));
    r.push(VolumeFrontmatter::Description(volume.description.as_str()));
    r.push(VolumeFrontmatter::FreePages(volume.free_pages.as_slice()));
    r.push(VolumeFrontmatter::Summary(summary));
    r
}

} // verus!
