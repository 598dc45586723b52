//! Ingestion of the older CMS shape, where each page and chapter nests its
//! fields under `attributes`, chunk bodies are under `MDX`, there are no
//! video chunks or quizzes, and a page's order is its position.
use vstd::prelude::*;
use vstd::string::StringExecFns;
use crate::json::{Json, field, text_field, bool_field, get_text, get_bool, json_tree, parse_json_text};
use crate::model::{ChunkType, ChunkData, PageData, PageParent};
use crate::error::{Entity, IngestError, ErrorView, EntityView, Problem, ProblemView, missing, missing_spec, err_view, first_error, lemma_first_error_step, lemma_first_error_prefix, lemma_take_all};
use crate::ingest::{cri_built, parse_cri};
use crate::text::{same_text, views};

verus! {

/// The chunk variant of an older content block: plain or regular.
pub open spec fn legacy_kind(raw: Json) -> ChunkType {
    match text_field(raw, "__component"@) {
        Some(t) => if t == "page.plain-chunk"@ {
            ChunkType::Plain
        } else {
            ChunkType::Regular
        },
        None => ChunkType::Regular,
    }
}

/// The depth that an older header level asks for.
pub open spec fn legacy_depth(level: Option<Seq<char>>) -> usize {
    match level {
        Some(l) => if l == "h3"@ {
            3
        } else if l == "h4"@ {
            4
        } else {
            2
        },
        None => 2,
    }
}

/// The first field that an older content block lacks.
pub open spec fn legacy_chunk_error(raw: Json, page: Seq<char>, index: nat) -> Option<ErrorView> {
    let at = EntityView::Chunk(page, index);
    if text_field(raw, "Header"@) is None {
        Some(missing_spec(at, "Header"@))
    } else if text_field(raw, "Slug"@) is None {
        Some(missing_spec(at, "Slug"@))
    } else if text_field(raw, "MDX"@) is None {
        Some(missing_spec(at, "MDX"@))
    } else {
        None
    }
}

/// `c` is the chunk that a well-formed older content block describes.
pub open spec fn legacy_chunk_built(c: ChunkData, raw: Json) -> bool {
    &&& c.chunk_type == legacy_kind(raw)
    &&& c.title@ == text_field(raw, "Header"@)->0
    &&& c.slug@ == text_field(raw, "Slug"@)->0
    &&& c.content@ == text_field(raw, "MDX"@)->0
    &&& c.depth == legacy_depth(text_field(raw, "HeaderLevel"@))
    &&& c.show_header == (bool_field(raw, "ShowHeader"@) == Some(true))
    &&& cri_built(c.cri, raw, c.slug@)
}

/// The fields of an older page.
pub open spec fn attributes_of(page: Json) -> Option<Json> {
    field(page, "attributes"@)
}

/// The fields of an older page's chapter, under `Chapter.data.attributes`.
pub open spec fn legacy_chapter(attrs: Json) -> Option<Json> {
    match field(attrs, "Chapter"@) {
        Some(c) => if c is Object {
            match field(c, "data"@) {
                Some(d) => field(d, "attributes"@),
                None => None,
            }
        } else {
            None
        },
        None => None,
    }
}

/// The content blocks of an older page's fields.
pub open spec fn legacy_blocks(attrs: Json) -> Seq<Json> {
    match field(attrs, "Content"@) {
        Some(Json::Array(a)) => a@,
        _ => Seq::<Json>::empty(),
    }
}

/// The outcomes of an older page's content blocks, in order.
pub open spec fn legacy_chunk_errors(blocks: Seq<Json>, title: Seq<char>) -> Seq<Option<ErrorView>> {
    Seq::new(blocks.len(), |i: int| legacy_chunk_error(blocks[i], title, i as nat))
}

/// Why the older page at `index` cannot be read, if it cannot.
pub open spec fn legacy_page_error(page: Json, index: nat) -> Option<ErrorView> {
    match attributes_of(page) {
        None => Some(missing_spec(EntityView::PageAt(index), "attributes"@)),
        Some(a) => match text_field(a, "Title"@) {
            None => Some(missing_spec(EntityView::PageAt(index), "Title"@)),
            Some(t) => if text_field(a, "Slug"@) is None {
                Some(missing_spec(EntityView::Page(t), "Slug"@))
            } else if bool_field(a, "HasSummary"@) is None {
                Some(missing_spec(EntityView::Page(t), "HasSummary"@))
            } else if legacy_chapter(a) matches Some(c) && text_field(c, "Title"@) is None {
                Some(missing_spec(EntityView::Chapter(t), "Title"@))
            } else if legacy_chapter(a) matches Some(c) && text_field(c, "Slug"@) is None {
                Some(missing_spec(EntityView::Chapter(t), "Slug"@))
            } else {
                first_error(legacy_chunk_errors(legacy_blocks(a), t))
            },
        },
    }
}

/// `p` is the page that a well-formed older page at `index` describes.
pub open spec fn legacy_page_built(p: PageData, page: Json, index: nat) -> bool {
    let a = attributes_of(page)->0;
    let blocks = legacy_blocks(a);
    &&& p.title@ == text_field(a, "Title"@)->0
    &&& p.slug@ == text_field(a, "Slug"@)->0
    &&& p.order == index
    &&& views(p.assignments@) == (if bool_field(a, "HasSummary"@) == Some(true) {
        seq!["summary"@]
    } else {
        Seq::<Seq<char>>::empty()
    })
    &&& match legacy_chapter(a) {
        Some(c) => p.parent matches Some(x) && x.title@ == text_field(c, "Title"@)->0 && x.slug@ == text_field(c, "Slug"@)->0,
        None => p.parent is None,
    }
    &&& p.quiz is None
    &&& p.chunks@.len() == blocks.len()
    &&& forall|i: int| 0 <= i < blocks.len() ==> legacy_chunk_built(#[trigger] p.chunks@[i], blocks[i])
}

/// The outcomes of the older pages, in order.
pub open spec fn legacy_page_errors(pages: Seq<Json>) -> Seq<Option<ErrorView>> {
    Seq::new(pages.len(), |i: int| legacy_page_error(pages[i], i as nat))
}

/// Parses an older content block.
pub fn parse_legacy_chunk(chunk: &Json, index: usize, page_title: &str) -> (r: Result<ChunkData, IngestError>)
    ensures
        match legacy_chunk_error(*chunk, page_title@, index as nat) {
            Some(e) => r is Err && err_view(r) == e,
            None => r matches Ok(c) && legacy_chunk_built(c, *chunk),
        },
{
    let chunk_title = match get_text(chunk, "Header") {
        Some(t) => t,
        None => return Err(missing(Entity::Chunk(String::from_str(page_title), index), "Header")),
    };
    let chunk_slug = match get_text(chunk, "Slug") {
        Some(s) => s,
        None => return Err(missing(Entity::Chunk(String::from_str(page_title), index), "Slug")),
    };
    let content = match get_text(chunk, "MDX") {
        Some(c) => c,
        None => return Err(missing(Entity::Chunk(String::from_str(page_title), index), "MDX")),
    };
    let show_header = match get_bool(chunk, "ShowHeader") {
        Some(b) => b,
        None => false,
    };
    let chunk_type = match get_text(chunk, "__component") {
        Some(c) => if same_text(c.as_str(), "page.plain-chunk") {
            ChunkType::Plain
        } else {
            ChunkType::Regular
        },
        None => ChunkType::Regular,
    };
    let cri = parse_cri(chunk, chunk_slug.as_str());
    let depth = match get_text(chunk, "HeaderLevel") {
        Some(l) => if same_text(l.as_str(), "h3") {
            3
        } else if same_text(l.as_str(), "h4") {
            4
        } else {
            2
        },
        None => 2,
    };
    Ok(ChunkData { title: chunk_title, slug: chunk_slug, depth, content, cri, show_header, chunk_type })
}

/// The chapter fields of an older page's fields.
fn legacy_chapter_of(attrs: &Json) -> (r: Option<&Json>)
    ensures
        match r {
            Some(c) => legacy_chapter(*attrs) == Some(*c),
            None => legacy_chapter(*attrs) is None,
        },
{
    match attrs.get("Chapter") {
        Some(c) => match c {
            Json::Object(_) => match c.get("data") {
                Some(d) => d.get("attributes"),
                None => None,
            },
            _ => None,
        },
        None => None,
    }
}

/// Parses the older page at position `index`; its order is that position.
pub fn parse_legacy_page(page: &Json, index: usize) -> (r: Result<PageData, IngestError>)
    ensures
        match legacy_page_error(*page, index as nat) {
            Some(e) => r is Err && err_view(r) == e,
            None => r matches Ok(p) && legacy_page_built(p, *page, index as nat),
        },
{
    let attrs = match page.get("attributes") {
        Some(a) => a,
        None => return Err(missing(Entity::PageAt(index), "attributes")),
    };
    let title = match get_text(attrs, "Title") {
        Some(t) => t,
        None => return Err(missing(Entity::PageAt(index), "Title")),
    };
    let slug = match get_text(attrs, "Slug") {
        Some(s) => s,
        None => return Err(missing(Entity::Page(title.clone()), "Slug")),
    };
    let has_summary = match get_bool(attrs, "HasSummary") {
        Some(b) => b,
        None => return Err(missing(Entity::Page(title.clone()), "HasSummary")),
    };
    let mut assignments: Vec<String> = Vec::new();
    if has_summary {
        assignments.push(String::from_str("summary"));
    }
    let parent = match legacy_chapter_of(attrs) {
        Some(c) => {
            let t = match get_text(c, "Title") {
                Some(t) => t,
                None => return Err(missing(Entity::Chapter(title.clone()), "Title")),
            };
            let s = match get_text(c, "Slug") {
                Some(s) => s,
                None => return Err(missing(Entity::Chapter(title.clone()), "Slug")),
            };
            Some(PageParent::new(t, s))
        },
        None => None,
    };
    let empty: Vec<Json> = Vec::new();
    let blocks: &Vec<Json> = match attrs.get("Content") {
        Some(c) => match c.as_array() {
            Some(a) => a,
            None => &empty,
        },
        None => &empty,
    };
    assert(blocks@ == legacy_blocks(*attrs));
    let ghost errs = legacy_chunk_errors(blocks@, title@);
    let mut chunks: Vec<ChunkData> = Vec::new();
    let mut i: usize = 0;
    while i < blocks.len()
        invariant
            i <= blocks@.len(),
            blocks@ == legacy_blocks(*attrs),
            attributes_of(*page) == Some(*attrs),
            text_field(*attrs, "Title"@) == Some(title@),
            text_field(*attrs, "Slug"@) is Some,
            bool_field(*attrs, "HasSummary"@) is Some,
            legacy_chapter(*attrs) matches Some(c) ==> text_field(c, "Title"@) is Some && text_field(c, "Slug"@) is Some,
            errs == legacy_chunk_errors(blocks@, title@),
            first_error(errs.take(i as int)) is None,
            chunks@.len() == i,
            forall|k: int| 0 <= k < i ==> legacy_chunk_built(#[trigger] chunks@[k], blocks@[k]),
        decreases blocks.len() - i,
    {
        proof { lemma_first_error_step(errs, i as int); }
        match parse_legacy_chunk(&blocks[i], i, title.as_str()) {
            Ok(c) => chunks.push(c),
            Err(e) => {
                proof { lemma_first_error_prefix(errs, i + 1); }
                return Err(e);
            },
        }
        i = i + 1;
    }
    proof { lemma_take_all(errs); }
    assert(views(assignments@) =~= (if bool_field(*attrs, "HasSummary"@) == Some(true) {
        seq!["summary"@]
    } else {
        Seq::<Seq<char>>::empty()
    }));
    Ok(PageData { title, slug, parent, order: index, assignments, quiz: None, chunks })
}

/// Parses every older page, in order; the first page that cannot be read
/// fails the whole.
pub fn clean_pages(pages: &Vec<Json>) -> (r: Result<Vec<PageData>, IngestError>)
    ensures
        match first_error(legacy_page_errors(pages@)) {
            Some(e) => r is Err && err_view(r) == e,
            None => r matches Ok(ps) && ps@.len() == pages@.len()
                && forall|i: int| 0 <= i < ps@.len() ==> legacy_page_built(#[trigger] ps@[i], pages@[i], i as nat),
        },
{
    let ghost errs = legacy_page_errors(pages@);
    let mut out: Vec<PageData> = Vec::new();
    let mut i: usize = 0;
    while i < pages.len()
        invariant
            i <= pages@.len(),
            errs == legacy_page_errors(pages@),
            first_error(errs.take(i as int)) is None,
            out@.len() == i,
            forall|k: int| 0 <= k < i ==> legacy_page_built(#[trigger] out@[k], pages@[k], k as nat),
        decreases pages.len() - i,
    {
        proof { lemma_first_error_step(errs, i as int); }
        match parse_legacy_page(&pages[i], i) {
            Ok(p) => out.push(p),
            Err(e) => {
                proof { lemma_first_error_prefix(errs, i + 1); }
                return Err(e);
            },
        }
        i = i + 1;
    }
    proof { lemma_take_all(errs); }
    Ok(out)
}

/// The raw pages of an older volume document, under
/// `data.attributes.Pages.data`.
pub open spec fn legacy_raw_pages(doc: Json) -> Option<Seq<Json>> {
    match field(doc, "data"@) {
        Some(d) => match field(d, "attributes"@) {
            Some(a) => match field(a, "Pages"@) {
                Some(p) => match field(p, "data"@) {
                    Some(Json::Array(list)) => Some(list@),
                    _ => None,
                },
                None => None,
            },
            None => None,
        },
        None => None,
    }
}

/// The field that an older volume document lacks on the way to its pages.
pub open spec fn legacy_pages_missing(doc: Json) -> Seq<char> {
    match field(doc, "data"@) {
        Some(d) => if field(d, "attributes"@) is None {
            "attributes"@
        } else {
            "Pages"@
        },
        None => "data"@,
    }
}

/// Finds the raw pages of an older volume document.
pub fn legacy_pages(doc: &Json) -> (r: Result<&Vec<Json>, IngestError>)
    ensures
        match r {
            Ok(pages) => legacy_raw_pages(*doc) == Some(pages@),
            Err(e) => legacy_raw_pages(*doc) is None
                && e@ == missing_spec(EntityView::Volume, legacy_pages_missing(*doc)),
        },
{
    let data = match doc.get("data") {
        Some(d) => d,
        None => return Err(missing(Entity::Volume, "data")),
    };
    let attrs = match data.get("attributes") {
        Some(a) => a,
        None => return Err(missing(Entity::Volume, "attributes")),
    };
    match attrs.get("Pages") {
        Some(p) => match p.get("data") {
            Some(d) => match d.as_array() {
                Some(list) => Ok(list),
                None => Err(missing(Entity::Volume, "Pages")),
            },
            None => Err(missing(Entity::Volume, "Pages")),
        },
        None => Err(missing(Entity::Volume, "Pages")),
    }
}

/// Reads the pages of an older volume document from its JSON text.
pub fn legacy_pages_from_text(text: &str) -> (r: Result<Vec<PageData>, IngestError>)
    ensures
        match json_tree(text@) {
            None => r is Err && err_view(r) == (ErrorView { entity: EntityView::Volume, problem: ProblemView::NotJson }),
            Some(doc) => match legacy_raw_pages(doc) {
                None => r is Err && err_view(r) == missing_spec(EntityView::Volume, legacy_pages_missing(doc)),
                Some(pages) => match first_error(legacy_page_errors(pages)) {
                    Some(e) => r is Err && err_view(r) == e,
                    None => r matches Ok(ps) && ps@.len() == pages.len()
                        && forall|i: int| 0 <= i < ps@.len() ==> legacy_page_built(#[trigger] ps@[i], pages[i], i as nat),
                },
            },
        },
{
    let doc = match parse_json_text(text) {
        Some(d) => d,
        None => return Err(IngestError { entity: Entity::Volume, problem: Problem::NotJson }),
    };
    let pages = legacy_pages(&doc)?;
    clean_pages(pages)
}

} // verus!
