//! Turns the CMS's loosely typed JSON into the canonical model.
use vstd::prelude::*;
use vstd::string::StringExecFns;
use vstd::string::StrSliceExecFns;
use crate::json::{Json, text_field, bool_field, usize_field, field, get_text, get_bool, get_usize, opt_view, lookup, json_tree, parse_json_text};
use crate::model::{ChunkType, QuestionAnswer, ChunkData, PageData, PageParent, VolumeData};
use crate::quiz::{quiz_entries, quiz_error, quiz_built, parse_quiz};
use crate::text::{split_on, split_spec, views, chars_of, same_text};
use crate::error::{Entity, IngestError, ErrorView, EntityView, Problem, ProblemView, missing, missing_spec, err_view, first_error, lemma_first_error_step, lemma_first_error_prefix, lemma_take_all};

verus! {

// ---------------------------------------------------------------------------
// Chunks

/// The chunk variant that a content block's discriminant selects.
pub open spec fn chunk_kind(raw: Json) -> ChunkType {
    match text_field(raw, "__component"@) {
        Some(t) => if t == "page.plain-chunk"@ {
            ChunkType::Plain
        } else if t == "page.video"@ {
            ChunkType::Video
        } else {
            ChunkType::Regular
        },
        None => ChunkType::Regular,
    }
}

/// The heading depth that a header-level field asks for.
pub open spec fn depth_of(level: Option<Seq<char>>) -> usize {
    match level {
        Some(l) => if l == "h3"@ || l == "H3"@ {
            3
        } else if l == "h4"@ || l == "H4"@ {
            4
        } else {
            2
        },
        None => 2,
    }
}

/// The text after the first `v=` in `s`, if any.
pub open spec fn after_video_key(s: Seq<char>) -> Option<Seq<char>>
    decreases s.len(),
{
    if s.len() < 2 {
        None
    } else if s[0] == 'v' && s[1] == '=' {
        Some(s.subrange(2, s.len() as int))
    } else {
        after_video_key(s.drop_first())
    }
}

/// The text of `s` before its first `&`.
pub open spec fn before_ampersand(s: Seq<char>) -> Seq<char>
    decreases s.len(),
{
    if s.len() == 0 {
        s
    } else if s[0] == '&' {
        Seq::<char>::empty()
    } else {
        seq![s[0]] + before_ampersand(s.drop_first())
    }
}

/// The embed id of a video URL: the value of its first `v=` up to the next
/// `&`; empty when there is no `v=`.
pub open spec fn video_id_spec(url: Seq<char>) -> Seq<char> {
    match after_video_key(url) {
        Some(rest) => before_ampersand(rest),
        None => Seq::<char>::empty(),
    }
}

/// The body of a video chunk: its description, then the embed element.
pub open spec fn video_content_spec(description: Seq<char>, id: Seq<char>) -> Seq<char> {
    description + "\n\n<i-youtube videoid=\""@ + id + "\" height={400} width=\"100%\" >\n\n</i-youtube>\n\n"@
}

/// The constructed-response item of a content block: present exactly when
/// both its question and its answer are.
pub open spec fn cri_built(cri: Option<QuestionAnswer>, raw: Json, slug: Seq<char>) -> bool {
    match (text_field(raw, "Question"@), text_field(raw, "ConstructedResponse"@)) {
        (Some(q), Some(a)) => cri matches Some(c) && c.question@ == q && c.answer@ == a && c.slug@ == slug,
        _ => cri is None,
    }
}

/// The first required field that a content block lacks, as an error.
pub open spec fn chunk_error(raw: Json, page: Seq<char>, index: nat) -> Option<ErrorView> {
    let at = EntityView::Chunk(page, index);
    let body_key = if chunk_kind(raw) == ChunkType::Video { "URL"@ } else { "MD"@ };
    if text_field(raw, "Header"@) is None {
        Some(missing_spec(at, "Header"@))
    } else if chunk_kind(raw) == ChunkType::Video && text_field(raw, "URL"@) is None {
        Some(missing_spec(at, "URL"@))
    } else if text_field(raw, "Slug"@) is None {
        Some(missing_spec(at, "Slug"@))
    } else if chunk_kind(raw) != ChunkType::Video && text_field(raw, "MD"@) is None {
        Some(missing_spec(at, "MD"@))
    } else {
        None
    }
}

/// `c` is the chunk that a well-formed content block `raw` describes.
pub open spec fn chunk_built(c: ChunkData, raw: Json) -> bool {
    let kind = chunk_kind(raw);
    &&& c.chunk_type == kind
    &&& c.title@ == text_field(raw, "Header"@)->0
    &&& c.slug@ == text_field(raw, "Slug"@)->0
    &&& cri_built(c.cri, raw, c.slug@)
    &&& if kind == ChunkType::Video {
        let description = match text_field(raw, "Description"@) {
            Some(d) => d,
            None => Seq::<char>::empty(),
        };
        &&& c.depth == 2
        &&& c.show_header
        &&& c.content@ == video_content_spec(description, video_id_spec(text_field(raw, "URL"@)->0))
    } else {
        &&& c.depth == depth_of(text_field(raw, "HeaderLevel"@))
        &&& c.show_header == (bool_field(raw, "ShowHeader"@) == Some(true))
        &&& c.content@ == text_field(raw, "MD"@)->0
    }
}

/// Reads the constructed-response item of a content block.
pub fn parse_cri(chunk: &Json, chunk_slug: &str) -> (r: Option<QuestionAnswer>)
    ensures
        cri_built(r, *chunk, chunk_slug@),
{
    let question = match get_text(chunk, "Question") {
        Some(q) => q,
        None => return None,
    };
    let answer = match get_text(chunk, "ConstructedResponse") {
        Some(a) => a,
        None => return None,
    };
    Some(QuestionAnswer { question, answer, slug: String::from_str(chunk_slug) })
}

/// The embed id of a video URL.
pub fn video_id(url: &str) -> (r: String)
    ensures
        r@ == video_id_spec(url@),
{
    let cs = chars_of(url);
    let n = cs.len();
    let mut i: usize = 0;
    assert(url@.subrange(0, n as int) =~= url@);
    while n - i > 1 && !(cs[i] == 'v' && cs[i + 1] == '=')
        invariant
            cs@ == url@,
            n == cs@.len(),
            i <= n,
            after_video_key(url@) == after_video_key(url@.subrange(i as int, n as int)),
        decreases n - i,
    {
        assert(url@.subrange(i as int, n as int).drop_first() =~= url@.subrange(i + 1, n as int));
        i = i + 1;
    }
    if n - i <= 1 {
        return String::new();
    }
    let start = i + 2;
    assert(url@.subrange(i as int, n as int).subrange(2, n - i) =~= url@.subrange(start as int, n as int));
    let ghost rest = url@.subrange(start as int, n as int);
    let mut j: usize = start;
    assert(url@.subrange(start as int, start as int) =~= Seq::<char>::empty());
    assert(rest =~= url@.subrange(start as int, start as int) + url@.subrange(start as int, n as int));
    while j < n && cs[j] != '&'
        invariant
            cs@ == url@,
            n == cs@.len(),
            start <= j <= n,
            rest == url@.subrange(start as int, n as int),
            before_ampersand(rest) == url@.subrange(start as int, j as int) + before_ampersand(url@.subrange(j as int, n as int)),
        decreases n - j,
    {
        let ghost tail = url@.subrange(j as int, n as int);
        assert(tail.drop_first() =~= url@.subrange(j + 1, n as int));
        assert(url@.subrange(start as int, j as int) + seq![tail[0]] =~= url@.subrange(start as int, j + 1));
        assert(before_ampersand(tail) == seq![tail[0]] + before_ampersand(tail.drop_first()));
        assert(url@.subrange(start as int, j as int) + (seq![tail[0]] + before_ampersand(tail.drop_first()))
            =~= url@.subrange(start as int, j + 1) + before_ampersand(tail.drop_first()));
        j = j + 1;
    }
    let ghost tail = url@.subrange(j as int, n as int);
    assert(before_ampersand(tail) =~= Seq::<char>::empty());
    assert(url@.subrange(start as int, j as int) + Seq::<char>::empty() =~= url@.subrange(start as int, j as int));
    String::from_str(url.substring_char(start, j))
}

/// The chunk variant that a content block's discriminant selects.
pub fn chunk_kind_of(chunk: &Json) -> (r: ChunkType)
    ensures
        r == chunk_kind(*chunk),
{
    match get_text(chunk, "__component") {
        Some(t) => if same_text(t.as_str(), "page.plain-chunk") {
            ChunkType::Plain
        } else if same_text(t.as_str(), "page.video") {
            ChunkType::Video
        } else {
            ChunkType::Regular
        },
        None => ChunkType::Regular,
    }
}

/// The heading depth that a header level asks for.
pub fn depth_from_level(level: Option<String>) -> (r: usize)
    ensures
        r == depth_of(opt_view(level)),
{
    match level {
        Some(l) => if same_text(l.as_str(), "h3") || same_text(l.as_str(), "H3") {
            3
        } else if same_text(l.as_str(), "h4") || same_text(l.as_str(), "H4") {
            4
        } else {
            2
        },
        None => 2,
    }
}

/// Parses a video block: its body is the description followed by an embed
/// of the video that its URL names.
pub fn parse_video(chunk: &Json, index: usize, page_title: &str) -> (r: Result<ChunkData, IngestError>)
    requires
        chunk_kind(*chunk) == ChunkType::Video,
    ensures
        match chunk_error(*chunk, page_title@, index as nat) {
            Some(e) => r is Err && err_view(r) == e,
            None => r matches Ok(c) && chunk_built(c, *chunk),
        },
{
    let title = match get_text(chunk, "Header") {
        Some(t) => t,
        None => return Err(missing(Entity::Chunk(String::from_str(page_title), index), "Header")),
    };
    let video_url = match get_text(chunk, "URL") {
        Some(u) => u,
        None => return Err(missing(Entity::Chunk(String::from_str(page_title), index), "URL")),
    };
    let chunk_slug = match get_text(chunk, "Slug") {
        Some(s) => s,
        None => return Err(missing(Entity::Chunk(String::from_str(page_title), index), "Slug")),
    };
    let cri = parse_cri(chunk, chunk_slug.as_str());
    let id = video_id(video_url.as_str());
    let mut content = match get_text(chunk, "Description") {
        Some(d) => d,
        None => String::new(),
    };
    content.append("\n\n<i-youtube videoid=\"");
    content.append(id.as_str());
    content.append("\" height={400} width=\"100%\" >\n\n</i-youtube>\n\n");
    Ok(ChunkData {
        title,
        slug: chunk_slug,
        depth: 2,
        content,
        cri,
        show_header: true,
        chunk_type: ChunkType::Video,
    })
}

/// Parses a regular or plain block.
pub fn parse_regular_chunk(chunk: &Json, index: usize, page_title: &str, chunk_type: ChunkType) -> (r: Result<ChunkData, IngestError>)
    requires
        chunk_kind(*chunk) == chunk_type,
        chunk_type != ChunkType::Video,
    ensures
        match chunk_error(*chunk, page_title@, index as nat) {
            Some(e) => r is Err && err_view(r) == e,
            None => r matches Ok(c) && chunk_built(c, *chunk),
        },
{
    let chunk_title = match get_text(chunk, "Header") {
        Some(t) => t,
        None => return Err(missing(Entity::Chunk(String::from_str(page_title), index), "Header")),
    };
    let chunk_slug = match get_text(chunk, "Slug") {
        Some(s) => s,
        None => return Err(missing(Entity::Chunk(String::from_str(page_title), index), "Slug")),
    };
    let content = match get_text(chunk, "MD") {
        Some(c) => c,
        None => return Err(missing(Entity::Chunk(String::from_str(page_title), index), "MD")),
    };
    let show_header = match get_bool(chunk, "ShowHeader") {
        Some(b) => b,
        None => false,
    };
    let cri = parse_cri(chunk, chunk_slug.as_str());
    let depth = depth_from_level(get_text(chunk, "HeaderLevel"));
    Ok(ChunkData { title: chunk_title, slug: chunk_slug, depth, content, cri, show_header, chunk_type })
}

/// Parses a content block into the chunk variant that its discriminant
/// selects.
pub fn parse_chunk(chunk: &Json, index: usize, page_title: &str) -> (r: Result<ChunkData, IngestError>)
    ensures
        match chunk_error(*chunk, page_title@, index as nat) {
            Some(e) => r is Err && err_view(r) == e,
            None => r matches Ok(c) && chunk_built(c, *chunk),
        },
{
    let chunk_type = chunk_kind_of(chunk);
    match chunk_type {
        ChunkType::Video => parse_video(chunk, index, page_title),
        _ => parse_regular_chunk(chunk, index, page_title, chunk_type),
    }
}

// ---------------------------------------------------------------------------
// Pages

/// The content blocks of a page; none when it has no list of them.
pub open spec fn content_blocks(raw: Json) -> Seq<Json> {
    match field(raw, "Content"@) {
        Some(Json::Array(a)) => a@,
        _ => Seq::<Json>::empty(),
    }
}

/// The outcomes of a page's content blocks, in order.
pub open spec fn chunk_errors(blocks: Seq<Json>, title: Seq<char>) -> Seq<Option<ErrorView>> {
    Seq::new(blocks.len(), |i: int| chunk_error(blocks[i], title, i as nat))
}

/// The chapter reference of a page, when it has a non-null one.
pub open spec fn chapter_of(raw: Json) -> Option<Json> {
    match field(raw, "Chapter"@) {
        Some(c) => if c is Null {
            None
        } else {
            Some(c)
        },
        None => None,
    }
}

/// The first field that a page's chapter reference lacks.
pub open spec fn parent_error(raw: Json, title: Seq<char>) -> Option<ErrorView> {
    match chapter_of(raw) {
        Some(c) => if text_field(c, "Title"@) is None {
            Some(missing_spec(EntityView::Chapter(title), "Title"@))
        } else if text_field(c, "Slug"@) is None {
            Some(missing_spec(EntityView::Chapter(title), "Slug"@))
        } else {
            None
        },
        None => None,
    }
}

/// Why the page at position `index` cannot be read, if it cannot: the first
/// of its title, slug, summary flag, chapter, quiz, chunks and order to fail.
pub open spec fn page_error(raw: Json, index: nat) -> Option<ErrorView> {
    match text_field(raw, "Title"@) {
        None => Some(missing_spec(EntityView::PageAt(index), "Title"@)),
        Some(t) => if text_field(raw, "Slug"@) is None {
            Some(missing_spec(EntityView::Page(t), "Slug"@))
        } else if bool_field(raw, "HasSummary"@) is None {
            Some(missing_spec(EntityView::Page(t), "HasSummary"@))
        } else if parent_error(raw, t) is Some {
            parent_error(raw, t)
        } else if quiz_error(raw, t) is Some {
            quiz_error(raw, t)
        } else if first_error(chunk_errors(content_blocks(raw), t)) is Some {
            first_error(chunk_errors(content_blocks(raw), t))
        } else if usize_field(raw, "Order"@) is None {
            Some(missing_spec(EntityView::Page(t), "Order"@))
        } else {
            None
        },
    }
}

/// A page's assignments: "summary" when it has a summary, then "quiz" when
/// it has a quiz.
pub open spec fn assignments_spec(raw: Json) -> Seq<Seq<char>> {
    let summary = if bool_field(raw, "HasSummary"@) == Some(true) {
        seq!["summary"@]
    } else {
        Seq::<Seq<char>>::empty()
    };
    let quiz = if quiz_entries(raw) matches Some(e) && e.len() > 0 {
        seq!["quiz"@]
    } else {
        Seq::<Seq<char>>::empty()
    };
    summary + quiz
}

/// `p` is the parent that a page's chapter reference describes.
pub open spec fn parent_built(p: Option<PageParent>, raw: Json) -> bool {
    match chapter_of(raw) {
        Some(c) => p matches Some(x) && x.title@ == text_field(c, "Title"@)->0 && x.slug@ == text_field(c, "Slug"@)->0,
        None => p is None,
    }
}

/// `p` is the page that a well-formed raw page describes.
pub open spec fn page_built(p: PageData, raw: Json) -> bool {
    let blocks = content_blocks(raw);
    &&& p.title@ == text_field(raw, "Title"@)->0
    &&& p.slug@ == text_field(raw, "Slug"@)->0
    &&& p.order == usize_field(raw, "Order"@)->0
    &&& views(p.assignments@) == assignments_spec(raw)
    &&& parent_built(p.parent, raw)
    &&& quiz_built(p.quiz, raw)
    &&& p.chunks@.len() == blocks.len()
    &&& forall|i: int| 0 <= i < blocks.len() ==> chunk_built(#[trigger] p.chunks@[i], blocks[i])
}

/// The outcomes of a volume's raw pages, in order.
pub open spec fn page_errors(pages: Seq<Json>) -> Seq<Option<ErrorView>> {
    Seq::new(pages.len(), |i: int| page_error(pages[i], i as nat))
}

/// Parses a page's chapter reference.
fn parse_parent(page: &Json, title: &String) -> (r: Result<Option<PageParent>, IngestError>)
    ensures
        match parent_error(*page, title@) {
            Some(e) => r is Err && err_view(r) == e,
            None => r matches Ok(p) && parent_built(p, *page),
        },
{
    match page.get("Chapter") {
        Some(c) => {
            if c.is_null() {
                return Ok(None);
            }
            let t = match get_text(c, "Title") {
                Some(t) => t,
                None => return Err(missing(Entity::Chapter(title.clone()), "Title")),
            };
            let s = match get_text(c, "Slug") {
                Some(s) => s,
                None => return Err(missing(Entity::Chapter(title.clone()), "Slug")),
            };
            Ok(Some(PageParent::new(t, s)))
        },
        None => Ok(None),
    }
}

/// Parses the content blocks of a page, in order.
fn parse_chunks(page: &Json, title: &String) -> (r: Result<Vec<ChunkData>, IngestError>)
    ensures
        match first_error(chunk_errors(content_blocks(*page), title@)) {
            Some(e) => r is Err && err_view(r) == e,
            None => r matches Ok(cs) && cs@.len() == content_blocks(*page).len()
                && forall|i: int| 0 <= i < cs@.len() ==> chunk_built(#[trigger] cs@[i], content_blocks(*page)[i]),
        },
{
    let empty: Vec<Json> = Vec::new();
    let blocks: &Vec<Json> = match page.get("Content") {
        Some(c) => match c.as_array() {
            Some(a) => a,
            None => &empty,
        },
        None => &empty,
    };
    assert(blocks@ == content_blocks(*page));
    let ghost errs = chunk_errors(blocks@, title@);
    let mut chunks: Vec<ChunkData> = Vec::new();
    let mut i: usize = 0;
    while i < blocks.len()
        invariant
            i <= blocks@.len(),
            blocks@ == content_blocks(*page),
            errs == chunk_errors(blocks@, title@),
            first_error(errs.take(i as int)) is None,
            chunks@.len() == i,
            forall|k: int| 0 <= k < i ==> chunk_built(#[trigger] chunks@[k], blocks@[k]),
        decreases blocks.len() - i,
    {
        proof { lemma_first_error_step(errs, i as int); }
        match parse_chunk(&blocks[i], i, title.as_str()) {
            Ok(c) => chunks.push(c),
            Err(e) => {
                proof { lemma_first_error_prefix(errs, i + 1); }
                return Err(e);
            },
        }
        i = i + 1;
    }
    proof { lemma_take_all(errs); }
    Ok(chunks)
}

/// Parses the raw page at position `index`.
pub fn parse_page(page: &Json, index: usize) -> (r: Result<PageData, IngestError>)
    ensures
        match page_error(*page, index as nat) {
            Some(e) => r is Err && err_view(r) == e,
            None => r matches Ok(p) && page_built(p, *page),
        },
{
    let title = match get_text(page, "Title") {
        Some(t) => t,
        None => return Err(missing(Entity::PageAt(index), "Title")),
    };
    let slug = match get_text(page, "Slug") {
        Some(s) => s,
        None => return Err(missing(Entity::Page(title.clone()), "Slug")),
    };
    let has_summary = match get_bool(page, "HasSummary") {
        Some(b) => b,
        None => return Err(missing(Entity::Page(title.clone()), "HasSummary")),
    };
    let mut assignments: Vec<String> = Vec::new();
    if has_summary {
        assignments.push(String::from_str("summary"));
    }
    let parent = parse_parent(page, &title)?;
    let quiz = parse_quiz(page, title.as_str())?;
    if quiz.is_some() {
        assignments.push(String::from_str("quiz"));
    }
    let chunks = parse_chunks(page, &title)?;
    let order = match get_usize(page, "Order") {
        Some(o) => o,
        None => return Err(missing(Entity::Page(title.clone()), "Order")),
    };
    assert(views(assignments@) =~= assignments_spec(*page));
    Ok(PageData { title, slug, parent, order, assignments, quiz, chunks })
}

/// Parses every raw page of a volume, in order; the first page that cannot
/// be read fails the whole.
pub fn collect_pages(resp: &VolumeData) -> (r: Result<Vec<PageData>, IngestError>)
    ensures
        match first_error(page_errors(resp.pages@)) {
            Some(e) => r is Err && err_view(r) == e,
            None => r matches Ok(ps) && ps@.len() == resp.pages@.len()
                && forall|i: int| 0 <= i < ps@.len() ==> page_built(#[trigger] ps@[i], resp.pages@[i]),
        },
{
    let ghost errs = page_errors(resp.pages@);
    let mut pages: Vec<PageData> = Vec::new();
    let mut i: usize = 0;
    while i < resp.pages.len()
        invariant
            i <= resp.pages@.len(),
            errs == page_errors(resp.pages@),
            first_error(errs.take(i as int)) is None,
            pages@.len() == i,
            forall|k: int| 0 <= k < i ==> page_built(#[trigger] pages@[k], resp.pages@[k]),
        decreases resp.pages.len() - i,
    {
        proof { lemma_first_error_step(errs, i as int); }
        match parse_page(&resp.pages[i], i) {
            Ok(p) => pages.push(p),
            Err(e) => {
                proof { lemma_first_error_prefix(errs, i + 1); }
                return Err(e);
            },
        }
        i = i + 1;
    }
    proof { lemma_take_all(errs); }
    Ok(pages)
}

// ---------------------------------------------------------------------------
// The volume

/// The non-empty pieces among `ps`, in order.
pub open spec fn nonempty_pieces(ps: Seq<Seq<char>>) -> Seq<Seq<char>>
    decreases ps.len(),
{
    if ps.len() == 0 {
        ps
    } else if ps.last().len() > 0 {
        nonempty_pieces(ps.drop_last()).push(ps.last())
    } else {
        nonempty_pieces(ps.drop_last())
    }
}

/// The free pages that a comma-separated list names, empty names dropped.
pub open spec fn free_pages_spec(list: Option<Seq<char>>) -> Seq<Seq<char>> {
    match list {
        Some(l) => nonempty_pieces(split_spec(l, ',')),
        None => Seq::<Seq<char>>::empty(),
    }
}

/// The `data` object of a volume document.
pub open spec fn volume_data(doc: Json) -> Option<Json> {
    field(doc, "data"@)
}

/// The raw pages of a volume's data, if it lists them.
pub open spec fn raw_pages(data: Json) -> Option<Seq<Json>> {
    match field(data, "Pages"@) {
        Some(Json::Array(a)) => Some(a@),
        _ => None,
    }
}

/// Why a volume document cannot be read, if it cannot.
pub open spec fn volume_error(doc: Json) -> Option<ErrorView> {
    match volume_data(doc) {
        None => Some(missing_spec(EntityView::Volume, "data"@)),
        Some(d) => if raw_pages(d) is None {
            Some(missing_spec(EntityView::Volume, "Pages"@))
        } else if text_field(d, "Title"@) is None {
            Some(missing_spec(EntityView::Volume, "Title"@))
        } else if text_field(d, "Description"@) is None {
            Some(missing_spec(EntityView::Volume, "Description"@))
        } else if text_field(d, "Slug"@) is None {
            Some(missing_spec(EntityView::Volume, "Slug"@))
        } else {
            None
        },
    }
}

/// `v` is the volume that a well-formed volume document describes.
pub open spec fn volume_built(v: VolumeData, doc: Json) -> bool {
    let d = volume_data(doc)->0;
    &&& v.title@ == text_field(d, "Title"@)->0
    &&& v.description@ == text_field(d, "Description"@)->0
    &&& v.slug@ == text_field(d, "Slug"@)->0
    &&& opt_view(v.summary) == text_field(d, "VolumeSummary"@)
    &&& views(v.free_pages@) == free_pages_spec(text_field(d, "FreePages"@))
    &&& v.pages@ == raw_pages(d)->0
}

/// Takes the field `key` out of an object.
fn take_field(v: Json, key: &str) -> (r: Option<Json>)
    ensures
        r == field(v, key@),
{
    match v {
        Json::Object(mut entries) => {
            let ghost all = entries@;
            let k = String::from_str(key);
            let mut i: usize = 0;
            assert(all.subrange(0, all.len() as int) =~= all);
            while i < entries.len()
                invariant
                    entries@ == all,
                    field(v, key@) == lookup(all, key@),
                    i <= all.len(),
                    k@ == key@,
                    lookup(all, key@) == lookup(all.subrange(i as int, all.len() as int), key@),
                decreases entries.len() - i,
            {
                let ghost rest = all.subrange(i as int, all.len() as int);
                assert(rest.drop_first() =~= all.subrange(i + 1, all.len() as int));
                assert(rest[0] == all[i as int]);
                if entries[i].0 == k {
                    assert(lookup(rest, key@) == Some(all[i as int].1));
                    let (_, x) = entries.swap_remove(i);
                    return Some(x);
                }
                i = i + 1;
            }
            None
        },
        _ => None,
    }
}

/// The non-empty names of a comma-separated list, in order.
pub fn split_free_pages(list: &str) -> (r: Vec<String>)
    ensures
        views(r@) == nonempty_pieces(split_spec(list@, ',')),
{
    let pieces = split_on(list, ',');
    let mut r: Vec<String> = Vec::new();
    let mut i: usize = 0;
    while i < pieces.len()
        invariant
            i <= pieces@.len(),
            views(pieces@) == split_spec(list@, ','),
            views(r@) == nonempty_pieces(views(pieces@).take(i as int)),
        decreases pieces.len() - i,
    {
        let ghost pre = views(pieces@).take(i as int);
        assert(views(pieces@).take(i + 1).drop_last() =~= pre);
        let ghost before = r@;
        if pieces[i].as_str().unicode_len() > 0 {
            r.push(pieces[i].clone());
            assert(views(r@) =~= views(before).push(pieces@[i as int]@));
        }
        i = i + 1;
    }
    assert(views(pieces@).take(pieces@.len() as int) =~= views(pieces@));
    r
}

/// Reads a volume document: its title, description, slug, optional summary,
/// free pages and raw pages.
pub fn volume_from_json(doc: Json) -> (r: Result<VolumeData, IngestError>)
    ensures
        match volume_error(doc) {
            Some(e) => r is Err && err_view(r) == e,
            None => r matches Ok(v) && volume_built(v, doc),
        },
{
    let data = match take_field(doc, "data") {
        Some(d) => d,
        None => return Err(missing(Entity::Volume, "data")),
    };
    let has_pages = match data.get("Pages") {
        Some(p) => p.as_array().is_some(),
        None => false,
    };
    if !has_pages {
        return Err(missing(Entity::Volume, "Pages"));
    }
    let title = match get_text(&data, "Title") {
        Some(t) => t,
        None => return Err(missing(Entity::Volume, "Title")),
    };
    let description = match get_text(&data, "Description") {
        Some(t) => t,
        None => return Err(missing(Entity::Volume, "Description")),
    };
    let slug = match get_text(&data, "Slug") {
        Some(t) => t,
        None => return Err(missing(Entity::Volume, "Slug")),
    };
    let summary = get_text(&data, "VolumeSummary");
    let free_pages = match get_text(&data, "FreePages") {
        Some(list) => split_free_pages(list.as_str()),
        None => Vec::new(),
    };
    assert(free_pages@.len() == 0 ==> views(free_pages@) =~= free_pages_spec(text_field(data, "FreePages"@)));
    let pages = match take_field(data, "Pages") {
        Some(Json::Array(a)) => a,
        _ => return Err(missing(Entity::Volume, "Pages")),
    };
    Ok(VolumeData { title, description, slug, free_pages, summary, pages })
}

/// Reads a volume document from its JSON text.
pub fn parse_volume_document(text: &str) -> (r: Result<VolumeData, IngestError>)
    ensures
        match json_tree(text@) {
            None => r is Err && err_view(r) == (ErrorView { entity: EntityView::Volume, problem: ProblemView::NotJson }),
            Some(doc) => match volume_error(doc) {
                Some(e) => r is Err && err_view(r) == e,
                None => r matches Ok(v) && volume_built(v, doc),
            },
        },
{
    match parse_json_text(text) {
        Some(doc) => volume_from_json(doc),
        None => Err(IngestError { entity: Entity::Volume, problem: Problem::NotJson }),
    }
}

} // verus!
