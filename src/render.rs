//! Renders a page into its frontmatter fields and its Markdown body.
use vstd::prelude::*;
use vstd::string::StringExecFns;
use crate::frontmatter::{ChunkMeta, Frontmatter};
use crate::headings::{Heading, transform_headings, new_slugger, slugs_taken, slugs_of, transformed, heading_texts, lines};
use crate::model::{ChunkData, PageData, QuestionAnswer};

verus! {

/// A rendered page: its frontmatter fields in output order, and its body.
pub struct RenderedPage<'a> {
    pub frontmatter: Vec<Frontmatter<'a>>,
    pub body: String,
}

/// `n` hash marks.
pub open spec fn hashes(n: nat) -> Seq<char> {
    Seq::new(n, |i: int| '#')
}

/// The class that hides a chunk's heading from sight but not from screen
/// readers.
pub open spec fn header_class(show_header: bool) -> Seq<char> {
    if show_header {
        ""@
    } else {
        " .sr-only"@
    }
}

/// The Markdown of one chunk: its heading with the chunk's anchor, then its
/// anchored body.
pub open spec fn section(c: ChunkData, content: Seq<char>) -> Seq<char> {
    hashes(c.depth as nat) + " "@ + c.title@ + " {#"@ + c.slug@ + header_class(c.show_header) + "} \n\n"@ + content + "\n\n"@
}

/// The slugs handed out in a page before its chunk `k`.
pub open spec fn taken_before(chunks: Seq<ChunkData>, k: nat) -> Set<Seq<char>>
    decreases k,
{
    if k == 0 {
        Set::<Seq<char>>::empty()
    } else {
        let t = taken_before(chunks, (k - 1) as nat);
        t + slugs_of(chunks[k - 1].content@, t).to_set()
    }
}

/// The body of the first `n` chunks of a page.
pub open spec fn body_upto(chunks: Seq<ChunkData>, n: nat) -> Seq<char>
    decreases n,
{
    if n == 0 {
        Seq::<char>::empty()
    } else {
        body_upto(chunks, (n - 1) as nat) + section(chunks[n - 1], transformed(chunks[n - 1].content@, taken_before(chunks, (n - 1) as nat)))
    }
}

/// The lines of the first `n` chunks' bodies, counted together.
pub open spec fn total_lines(chunks: Seq<ChunkData>, n: nat) -> nat
    decreases n,
{
    if n == 0 {
        0
    } else {
        total_lines(chunks, (n - 1) as nat) + lines(chunks[n - 1].content@).len()
    }
}

/// The constructed-response items of the first `n` chunks, in order.
pub open spec fn cri_upto(chunks: Seq<ChunkData>, n: nat) -> Seq<QuestionAnswer>
    decreases n,
{
    if n == 0 {
        Seq::<QuestionAnswer>::empty()
    } else {
        match chunks[n - 1].cri {
            Some(q) => cri_upto(chunks, (n - 1) as nat).push(q),
            None => cri_upto(chunks, (n - 1) as nat),
        }
    }
}

/// `m` records chunk `c`, whose headings got their slugs after `taken`.
pub open spec fn meta_built(m: ChunkMeta, c: ChunkData, taken: Set<Seq<char>>) -> bool {
    let texts = heading_texts(lines(c.content@));
    let slugs = slugs_of(c.content@, taken);
    &&& m.title@ == c.title@
    &&& m.slug@ == c.slug@
    &&& *m.chunk_type == c.chunk_type
    &&& m.headings@.len() == texts.len()
    &&& forall|j: int| 0 <= j < texts.len() ==> {
        let h = #[trigger] m.headings@[j];
        h.level == 3 && h.title@ == texts[j] && h.slug@ == slugs[j]
    }
}

/// The frontmatter fields of a page, in their output order: title, slug,
/// next_slug, order, assignments, parent, quiz, cri, chunks.
pub open spec fn frontmatter_built(fm: Seq<Frontmatter>, page: PageData, next_slug: Option<&str>) -> bool {
    let chunks = page.chunks@;
    &&& fm.len() == 9
    &&& fm[0] matches Frontmatter::Title(t) && t@ == page.title@
    &&& fm[1] matches Frontmatter::Slug(s) && s@ == page.slug@
    &&& fm[2] == Frontmatter::NextSlug(next_slug)
    &&& fm[3] == Frontmatter::Order(page.order)
    &&& fm[4] matches Frontmatter::Assignments(a) && a@ == page.assignments@
    &&& fm[5] matches Frontmatter::Parent(p) && match (p, page.parent) {
        (Some(x), Some(y)) => *x == y,
        (None, None) => true,
        _ => false,
    }
    &&& fm[6] matches Frontmatter::Quiz(q) && match (q, page.quiz) {
        (Some(x), Some(y)) => *x == y,
        (None, None) => true,
        _ => false,
    }
    &&& fm[7] matches Frontmatter::Cri(c) && c@.len() == cri_upto(chunks, chunks.len()).len()
        && forall|k: int| 0 <= k < c@.len() ==> *(#[trigger] c@[k]) == cri_upto(chunks, chunks.len())[k]
    &&& fm[8] matches Frontmatter::Chunks(ms) && ms@.len() == chunks.len()
        && forall|k: int| 0 <= k < chunks.len() ==> meta_built(#[trigger] ms@[k], chunks[k], taken_before(chunks, k as nat))
}

/// The slugs handed out for the sub-headings of chunk `k` of a page.
pub open spec fn chunk_slugs(chunks: Seq<ChunkData>, k: int) -> Seq<Seq<char>> {
    slugs_of(chunks[k].content@, taken_before(chunks, k as nat))
}

/// The slugs of an earlier chunk are taken when a later chunk is rendered.
proof fn lemma_taken_before_holds(chunks: Seq<ChunkData>, k1: int, k2: int, x: int)
    requires
        0 <= k1 < k2,
        0 <= x < chunk_slugs(chunks, k1).len(),
    ensures
        taken_before(chunks, k2 as nat).contains(chunk_slugs(chunks, k1)[x]),
    decreases k2,
{
    if k1 < k2 - 1 {
        lemma_taken_before_holds(chunks, k1, k2 - 1, x);
    } else {
        assert(chunk_slugs(chunks, k1).to_set().contains(chunk_slugs(chunks, k1)[x]));
    }
}

/// A prefix of a page has no more lines than the page.
proof fn lemma_total_lines_grow(chunks: Seq<ChunkData>, i: nat, n: nat)
    requires
        i <= n,
    ensures
        total_lines(chunks, i) <= total_lines(chunks, n),
    decreases n - i,
{
    if i < n {
        lemma_total_lines_grow(chunks, i, (n - 1) as nat);
    }
}

/// The heading of a chunk, as Markdown: `depth` hash marks, its title, and
/// its anchor, with a class that hides it from sight when it is not shown.
fn chunk_heading(chunk: &ChunkData) -> (r: String)
    ensures
        r@ == hashes(chunk.depth as nat) + " "@ + chunk.title@ + " {#"@ + chunk.slug@ + header_class(chunk.show_header) + "} \n\n"@,
{
    let mut s = String::new();
    let mut d: usize = 0;
    while d < chunk.depth
        invariant
            d <= chunk.depth,
            s@ == hashes(d as nat),
        decreases chunk.depth - d,
    {
        proof { reveal_strlit("#"); }
        s.append("#");
        assert(s@ =~= hashes((d + 1) as nat));
        d = d + 1;
    }
    s.append(" ");
    s.append(chunk.title.as_str());
    s.append(" {#");
    s.append(chunk.slug.as_str());
    if chunk.show_header {
        s.append("");
    } else {
        s.append(" .sr-only");
    }
    s.append("} \n\n");
    s
}

/// Renders a page: its frontmatter fields and its body, the chunks in page
/// order. The slugs of sub-headings are unique over the whole page.
pub fn render_page<'a>(page: &'a PageData, next_slug: Option<&'a str>) -> (r: RenderedPage<'a>)
    requires
        total_lines(page.chunks@, page.chunks@.len()) < 2147483647,
    ensures
        r.body@ == body_upto(page.chunks@, page.chunks@.len()),
        frontmatter_built(r.frontmatter@, *page, next_slug),
        forall|k: int| 0 <= k < page.chunks@.len() ==> (#[trigger] chunk_slugs(page.chunks@, k)).no_duplicates(),
        forall|k1: int, k2: int, x: int, y: int|
            0 <= k1 < k2 < page.chunks@.len() && 0 <= x < chunk_slugs(page.chunks@, k1).len()
                && 0 <= y < chunk_slugs(page.chunks@, k2).len()
            ==> #[trigger] chunk_slugs(page.chunks@, k1)[x] != #[trigger] chunk_slugs(page.chunks@, k2)[y],
{
    let ghost chunks = page.chunks@;
    let ghost n = chunks.len();
    let mut slugger = new_slugger();
    let mut cri: Vec<&'a QuestionAnswer> = Vec::new();
    let mut metas: Vec<ChunkMeta<'a>> = Vec::new();
    let mut body = String::new();
    let mut i: usize = 0;
    assert(Set::<Seq<char>>::empty().len() == 0);
    while i < page.chunks.len()
        invariant
            chunks == page.chunks@,
            n == chunks.len(),
            i <= n,
            total_lines(chunks, n) < 2147483647,
            slugs_taken(slugger) == taken_before(chunks, i as nat),
            slugs_taken(slugger).finite(),
            slugs_taken(slugger).len() <= total_lines(chunks, i as nat),
            body@ == body_upto(chunks, i as nat),
            cri@.len() == cri_upto(chunks, i as nat).len(),
            forall|k: int| 0 <= k < cri@.len() ==> *(#[trigger] cri@[k]) == cri_upto(chunks, i as nat)[k],
            metas@.len() == i,
            forall|k: int| 0 <= k < i ==> (#[trigger] chunk_slugs(chunks, k)).no_duplicates(),
            forall|k: int, x: int| 0 <= k < i && 0 <= x < chunk_slugs(chunks, k).len()
                ==> !taken_before(chunks, k as nat).contains(#[trigger] chunk_slugs(chunks, k)[x]),
            forall|k: int| 0 <= k < i ==> meta_built(#[trigger] metas@[k], chunks[k], taken_before(chunks, k as nat)),
        decreases n - i,
    {
        let chunk: &'a ChunkData = &page.chunks[i];
        proof { lemma_total_lines_grow(chunks, (i + 1) as nat, n); }
        let mut chunk_headings: Vec<Heading> = Vec::new();
        let mut meta = ChunkMeta::new(chunk.title.as_str(), chunk.slug.as_str(), &chunk.chunk_type);
        let ghost cri_before = cri@;
        match &chunk.cri {
            Some(item) => cri.push(item),
            None => {},
        }
        assert(forall|k: int| 0 <= k < cri@.len() ==> *(#[trigger] cri@[k]) == cri_upto(chunks, (i + 1) as nat)[k]) by {
            assert forall|k: int| 0 <= k < cri@.len() implies *(#[trigger] cri@[k]) == cri_upto(chunks, (i + 1) as nat)[k] by {
                if k < cri_before.len() {
                    assert(cri@[k] == cri_before[k]);
                }
            }
        }
        let content = transform_headings(chunk.content.as_str(), &mut slugger, &mut chunk_headings);
        let ghost taken = taken_before(chunks, i as nat);
        assert forall|j: int| 0 <= j < heading_texts(lines(chunk.content@)).len() implies {
            let h = #[trigger] chunk_headings@[j];
            h.level == 3 && h.title@ == heading_texts(lines(chunk.content@))[j] && h.slug@ == slugs_of(chunk.content@, taken)[j]
        } by {
            assert(chunk_headings@[0 + j] == chunk_headings@[j]);
        }
        meta.add_headings(chunk_headings);
        assert(meta_built(meta, chunks[i as int], taken));
        let ghost metas_before = metas@;
        metas.push(meta);
        assert(forall|k: int| 0 <= k < i ==> metas@[k] == metas_before[k]);
        let mut section_text = chunk_heading(chunk);
        section_text.append(content.as_str());
        section_text.append("\n\n");
        body.append(section_text.as_str());
        i = i + 1;
    }
    assert forall|k1: int, k2: int, x: int, y: int|
        0 <= k1 < k2 < n && 0 <= x < chunk_slugs(chunks, k1).len() && 0 <= y < chunk_slugs(chunks, k2).len()
        implies #[trigger] chunk_slugs(chunks, k1)[x] != #[trigger] chunk_slugs(chunks, k2)[y] by {
        lemma_taken_before_holds(chunks, k1, k2, x);
    }
    let mut fm: Vec<Frontmatter<'a>> = Vec::new();
    fm.push(Frontmatter::Title(page.title.as_str()));
    fm.push(Frontmatter::Slug(page.slug.as_str()));
    fm.push(Frontmatter::NextSlug(next_slug));
    fm.push(Frontmatter::Order(page.order));
    fm.push(Frontmatter::Assignments(page.assignments.as_slice()));
    fm.push(Frontmatter::Parent(page.parent.as_ref()));
    fm.push(Frontmatter::Quiz(page.quiz.as_ref()));
    fm.push(Frontmatter::Cri(cri));
    fm.push(Frontmatter::Chunks(metas));
    RenderedPage { frontmatter: fm, body }
}

} // verus!
