//! Orders a volume's pages, links each to its successor and renders them all.
use vstd::prelude::*;
use vstd::string::StringExecFns;
use crate::model::PageData;
use crate::render::{RenderedPage, render_page, body_upto, frontmatter_built, total_lines};

verus! {

/// Page `a` comes before page `b`: by order, and by position among equals.
pub open spec fn precedes(pages: Seq<PageData>, a: int, b: int) -> bool {
    pages[a].order < pages[b].order || (pages[a].order == pages[b].order && a < b)
}

/// `ord` lists every position of `pages` once, in the order of a stable sort
/// by `order`.
pub open spec fn sorted_positions(pages: Seq<PageData>, ord: Seq<usize>) -> bool {
    &&& ord.len() == pages.len()
    &&& forall|p: int| 0 <= p < ord.len() ==> #[trigger] ord[p] < pages.len()
    &&& forall|p: int, q: int| 0 <= p < q < ord.len() ==> precedes(pages, #[trigger] ord[p] as int, #[trigger] ord[q] as int)
    &&& forall|j: int| 0 <= j < pages.len() ==> #[trigger] listed(ord, j)
}

/// Position `j` occurs in `ord`.
pub open spec fn listed(ord: Seq<usize>, j: int) -> bool {
    exists|p: int| 0 <= p < ord.len() && ord[p] == j
}

/// The positions of `pages` sorted stably by `order`: equal orders keep the
/// order in which the pages came.
pub fn order_pages(pages: &Vec<PageData>) -> (ord: Vec<usize>)
    ensures
        sorted_positions(pages@, ord@),
{
    let ghost ps = pages@;
    let mut ord: Vec<usize> = Vec::new();
    let mut i: usize = 0;
    while i < pages.len()
        invariant
            ps == pages@,
            i <= ps.len(),
            ord@.len() == i,
            forall|p: int| 0 <= p < ord@.len() ==> #[trigger] ord@[p] < i,
            forall|p: int, q: int| 0 <= p < q < ord@.len() ==> precedes(ps, #[trigger] ord@[p] as int, #[trigger] ord@[q] as int),
            forall|j: int| 0 <= j < i ==> #[trigger] listed(ord@, j),
        decreases ps.len() - i,
    {
        let mut pos: usize = 0;
        while pos < ord.len() && pages[ord[pos]].order <= pages[i].order
            invariant
                ps == pages@,
                i < ps.len(),
                pos <= ord@.len(),
                forall|p: int| 0 <= p < ord@.len() ==> #[trigger] ord@[p] < i,
                forall|p: int| 0 <= p < pos ==> ps[#[trigger] ord@[p] as int].order <= ps[i as int].order,
            decreases ord.len() - pos,
        {
            pos = pos + 1;
        }
        let ghost old_ord = ord@;
        ord.insert(pos, i);
        assert(ord@ == old_ord.insert(pos as int, i));
        assert forall|p: int, q: int| 0 <= p < q < ord@.len() implies precedes(ps, #[trigger] ord@[p] as int, #[trigger] ord@[q] as int) by {
            if q < pos {
                assert(precedes(ps, old_ord[p] as int, old_ord[q] as int));
            } else if q == pos {
                assert(ps[old_ord[p] as int].order <= ps[i as int].order);
            } else if p < pos {
                assert(precedes(ps, old_ord[p] as int, old_ord[q - 1] as int));
            } else if p == pos {
                assert(ps[old_ord[pos as int] as int].order > ps[i as int].order) by {
                    if ps[old_ord[pos as int] as int].order <= ps[i as int].order {
                        assert(precedes(ps, old_ord[pos as int] as int, old_ord[q - 1] as int) || pos as int == q - 1);
                    }
                }
                assert(ps[old_ord[q - 1] as int].order >= ps[old_ord[pos as int] as int].order) by {
                    if pos as int != q - 1 {
                        assert(precedes(ps, old_ord[pos as int] as int, old_ord[q - 1] as int));
                    }
                }
            } else {
                assert(precedes(ps, old_ord[p - 1] as int, old_ord[q - 1] as int));
            }
        }
        assert forall|j: int| 0 <= j < i + 1 implies #[trigger] listed(ord@, j) by {
            if j == i {
                assert(ord@[pos as int] == j);
            } else {
                assert(listed(old_ord, j));
                let p = choose|p: int| 0 <= p < old_ord.len() && old_ord[p] == j;
                if p < pos {
                    assert(ord@[p] == j);
                } else {
                    assert(ord@[p + 1] == j);
                }
            }
        }
        i = i + 1;
    }
    ord
}

/// The slug of the page after position `p` of the sorted order; none for
/// the last.
pub open spec fn next_slug_at(pages: Seq<PageData>, ord: Seq<usize>, p: int) -> Option<Seq<char>> {
    if p + 1 < ord.len() {
        Some(pages[ord[p + 1] as int].slug@)
    } else {
        None
    }
}

/// In a stable order, a page that precedes another stands before it.
proof fn lemma_precedes_position(pages: Seq<PageData>, ord: Seq<usize>, p: int, q: int)
    requires
        sorted_positions(pages, ord),
        0 <= p < ord.len(),
        0 <= q < ord.len(),
        precedes(pages, ord[p] as int, ord[q] as int),
    ensures
        p < q,
{
    if q < p {
        assert(precedes(pages, ord[q] as int, ord[p] as int));
    }
}

/// When the pages' orders are distinct, each page links to the page with
/// the next greater order, and the page with the greatest order links to
/// none.
pub proof fn lemma_next_slug_follows_order(pages: Seq<PageData>, ord: Seq<usize>, p: int)
    requires
        sorted_positions(pages, ord),
        0 <= p < ord.len(),
        forall|x: int, y: int| 0 <= x < pages.len() && 0 <= y < pages.len() && x != y
            ==> #[trigger] pages[x].order != #[trigger] pages[y].order,
    ensures
        forall|b: int| 0 <= b < pages.len() && pages[ord[p] as int].order < #[trigger] pages[b].order
            && (forall|j: int| 0 <= j < pages.len() && pages[ord[p] as int].order < #[trigger] pages[j].order
                ==> pages[b].order <= pages[j].order)
            ==> next_slug_at(pages, ord, p) == Some(pages[b].slug@),
        (forall|j: int| 0 <= j < pages.len() ==> #[trigger] pages[j].order <= pages[ord[p] as int].order)
            ==> next_slug_at(pages, ord, p) is None,
{
    let a = ord[p] as int;
    assert forall|b: int| 0 <= b < pages.len() && pages[a].order < #[trigger] pages[b].order
        && (forall|j: int| 0 <= j < pages.len() && pages[a].order < #[trigger] pages[j].order
            ==> pages[b].order <= pages[j].order)
        implies next_slug_at(pages, ord, p) == Some(pages[b].slug@) by {
        assert(listed(ord, b));
        let q = choose|q: int| 0 <= q < ord.len() && ord[q] == b;
        assert(precedes(pages, a, b));
        lemma_precedes_position(pages, ord, p, q);
        let c = ord[p + 1] as int;
        if c != b {
            assert(precedes(pages, a, c));
            assert(a != c);
            assert(pages[a].order != pages[c].order);
            assert(pages[a].order < pages[c].order);
            assert(pages[b].order <= pages[c].order);
            if q != p + 1 {
                assert(precedes(pages, c, b));
            }
            assert(pages[c].order != pages[b].order);
        }
    }
    if (forall|j: int| 0 <= j < pages.len() ==> #[trigger] pages[j].order <= pages[a].order) && p + 1 < ord.len() {
        let c = ord[p + 1] as int;
        assert(precedes(pages, a, c));
        assert(pages[c].order <= pages[a].order);
        assert(pages[a].order != pages[c].order);
    }
}

/// The view of an optional text.
pub open spec fn opt_str_view(o: Option<&str>) -> Option<Seq<char>> {
    match o {
        Some(s) => Some(s@),
        None => None,
    }
}

/// A page fits the slugger: fewer body lines than its counter can count.
pub open spec fn page_fits(page: PageData) -> bool {
    total_lines(page.chunks@, page.chunks@.len()) < 2147483647
}

/// A body with at least one chunk is not empty.
pub proof fn lemma_body_nonempty(page: PageData)
    requires
        page.chunks@.len() > 0,
    ensures
        body_upto(page.chunks@, page.chunks@.len()).len() > 0,
{
    let chunks = page.chunks@;
    let n = chunks.len();
    reveal_strlit("\n\n");
    assert(body_upto(chunks, n).len() >= "\n\n"@.len());
}

/// Renders every page of a volume, in the stable order of their `order`
/// field; each page links to the next in that order, the last to none.
pub fn render_volume<'a>(pages: &'a Vec<PageData>) -> (r: (Vec<usize>, Vec<RenderedPage<'a>>))
    requires
        forall|k: int| 0 <= k < pages@.len() ==> page_fits(#[trigger] pages@[k]),
    ensures
        sorted_positions(pages@, r.0@),
        r.1@.len() == pages@.len(),
        forall|p: int| 0 <= p < r.1@.len() ==> {
            let page = pages@[r.0@[p] as int];
            &&& (#[trigger] r.1@[p]).body@ == body_upto(page.chunks@, page.chunks@.len())
            &&& page.chunks@.len() > 0 ==> r.1@[p].body@.len() > 0
            &&& exists|next: Option<&str>| opt_str_view(next) == next_slug_at(pages@, r.0@, p)
                && frontmatter_built(r.1@[p].frontmatter@, page, next)
        },
{
    let ord = order_pages(pages);
    let mut out: Vec<RenderedPage<'a>> = Vec::new();
    let mut p: usize = 0;
    while p < ord.len()
        invariant
            sorted_positions(pages@, ord@),
            forall|k: int| 0 <= k < pages@.len() ==> page_fits(#[trigger] pages@[k]),
            p <= ord@.len(),
            out@.len() == p,
            forall|q: int| 0 <= q < p ==> {
                let page = pages@[ord@[q] as int];
                &&& (#[trigger] out@[q]).body@ == body_upto(page.chunks@, page.chunks@.len())
                &&& page.chunks@.len() > 0 ==> out@[q].body@.len() > 0
                &&& exists|next: Option<&str>| opt_str_view(next) == next_slug_at(pages@, ord@, q)
                    && frontmatter_built(out@[q].frontmatter@, page, next)
            },
        decreases ord.len() - p,
    {
        let page: &'a PageData = &pages[ord[p]];
        assert(page_fits(pages@[ord@[p as int] as int]));
        let next: Option<&'a str> = if p + 1 < ord.len() {
            Some(pages[ord[p + 1]].slug.as_str())
        } else {
            None
        };
        let rendered = render_page(page, next);
        proof {
            if page.chunks@.len() > 0 {
                lemma_body_nonempty(*page);
            }
        }
        let ghost before = out@;
        out.push(rendered);
        assert forall|q: int| 0 <= q < p + 1 implies {
            let pg = pages@[ord@[q] as int];
            &&& (#[trigger] out@[q]).body@ == body_upto(pg.chunks@, pg.chunks@.len())
            &&& pg.chunks@.len() > 0 ==> out@[q].body@.len() > 0
            &&& exists|nx: Option<&str>| opt_str_view(nx) == next_slug_at(pages@, ord@, q)
                && frontmatter_built(out@[q].frontmatter@, pg, nx)
        } by {
            if q < p {
                assert(out@[q] == before[q]);
            } else {
                assert(opt_str_view(next) == next_slug_at(pages@, ord@, q));
            }
        }
        p = p + 1;
    }
    (ord, out)
}

/// A document: the frontmatter between `---` lines, a blank line, the body.
pub open spec fn document_spec(frontmatter: Seq<char>, body: Seq<char>) -> Seq<char> {
    "---\n"@ + frontmatter + "---\n\n"@ + body
}

/// Puts a page's document together from its frontmatter text, which ends
/// with a line break, and its body.
pub fn assemble_document(frontmatter: &str, body: &str) -> (r: String)
    ensures
        r@ == document_spec(frontmatter@, body@),
{
    let mut doc = String::from_str("---\n");
    doc.append(frontmatter);
    doc.append("---\n\n");
    doc.append(body);
    doc
}

} // verus!
