//! Reconciles a volume's chunk slugs against the slugs that have embeddings.
use vstd::prelude::*;
use vstd::string::StringExecFns;
use crate::model::{ChunkData, PageData};
use crate::text::views;
use crate::json::{Json, field, json_tree, parse_json_text};

verus! {

/// The reconciliation of one page.
#[derive(Debug)]
pub struct PageHealthCheck {
    pub page_slug: String,
    pub page_title: String,
    pub existing_chunks: Vec<String>,
    pub missing_chunks: Vec<String>,
}

/// The reconciliation of a volume.
#[derive(Debug)]
pub struct HealthCheckData {
    pub volume_id: String,
    pub volume_slug: String,
    pub volume_title: String,
    pub total_chunks: usize,
    pub existing_chunks_count: usize,
    pub missing_chunks_count: usize,
    pub pages: Vec<PageHealthCheck>,
}

/// The slugs of the first `n` chunks whose membership in `known` is `present`.
pub open spec fn slugs_where(chunks: Seq<ChunkData>, known: Set<Seq<char>>, present: bool, n: nat) -> Seq<Seq<char>>
    decreases n,
{
    if n == 0 {
        Seq::<Seq<char>>::empty()
    } else {
        let rest = slugs_where(chunks, known, present, (n - 1) as nat);
        if known.contains(chunks[n - 1].slug@) == present {
            rest.push(chunks[n - 1].slug@)
        } else {
            rest
        }
    }
}

/// The chunks' slugs that have embeddings, in chunk order.
pub open spec fn existing_spec(chunks: Seq<ChunkData>, known: Set<Seq<char>>) -> Seq<Seq<char>> {
    slugs_where(chunks, known, true, chunks.len())
}

/// The chunks' slugs that lack embeddings, in chunk order.
pub open spec fn missing_spec(chunks: Seq<ChunkData>, known: Set<Seq<char>>) -> Seq<Seq<char>> {
    slugs_where(chunks, known, false, chunks.len())
}

/// The number of chunks of the first `n` pages.
pub open spec fn chunk_total(pages: Seq<PageData>, n: nat) -> nat
    decreases n,
{
    if n == 0 {
        0
    } else {
        chunk_total(pages, (n - 1) as nat) + pages[n - 1].chunks@.len()
    }
}

/// The number of chunks of the first `n` pages whose membership in `known`
/// is `present`.
pub open spec fn count_where(pages: Seq<PageData>, known: Set<Seq<char>>, present: bool, n: nat) -> nat
    decreases n,
{
    if n == 0 {
        0
    } else {
        count_where(pages, known, present, (n - 1) as nat)
            + slugs_where(pages[n - 1].chunks@, known, present, pages[n - 1].chunks@.len()).len()
    }
}

/// `pc` is the reconciliation of `page` against the slugs in `known`.
pub open spec fn page_check_built(pc: PageHealthCheck, page: PageData, known: Set<Seq<char>>) -> bool {
    &&& pc.page_slug@ == page.slug@
    &&& pc.page_title@ == page.title@
    &&& views(pc.existing_chunks@) == existing_spec(page.chunks@, known)
    &&& views(pc.missing_chunks@) == missing_spec(page.chunks@, known)
}

/// Every chunk is either existing or missing.
pub proof fn lemma_page_partition(chunks: Seq<ChunkData>, known: Set<Seq<char>>, n: nat)
    requires
        n <= chunks.len(),
    ensures
        slugs_where(chunks, known, true, n).len() + slugs_where(chunks, known, false, n).len() == n,
    decreases n,
{
    if n > 0 {
        lemma_page_partition(chunks, known, (n - 1) as nat);
    }
}

/// Over a volume, the existing and the missing chunks make up all chunks.
pub proof fn lemma_volume_partition(pages: Seq<PageData>, known: Set<Seq<char>>, n: nat)
    requires
        n <= pages.len(),
    ensures
        count_where(pages, known, true, n) + count_where(pages, known, false, n) == chunk_total(pages, n),
    decreases n,
{
    if n > 0 {
        lemma_volume_partition(pages, known, (n - 1) as nat);
        lemma_page_partition(pages[n - 1].chunks@, known, pages[n - 1].chunks@.len());
    }
}

/// Whether `slug` is among `slugs`.
pub fn contains_slug(slugs: &[String], slug: &String) -> (r: bool)
    ensures
        r == views(slugs@).contains(slug@),
{
    let mut i: usize = 0;
    while i < slugs.len()
        invariant
            i <= slugs@.len(),
            forall|k: int| 0 <= k < i ==> slugs@[k]@ != slug@,
        decreases slugs.len() - i,
    {
        if slugs[i] == *slug {
            assert(views(slugs@)[i as int] == slug@);
            return true;
        }
        i = i + 1;
    }
    assert(!views(slugs@).contains(slug@)) by {
        if views(slugs@).contains(slug@) {
            let k = choose|k: int| 0 <= k < views(slugs@).len() && views(slugs@)[k] == slug@;
            assert(slugs@[k]@ == slug@);
        }
    }
    false
}

/// A prefix of a volume has no more chunks than the volume.
proof fn lemma_chunk_total_grow(pages: Seq<PageData>, i: nat, n: nat)
    requires
        i <= n,
    ensures
        chunk_total(pages, i) <= chunk_total(pages, n),
    decreases n - i,
{
    if i < n {
        lemma_chunk_total_grow(pages, i, (n - 1) as nat);
    }
}

/// Splits each page's chunk slugs into those that have embeddings and those
/// that do not, in chunk order, and counts both over the volume. Duplicate
/// supplied slugs count once, and every chunk variant is checked.
pub fn perform_health_check(
    volume_id: &str,
    volume_slug: &str,
    volume_title: &str,
    pages: &[PageData],
    embedding_slugs: &[String],
) -> (r: HealthCheckData)
    requires
        chunk_total(pages@, pages@.len()) <= usize::MAX,
    ensures
        r.volume_id@ == volume_id@,
        r.volume_slug@ == volume_slug@,
        r.volume_title@ == volume_title@,
        r.pages@.len() == pages@.len(),
        forall|k: int| 0 <= k < pages@.len() ==> page_check_built(#[trigger] r.pages@[k], pages@[k], views(embedding_slugs@).to_set()),
        r.existing_chunks_count == count_where(pages@, views(embedding_slugs@).to_set(), true, pages@.len()),
        r.missing_chunks_count == count_where(pages@, views(embedding_slugs@).to_set(), false, pages@.len()),
        r.total_chunks == chunk_total(pages@, pages@.len()),
        r.total_chunks == r.existing_chunks_count + r.missing_chunks_count,
        forall|k: int| 0 <= k < pages@.len() ==> (#[trigger] r.pages@[k]).existing_chunks@.len()
            + r.pages@[k].missing_chunks@.len() == pages@[k].chunks@.len(),
{
    let ghost known = views(embedding_slugs@).to_set();
    let ghost ps = pages@;
    let mut checks: Vec<PageHealthCheck> = Vec::new();
    let mut total_existing: usize = 0;
    let mut total_missing: usize = 0;
    let mut i: usize = 0;
    while i < pages.len()
        invariant
            ps == pages@,
            known == views(embedding_slugs@).to_set(),
            chunk_total(ps, ps.len()) <= usize::MAX,
            i <= ps.len(),
            checks@.len() == i,
            forall|k: int| 0 <= k < i ==> page_check_built(#[trigger] checks@[k], ps[k], known),
            total_existing == count_where(ps, known, true, i as nat),
            total_missing == count_where(ps, known, false, i as nat),
        decreases ps.len() - i,
    {
        let page = &pages[i];
        let ghost chunks = page.chunks@;
        proof {
            lemma_volume_partition(ps, known, i as nat);
            lemma_volume_partition(ps, known, (i + 1) as nat);
            lemma_chunk_total_grow(ps, (i + 1) as nat, ps.len());
        }
        let mut existing: Vec<String> = Vec::new();
        let mut missing: Vec<String> = Vec::new();
        let mut j: usize = 0;
        while j < page.chunks.len()
            invariant
                chunks == page.chunks@,
                known == views(embedding_slugs@).to_set(),
                j <= chunks.len(),
                views(existing@) == slugs_where(chunks, known, true, j as nat),
                views(missing@) == slugs_where(chunks, known, false, j as nat),
                total_existing + existing@.len() + total_missing + missing@.len() <= chunk_total(ps, (i + 1) as nat),
                total_existing + total_missing == chunk_total(ps, i as nat),
                chunk_total(ps, (i + 1) as nat) == chunk_total(ps, i as nat) + chunks.len(),
                chunk_total(ps, (i + 1) as nat) <= usize::MAX,
            decreases chunks.len() - j,
        {
            let slug = &page.chunks[j].slug;
            proof { lemma_page_partition(chunks, known, j as nat); }
            let ghost e0 = existing@;
            let ghost m0 = missing@;
            if contains_slug(embedding_slugs, slug) {
                existing.push(slug.clone());
                assert(views(existing@) =~= views(e0).push(slug@));
                assert(views(missing@) =~= views(m0));
            } else {
                missing.push(slug.clone());
                assert(views(missing@) =~= views(m0).push(slug@));
                assert(views(existing@) =~= views(e0));
            }
            j = j + 1;
        }
        proof { lemma_page_partition(chunks, known, chunks.len()); }
        total_existing = total_existing + existing.len();
        total_missing = total_missing + missing.len();
        checks.push(PageHealthCheck {
            page_slug: page.slug.clone(),
            page_title: page.title.clone(),
            existing_chunks: existing,
            missing_chunks: missing,
        });
        i = i + 1;
    }
    proof {
        lemma_volume_partition(ps, known, ps.len());
        assert forall|k: int| 0 <= k < ps.len() implies (#[trigger] checks@[k]).existing_chunks@.len()
            + checks@[k].missing_chunks@.len() == ps[k].chunks@.len() by {
            assert(page_check_built(checks@[k], ps[k], known));
            lemma_page_partition(ps[k].chunks@, known, ps[k].chunks@.len());
        }
    }
    HealthCheckData {
        volume_id: String::from_str(volume_id),
        volume_slug: String::from_str(volume_slug),
        volume_title: String::from_str(volume_title),
        total_chunks: total_existing + total_missing,
        existing_chunks_count: total_existing,
        missing_chunks_count: total_missing,
        pages: checks,
    }
}

impl HealthCheckData {
    /// A reconciliation passes when no chunk lacks an embedding.
    pub fn passed(&self) -> (r: bool)
        ensures
            r == (self.missing_chunks_count == 0),
    {
        self.missing_chunks_count == 0
    }
}

/// Why a list of embedding records cannot be read.
#[derive(Debug, PartialEq, Eq, Structural)]
pub enum SlugListError {
    /// The response is not JSON.
    NotJson,
    /// The response is not an array.
    NotArray,
}

/// The `chunk` strings of the first `n` records; records without one are
/// skipped.
pub open spec fn record_slugs(items: Seq<Json>, n: nat) -> Seq<Seq<char>>
    decreases n,
{
    if n == 0 {
        Seq::<Seq<char>>::empty()
    } else {
        match field(items[n - 1], "chunk"@) {
            Some(Json::Str(s)) => record_slugs(items, (n - 1) as nat).push(s@),
            _ => record_slugs(items, (n - 1) as nat),
        }
    }
}

/// The slugs that an array of embedding records names: the string field
/// `chunk` of each record that has one, in order.
pub fn embedding_slugs_from_json(body: &Json) -> (r: Result<Vec<String>, SlugListError>)
    ensures
        match *body {
            Json::Array(items) => r matches Ok(v) && views(v@) == record_slugs(items@, items@.len()),
            _ => r == Err::<Vec<String>, SlugListError>(SlugListError::NotArray),
        },
{
    let items = match body.as_array() {
        Some(a) => a,
        None => return Err(SlugListError::NotArray),
    };
    let mut slugs: Vec<String> = Vec::new();
    let mut i: usize = 0;
    while i < items.len()
        invariant
            i <= items@.len(),
            views(slugs@) == record_slugs(items@, i as nat),
        decreases items.len() - i,
    {
        let ghost before = slugs@;
        match items[i].get("chunk") {
            Some(c) => match c.as_str() {
                Some(s) => {
                    slugs.push(s.clone());
                    assert(views(slugs@) =~= views(before).push(s@));
                },
                None => {},
            },
            None => {},
        }
        i = i + 1;
    }
    Ok(slugs)
}

/// Reads the slugs of embedding records from the store's JSON response.
pub fn parse_embedding_slugs(text: &str) -> (r: Result<Vec<String>, SlugListError>)
    ensures
        match json_tree(text@) {
            Some(Json::Array(items)) => r matches Ok(v) && views(v@) == record_slugs(items@, items@.len()),
            Some(_) => r == Err::<Vec<String>, SlugListError>(SlugListError::NotArray),
            None => r == Err::<Vec<String>, SlugListError>(SlugListError::NotJson),
        },
{
    match parse_json_text(text) {
        Some(body) => embedding_slugs_from_json(&body),
        None => Err(SlugListError::NotJson),
    }
}

} // verus!
