use itell::frontmatter::{volume_metadata, ChunkMeta, Frontmatter, VolumeFrontmatter};
use itell::headings::{transform_headings, Heading};
use itell::model::{ChunkData, ChunkType, PageData, PageParent, QuestionAnswer, VolumeData};
use itell::render::render_page;
use itell::volume::{assemble_document, order_pages, render_volume};

fn s(x: &str) -> String {
    x.to_string()
}

fn chunk(title: &str, slug: &str, depth: usize, content: &str, show_header: bool) -> ChunkData {
    ChunkData {
        title: s(title),
        slug: s(slug),
        depth,
        content: s(content),
        cri: None,
        show_header,
        chunk_type: ChunkType::Regular,
    }
}

fn page(title: &str, slug: &str, order: usize, chunks: Vec<ChunkData>) -> PageData {
    PageData {
        title: s(title),
        slug: s(slug),
        parent: None,
        order,
        assignments: vec![],
        quiz: None,
        chunks,
    }
}

fn next_of(fm: &[Frontmatter]) -> Option<String> {
    match &fm[2] {
        Frontmatter::NextSlug(n) => n.map(|x| x.to_string()),
        other => panic!("unexpected field {:?}", other),
    }
}

fn metas<'a, 'b>(fm: &'b [Frontmatter<'a>]) -> &'b Vec<ChunkMeta<'a>> {
    match &fm[8] {
        Frontmatter::Chunks(m) => m,
        other => panic!("unexpected field {:?}", other),
    }
}

#[test]
fn repeated_heading_gets_numbered_slug() {
    let mut slugger = github_slugger::Slugger::default();
    let mut headings: Vec<Heading> = Vec::new();
    let out = transform_headings("Intro\n### Setup\ntext\n### Setup\n#### Deep", &mut slugger, &mut headings);
    assert_eq!(out, "Intro\n### Setup {#setup}\ntext\n### Setup {#setup-1}\n#### Deep");
    assert_eq!(headings.len(), 2);
    assert_eq!((headings[0].level, headings[0].slug.as_str(), headings[0].title.as_str()), (3, "setup", "Setup"));
    assert_eq!((headings[1].level, headings[1].slug.as_str(), headings[1].title.as_str()), (3, "setup-1", "Setup"));
}

#[test]
fn heading_slug_is_github_style() {
    let mut slugger = github_slugger::Slugger::default();
    let mut headings: Vec<Heading> = Vec::new();
    let out = transform_headings("### Hello, World!", &mut slugger, &mut headings);
    assert_eq!(out, "### Hello, World! {#hello-world}");
    assert_eq!(headings[0].slug, "hello-world");
    assert_eq!(headings[0].title, "Hello, World!");
}

#[test]
fn non_heading_lines_are_kept() {
    let mut slugger = github_slugger::Slugger::default();
    let mut headings: Vec<Heading> = Vec::new();
    let content = "###NoSpace\n### \n## Two\n\n text ### x\n";
    let out = transform_headings(content, &mut slugger, &mut headings);
    assert_eq!(out, content);
    assert!(headings.is_empty());
    let out = transform_headings("", &mut slugger, &mut headings);
    assert_eq!(out, "");
}

#[test]
fn render_page_body_and_frontmatter() {
    let mut first = chunk("Intro", "intro", 2, "Hello\n### Setup", true);
    first.cri = Some(QuestionAnswer { question: s("Q?"), answer: s("A."), slug: s("intro") });
    let mut second = chunk("More", "more", 3, "### Setup", false);
    second.chunk_type = ChunkType::Plain;
    let mut p = page("Page One", "page-one", 1, vec![first, second]);
    p.assignments = vec![s("summary")];
    p.parent = Some(PageParent::new(s("Ch"), s("ch")));
    let r = render_page(&p, Some("page-two"));
    assert_eq!(
        r.body,
        "## Intro {#intro} \n\nHello\n### Setup {#setup}\n\n### More {#more .sr-only} \n\n### Setup {#setup-1}\n\n"
    );
    let keys: Vec<&str> = r.frontmatter.iter().map(|f| f.key()).collect();
    assert_eq!(
        keys,
        vec!["title", "slug", "next_slug", "order", "assignments", "parent", "quiz", "cri", "chunks"]
    );
    assert!(matches!(r.frontmatter[0], Frontmatter::Title("Page One")));
    assert!(matches!(r.frontmatter[1], Frontmatter::Slug("page-one")));
    assert_eq!(next_of(&r.frontmatter), Some(s("page-two")));
    assert!(matches!(r.frontmatter[3], Frontmatter::Order(1)));
    match &r.frontmatter[4] {
        Frontmatter::Assignments(a) => assert_eq!(a.to_vec(), vec![s("summary")]),
        other => panic!("unexpected field {:?}", other),
    }
    match &r.frontmatter[5] {
        Frontmatter::Parent(Some(parent)) => assert_eq!(parent.slug, "ch"),
        other => panic!("unexpected field {:?}", other),
    }
    assert!(matches!(r.frontmatter[6], Frontmatter::Quiz(None)));
    match &r.frontmatter[7] {
        Frontmatter::Cri(items) => {
            assert_eq!(items.len(), 1);
            assert_eq!(items[0].question, "Q?");
        }
        other => panic!("unexpected field {:?}", other),
    }
    let m = metas(&r.frontmatter);
    assert_eq!(m.len(), 2);
    assert_eq!(m[0].title, "Intro");
    assert_eq!(m[0].chunk_type.name(), "regular");
    assert_eq!(m[1].chunk_type.name(), "plain");
    assert_eq!(m[0].headings[0].slug, "setup");
    assert_eq!(m[1].headings[0].slug, "setup-1");
}

#[test]
fn page_without_chunks_has_empty_body() {
    let p = page("Empty", "empty", 0, vec![]);
    let r = render_page(&p, None);
    assert_eq!(r.body, "");
    assert_eq!(next_of(&r.frontmatter), None);
    assert!(metas(&r.frontmatter).is_empty());
}

#[test]
fn next_slug_follows_ascending_order() {
    let pages = vec![
        page("B", "b", 2, vec![chunk("x", "x", 2, "x", true)]),
        page("A", "a", 1, vec![chunk("y", "y", 2, "y", true)]),
        page("C", "c", 3, vec![chunk("z", "z", 2, "z", true)]),
    ];
    let (ord, rendered) = render_volume(&pages);
    assert_eq!(ord, vec![1, 0, 2]);
    assert_eq!(rendered.len(), 3);
    assert!(matches!(rendered[0].frontmatter[1], Frontmatter::Slug("a")));
    assert_eq!(next_of(&rendered[0].frontmatter), Some(s("b")));
    assert_eq!(next_of(&rendered[1].frontmatter), Some(s("c")));
    assert_eq!(next_of(&rendered[2].frontmatter), None);
    for r in &rendered {
        assert!(!r.body.is_empty());
    }
}

#[test]
fn equal_orders_keep_their_sequence() {
    let pages = vec![page("P", "p", 1, vec![]), page("Q", "q", 1, vec![]), page("R", "r", 0, vec![])];
    assert_eq!(order_pages(&pages), vec![2, 0, 1]);
    assert_eq!(order_pages(&vec![]), Vec::<usize>::new());
}

#[test]
fn one_document_per_page() {
    let pages: Vec<PageData> = (0..5)
        .map(|i| page("T", &format!("p{}", i), 5 - i, vec![chunk("c", &format!("c{}", i), 2, "text", true)]))
        .collect();
    let (ord, rendered) = render_volume(&pages);
    assert_eq!(rendered.len(), pages.len());
    let mut seen = ord.clone();
    seen.sort();
    assert_eq!(seen, vec![0, 1, 2, 3, 4]);
    for r in &rendered {
        let doc = assemble_document("title: T\n", &r.body);
        assert!(doc.starts_with("---\ntitle: T\n---\n\n"));
        assert!(doc.len() > "---\ntitle: T\n---\n\n".len());
    }
}

#[test]
fn document_layout() {
    assert_eq!(assemble_document("a: 1\n", "# Body\n"), "---\na: 1\n---\n\n# Body\n");
}

#[test]
fn volume_metadata_fields() {
    let v = VolumeData {
        title: s("T"),
        description: s("D"),
        slug: s("s"),
        free_pages: vec![s("a")],
        summary: None,
        pages: vec![],
    };
    let fields = volume_metadata(&v);
    let keys: Vec<&str> = fields.iter().map(|f| f.key()).collect();
    assert_eq!(keys, vec!["title", "slug", "description", "free_pages", "summary"]);
    assert!(matches!(fields[0], VolumeFrontmatter::Title("T")));
    assert!(matches!(fields[4], VolumeFrontmatter::Summary(None)));
}
