use itell::config::{parse_config, Config};
use itell::healthcheck::{parse_embedding_slugs, perform_health_check, SlugListError};
use itell::model::{ChunkData, ChunkType, PageData};

fn s(x: &str) -> String {
    x.to_string()
}

fn chunk(slug: &str, chunk_type: ChunkType) -> ChunkData {
    ChunkData {
        title: s("t"),
        slug: s(slug),
        depth: 2,
        content: s("c"),
        cri: None,
        show_header: true,
        chunk_type,
    }
}

fn page(slug: &str, chunks: Vec<ChunkData>) -> PageData {
    PageData {
        title: s("Title"),
        slug: s(slug),
        parent: None,
        order: 0,
        assignments: vec![],
        quiz: None,
        chunks,
    }
}

#[test]
fn one_existing_one_missing() {
    let pages = vec![page("p", vec![chunk("intro", ChunkType::Regular), chunk("body", ChunkType::Regular)])];
    let r = perform_health_check("7", "vol", "Volume", &pages, &[s("intro")]);
    assert_eq!(r.pages.len(), 1);
    assert_eq!(r.pages[0].existing_chunks, vec![s("intro")]);
    assert_eq!(r.pages[0].missing_chunks, vec![s("body")]);
    assert_eq!(r.existing_chunks_count, 1);
    assert_eq!(r.missing_chunks_count, 1);
    assert_eq!(r.total_chunks, 2);
    assert!(!r.passed());
    assert_eq!(r.volume_id, "7");
    assert_eq!(r.pages[0].page_slug, "p");
    assert_eq!(r.pages[0].page_title, "Title");
}

#[test]
fn counts_add_up_over_pages() {
    let pages = vec![
        page("a", vec![chunk("x", ChunkType::Video), chunk("y", ChunkType::Plain)]),
        page("b", vec![]),
        page("c", vec![chunk("z", ChunkType::Regular), chunk("x", ChunkType::Regular), chunk("w", ChunkType::Regular)]),
    ];
    let r = perform_health_check("1", "v", "V", &pages, &[s("x"), s("x"), s("w"), s("unused")]);
    assert_eq!(r.total_chunks, 5);
    assert_eq!(r.existing_chunks_count + r.missing_chunks_count, r.total_chunks);
    assert_eq!(r.existing_chunks_count, 3);
    for (pc, p) in r.pages.iter().zip(pages.iter()) {
        assert_eq!(pc.existing_chunks.len() + pc.missing_chunks.len(), p.chunks.len());
    }
    assert_eq!(r.pages[0].existing_chunks, vec![s("x")]);
    assert_eq!(r.pages[0].missing_chunks, vec![s("y")]);
    assert_eq!(r.pages[2].existing_chunks, vec![s("x"), s("w")]);
}

#[test]
fn all_present_passes() {
    let pages = vec![page("a", vec![chunk("x", ChunkType::Regular)])];
    let r = perform_health_check("1", "v", "V", &pages, &[s("x")]);
    assert!(r.passed());
    let r = perform_health_check("1", "v", "V", &[], &[]);
    assert!(r.passed());
    assert_eq!(r.total_chunks, 0);
}

#[test]
fn embedding_records_are_read() {
    let body = r#"[{"chunk": "a", "text": "v"}, {"text": "v"}, {"chunk": 3}, {"chunk": "b"}]"#;
    assert_eq!(parse_embedding_slugs(body), Ok(vec![s("a"), s("b")]));
    assert_eq!(parse_embedding_slugs(r#"{"chunk": "a"}"#), Err(SlugListError::NotArray));
    assert_eq!(parse_embedding_slugs("[oops"), Err(SlugListError::NotJson));
}

#[test]
fn config_from_arguments() {
    assert!(parse_config(&vec![], None, None).is_none());
    let c = parse_config(&vec![s("vol-1")], Some(s("u")), None).expect("config");
    assert_eq!(c.volume_id, "vol-1");
    assert_eq!(c.output_dir, "output/textbook");
    assert!(c.embedding_store().is_none());
    let c = parse_config(&vec![s("vol-1"), s("out")], Some(s("u")), Some(s("k"))).expect("config");
    assert_eq!(c.output_dir, "out");
    let (u, k) = c.embedding_store().expect("store");
    assert_eq!((u.as_str(), k.as_str()), ("u", "k"));
    let c = Config::new(s("v"), "dir", None, None);
    assert_eq!(c.output_dir, "dir");
}
