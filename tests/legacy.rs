use itell::error::{Entity, Problem};
use itell::json::Json;
use itell::legacy::{clean_pages, legacy_pages_from_text};
use itell::model::ChunkType;

const DOC: &str = r#"{"data": {"attributes": {"Pages": {"data": [
    {"attributes": {"Title": "First", "Slug": "first", "HasSummary": true,
        "Chapter": {"data": {"attributes": {"Title": "Ch", "Slug": "ch"}}},
        "Content": [{"Header": "A", "Slug": "a", "MDX": "text", "HeaderLevel": "h4",
                     "__component": "page.plain-chunk", "Question": "Q", "ConstructedResponse": "R"},
                    {"Header": "B", "Slug": "b", "MDX": "more", "HeaderLevel": "H3"}]}},
    {"attributes": {"Title": "Second", "Slug": "second", "HasSummary": "false",
        "Chapter": {"data": null}}}
]}}}}"#;

#[test]
fn older_pages_are_read_in_position_order() {
    let pages = legacy_pages_from_text(DOC).expect("pages");
    assert_eq!(pages.len(), 2);
    assert_eq!(pages[0].title, "First");
    assert_eq!(pages[0].order, 0);
    assert_eq!(pages[1].order, 1);
    assert_eq!(pages[0].assignments, vec!["summary".to_string()]);
    assert!(pages[1].assignments.is_empty());
    assert_eq!(pages[0].parent.as_ref().expect("parent").slug, "ch");
    assert!(pages[1].parent.is_none());
    let a = &pages[0].chunks[0];
    assert_eq!(a.content, "text");
    assert_eq!(a.depth, 4);
    assert_eq!(a.chunk_type, ChunkType::Plain);
    assert_eq!(a.cri.as_ref().expect("cri").answer, "R");
    assert_eq!(pages[0].chunks[1].depth, 2);
    assert!(pages[1].chunks.is_empty());
}

#[test]
fn older_page_errors() {
    let pages = vec![Json::Object(vec![("Title".to_string(), Json::Str("x".to_string()))])];
    let e = clean_pages(&pages).unwrap_err();
    assert!(matches!(e.entity, Entity::PageAt(0)));
    assert!(matches!(&e.problem, Problem::Missing(f) if f == "attributes"));
    let e = legacy_pages_from_text(r#"{"data": {"Pages": []}}"#).unwrap_err();
    assert!(matches!(&e.problem, Problem::Missing(f) if f == "attributes"));
    let e = legacy_pages_from_text("{").unwrap_err();
    assert!(matches!(e.problem, Problem::NotJson));
}
