use itell::error::{Entity, IngestError, Problem};
use itell::ingest::{collect_pages, parse_chunk, parse_volume_document, video_id};
use itell::json::{get_bool, get_text, get_usize, parse_usize, Json};
use itell::model::{ChunkType, PageData, VolumeData};

fn s(x: &str) -> String {
    x.to_string()
}

fn obj(entries: Vec<(&str, Json)>) -> Json {
    Json::Object(entries.into_iter().map(|(k, v)| (k.to_string(), v)).collect())
}

fn text(x: &str) -> Json {
    Json::Str(x.to_string())
}

fn volume_with(pages: Vec<Json>) -> VolumeData {
    VolumeData {
        title: s("Vol"),
        description: s("D"),
        slug: s("vol"),
        free_pages: vec![],
        summary: None,
        pages,
    }
}

fn regular_chunk(slug: &str) -> Json {
    obj(vec![("Header", text("Heading")), ("Slug", text(slug)), ("MD", text("Body text"))])
}

fn page(title: &str, slug: &str, order: Json, content: Vec<Json>) -> Json {
    obj(vec![
        ("Title", text(title)),
        ("Slug", text(slug)),
        ("HasSummary", Json::Bool(true)),
        ("Order", order),
        ("Content", Json::Array(content)),
    ])
}

fn pages_of(v: &VolumeData) -> Vec<PageData> {
    collect_pages(v).expect("pages parse")
}

fn missing_field(e: &IngestError) -> String {
    match &e.problem {
        Problem::Missing(f) => f.clone(),
        other => panic!("unexpected problem {:?}", other),
    }
}

#[test]
fn coercion_accepts_strings_numbers_and_booleans() {
    let v = obj(vec![
        ("n", Json::Number(s("3"))),
        ("b", Json::Bool(true)),
        ("t", text("true")),
        ("o", text("+5")),
        ("x", Json::Null),
    ]);
    assert_eq!(get_usize(&v, "n"), Some(3));
    assert_eq!(get_text(&v, "b"), Some(s("true")));
    assert_eq!(get_bool(&v, "t"), Some(true));
    assert_eq!(get_usize(&v, "o"), Some(5));
    assert_eq!(get_text(&v, "x"), None);
    assert_eq!(get_text(&v, "absent"), None);
    assert_eq!(get_bool(&v, "n"), None);
}

#[test]
fn unsigned_parsing_matches_std() {
    for t in ["0", "42", "+7", "007", "18446744073709551615"] {
        assert_eq!(parse_usize(t), t.parse::<usize>().ok(), "{}", t);
    }
    for t in ["", "+", "-1", "3.5", "1e3", " 1", "18446744073709551616"] {
        assert_eq!(parse_usize(t), None, "{}", t);
    }
}

#[test]
fn volume_document_is_read() {
    let doc = r#"{"data": {"Title": "Intro Book", "Description": "About", "Slug": "intro-book",
        "VolumeSummary": "Sum", "FreePages": "a,,b", "Pages": [{"Title": "P"}]}}"#;
    let v = parse_volume_document(doc).expect("volume");
    assert_eq!(v.title, "Intro Book");
    assert_eq!(v.description, "About");
    assert_eq!(v.slug, "intro-book");
    assert_eq!(v.summary, Some(s("Sum")));
    assert_eq!(v.free_pages, vec![s("a"), s("b")]);
    assert_eq!(v.pages.len(), 1);
}

#[test]
fn volume_document_errors() {
    let e = parse_volume_document("not json").unwrap_err();
    assert!(matches!(e.problem, Problem::NotJson));
    let e = parse_volume_document(r#"{"nodata": 1}"#).unwrap_err();
    assert!(matches!(e.entity, Entity::Volume));
    assert_eq!(missing_field(&e), "data");
    let e = parse_volume_document(r#"{"data": {"Title": "T", "Description": "D", "Slug": "s"}}"#).unwrap_err();
    assert_eq!(missing_field(&e), "Pages");
    let e = parse_volume_document(r#"{"data": {"Pages": [], "Description": "D", "Slug": "s"}}"#).unwrap_err();
    assert_eq!(missing_field(&e), "Title");
    let e = parse_volume_document(r#"{"data": {"Pages": [], "Title": "T", "Slug": "s"}}"#).unwrap_err();
    assert_eq!(missing_field(&e), "Description");
    let e = parse_volume_document(r#"{"data": {"Pages": [], "Title": "T", "Description": "D"}}"#).unwrap_err();
    assert_eq!(missing_field(&e), "Slug");
}

#[test]
fn numbers_read_as_their_float_text() {
    let doc = r#"{"data": {"Title": 12, "Description": true, "Slug": 1.5, "Pages": []}}"#;
    let v = parse_volume_document(doc).expect("volume");
    assert_eq!(v.title, "12");
    assert_eq!(v.description, "true");
    assert_eq!(v.slug, "1.5");
}

#[test]
fn page_without_order_fails_naming_page_and_field() {
    let raw = obj(vec![
        ("Title", text("Intro")),
        ("Slug", text("intro")),
        ("HasSummary", Json::Bool(false)),
        ("Content", Json::Array(vec![regular_chunk("a")])),
    ]);
    let good = page("Other", "other", Json::Number(s("1")), vec![]);
    let e = collect_pages(&volume_with(vec![good, raw])).unwrap_err();
    match &e.entity {
        Entity::Page(t) => assert_eq!(t, "Intro"),
        other => panic!("unexpected entity {:?}", other),
    }
    assert_eq!(missing_field(&e), "Order");
}

#[test]
fn page_without_title_is_named_by_position() {
    let raw = obj(vec![("Slug", text("x"))]);
    let good = page("A", "a", Json::Number(s("1")), vec![]);
    let e = collect_pages(&volume_with(vec![good, raw])).unwrap_err();
    assert!(matches!(e.entity, Entity::PageAt(1)));
    assert_eq!(missing_field(&e), "Title");
}

#[test]
fn page_fields_are_read() {
    let raw = obj(vec![
        ("Title", text("Intro")),
        ("Slug", text("intro")),
        ("HasSummary", text("true")),
        ("Order", text("4")),
        ("Chapter", obj(vec![("Title", text("Ch 1")), ("Slug", text("ch-1"))])),
        ("Content", Json::Array(vec![regular_chunk("a"), regular_chunk("b")])),
    ]);
    let pages = pages_of(&volume_with(vec![raw]));
    assert_eq!(pages.len(), 1);
    let p = &pages[0];
    assert_eq!(p.title, "Intro");
    assert_eq!(p.slug, "intro");
    assert_eq!(p.order, 4);
    assert_eq!(p.assignments, vec![s("summary")]);
    let parent = p.parent.as_ref().expect("parent");
    assert_eq!(parent.title, "Ch 1");
    assert_eq!(parent.slug, "ch-1");
    assert!(p.quiz.is_none());
    assert_eq!(p.chunks.len(), 2);
    assert_eq!(p.chunks[1].slug, "b");
}

#[test]
fn null_chapter_is_no_parent_and_incomplete_chapter_fails() {
    let mut raw = page("T", "t", Json::Number(s("1")), vec![]);
    if let Json::Object(entries) = &mut raw {
        entries.push((s("Chapter"), Json::Null));
    }
    let pages = pages_of(&volume_with(vec![raw]));
    assert!(pages[0].parent.is_none());

    let mut raw = page("T", "t", Json::Number(s("1")), vec![]);
    if let Json::Object(entries) = &mut raw {
        entries.push((s("Chapter"), obj(vec![("Title", text("C"))])));
    }
    let e = collect_pages(&volume_with(vec![raw])).unwrap_err();
    assert!(matches!(&e.entity, Entity::Chapter(t) if t == "T"));
    assert_eq!(missing_field(&e), "Slug");
}

#[test]
fn regular_chunk_fields_and_depths() {
    let c = obj(vec![
        ("Header", text("H")),
        ("Slug", text("h")),
        ("MD", text("body")),
        ("ShowHeader", Json::Bool(true)),
        ("HeaderLevel", text("H3")),
        ("__component", text("page.plain-chunk")),
    ]);
    let chunk = parse_chunk(&c, 0, "P").expect("chunk");
    assert_eq!(chunk.title, "H");
    assert_eq!(chunk.slug, "h");
    assert_eq!(chunk.content, "body");
    assert_eq!(chunk.depth, 3);
    assert!(chunk.show_header);
    assert_eq!(chunk.chunk_type, ChunkType::Plain);
    assert!(chunk.cri.is_none());

    let c = obj(vec![("Header", text("H")), ("Slug", text("h")), ("MD", text("b")), ("HeaderLevel", text("h4"))]);
    let chunk = parse_chunk(&c, 0, "P").expect("chunk");
    assert_eq!(chunk.depth, 4);
    assert!(!chunk.show_header);
    assert_eq!(chunk.chunk_type, ChunkType::Regular);

    let c = obj(vec![("Header", text("H")), ("Slug", text("h")), ("MD", text("b")), ("HeaderLevel", text("h5"))]);
    assert_eq!(parse_chunk(&c, 0, "P").expect("chunk").depth, 2);
}

#[test]
fn regular_chunk_missing_fields() {
    let c = obj(vec![("Slug", text("h")), ("MD", text("b"))]);
    let e = parse_chunk(&c, 2, "P").unwrap_err();
    assert!(matches!(&e.entity, Entity::Chunk(t, 2) if t == "P"));
    assert_eq!(missing_field(&e), "Header");
    let c = obj(vec![("Header", text("H")), ("MD", text("b"))]);
    assert_eq!(missing_field(&parse_chunk(&c, 0, "P").unwrap_err()), "Slug");
    let c = obj(vec![("Header", text("H")), ("Slug", text("h"))]);
    assert_eq!(missing_field(&parse_chunk(&c, 0, "P").unwrap_err()), "MD");
}

#[test]
fn video_chunk_embeds_the_video() {
    let c = obj(vec![
        ("__component", text("page.video")),
        ("Header", text("Watch")),
        ("Slug", text("watch")),
        ("URL", text("https://www.youtube.com/watch?v=abc123&t=5")),
        ("Description", text("A talk")),
        ("ShowHeader", Json::Bool(false)),
    ]);
    let chunk = parse_chunk(&c, 0, "P").expect("video");
    assert_eq!(chunk.chunk_type, ChunkType::Video);
    assert_eq!(chunk.depth, 2);
    assert!(chunk.show_header);
    assert_eq!(
        chunk.content,
        "A talk\n\n<i-youtube videoid=\"abc123\" height={400} width=\"100%\" >\n\n</i-youtube>\n\n"
    );
}

#[test]
fn video_chunk_missing_url() {
    let c = obj(vec![("__component", text("page.video")), ("Header", text("W")), ("Slug", text("w"))]);
    assert_eq!(missing_field(&parse_chunk(&c, 0, "P").unwrap_err()), "URL");
}

#[test]
fn video_ids() {
    assert_eq!(video_id("https://youtu.be/watch?v=xyz"), "xyz");
    assert_eq!(video_id("https://example.com/video"), "");
    assert_eq!(video_id("?v=&a=1"), "");
    assert_eq!(video_id("?a=1&v=q1&v=q2"), "q1");
}

#[test]
fn video_cri_needs_question_and_answer() {
    let base = || {
        vec![
            ("__component", text("page.video")),
            ("Header", text("W")),
            ("Slug", text("w")),
            ("URL", text("u?v=1")),
        ]
    };
    let mut only_question = base();
    only_question.push(("Question", text("Why?")));
    assert!(parse_chunk(&obj(only_question), 0, "P").expect("video").cri.is_none());
    let mut only_answer = base();
    only_answer.push(("ConstructedResponse", text("Because.")));
    assert!(parse_chunk(&obj(only_answer), 0, "P").expect("video").cri.is_none());
    let mut both = base();
    both.push(("Question", text("Why?")));
    both.push(("ConstructedResponse", text("Because.")));
    let cri = parse_chunk(&obj(both), 0, "P").expect("video").cri.expect("cri");
    assert_eq!(cri.question, "Why?");
    assert_eq!(cri.answer, "Because.");
    assert_eq!(cri.slug, "w");
}

fn quiz_page(questions: Vec<Json>) -> Json {
    obj(vec![
        ("Title", text("Q")),
        ("Slug", text("q")),
        ("HasSummary", Json::Bool(true)),
        ("Order", Json::Number(s("1"))),
        ("Quiz", obj(vec![("Questions", Json::Array(questions))])),
    ])
}

fn answer(id: &str, t: &str, correct: bool) -> Json {
    obj(vec![("id", Json::Number(s(id))), ("Text", text(t)), ("IsCorrect", Json::Bool(correct))])
}

#[test]
fn multiple_choice_question_keeps_answer_order() {
    let q = obj(vec![
        ("id", Json::Number(s("7"))),
        ("__component", text("quizzes.multiple-choice-question")),
        ("Question", text("Pick")),
        ("Answers", Json::Array(vec![answer("1", "A", true), answer("2", "B", false)])),
    ]);
    let pages = pages_of(&volume_with(vec![quiz_page(vec![q])]));
    let quiz = pages[0].quiz.as_ref().expect("quiz");
    assert_eq!(quiz.len(), 1);
    assert_eq!(quiz[0].question, "Pick");
    assert_eq!(quiz[0].answers.len(), 2);
    assert_eq!(quiz[0].answers[0].answer, "A");
    assert!(quiz[0].answers[0].correct);
    assert_eq!(quiz[0].answers[1].answer, "B");
    assert!(!quiz[0].answers[1].correct);
    assert_eq!(pages[0].assignments, vec![s("summary"), s("quiz")]);
}

#[test]
fn empty_quiz_is_no_quiz() {
    let pages = pages_of(&volume_with(vec![quiz_page(vec![])]));
    assert!(pages[0].quiz.is_none());
    assert_eq!(pages[0].assignments, vec![s("summary")]);
}

#[test]
fn quiz_errors() {
    let no_answers = obj(vec![
        ("id", Json::Number(s("7"))),
        ("__component", text("quizzes.multiple-choice-question")),
        ("Question", text("Pick")),
        ("Answers", Json::Array(vec![])),
    ]);
    let e = collect_pages(&volume_with(vec![quiz_page(vec![no_answers])])).unwrap_err();
    assert!(matches!(&e.entity, Entity::Question(p, id) if p == "Q" && id == "7"));
    assert_eq!(missing_field(&e), "Answers");

    let bad_answer = obj(vec![
        ("id", Json::Number(s("7"))),
        ("__component", text("quizzes.multiple-choice-question")),
        ("Question", text("Pick")),
        ("Answers", Json::Array(vec![answer("1", "A", true), obj(vec![("id", text("2")), ("Text", text("B"))])])),
    ]);
    let e = collect_pages(&volume_with(vec![quiz_page(vec![bad_answer])])).unwrap_err();
    assert!(matches!(&e.entity, Entity::Answer(_, id, 1) if id == "7"));
    assert_eq!(missing_field(&e), "IsCorrect");

    let no_id = obj(vec![("Question", text("Pick"))]);
    let e = collect_pages(&volume_with(vec![quiz_page(vec![no_id])])).unwrap_err();
    assert!(matches!(&e.entity, Entity::QuizEntry(_, 0)));
    assert_eq!(missing_field(&e), "id");

    let unknown = obj(vec![("id", text("3"))]);
    let e = collect_pages(&volume_with(vec![quiz_page(vec![unknown])])).unwrap_err();
    assert!(matches!(e.problem, Problem::UnknownQuizEntry));
}

fn generated(yaml: &str) -> Json {
    obj(vec![("id", text("g1")), ("GeneratedQuestion", text(yaml))])
}

#[test]
fn generated_question_takes_first_item() {
    let yaml = "- question: What?\n  answers:\n    - answer: This\n      correct: true\n    - answer: That\n      correct: false\n- question: Second\n  answers: []\n";
    let pages = pages_of(&volume_with(vec![quiz_page(vec![generated(yaml)])]));
    let quiz = pages[0].quiz.as_ref().expect("quiz");
    assert_eq!(quiz.len(), 1);
    assert_eq!(quiz[0].question, "What?");
    assert_eq!(quiz[0].answers.len(), 2);
    assert_eq!(quiz[0].answers[0].answer, "This");
    assert!(quiz[0].answers[0].correct);
    assert_eq!(quiz[0].answers[1].answer, "That");
    assert!(!quiz[0].answers[1].correct);
}

#[test]
fn generated_question_errors() {
    let e = collect_pages(&volume_with(vec![quiz_page(vec![generated("[]")])])).unwrap_err();
    assert!(matches!(e.problem, Problem::EmptyGeneratedQuiz));
    let e = collect_pages(&volume_with(vec![quiz_page(vec![generated("- question: [unclosed")])])).unwrap_err();
    assert!(matches!(e.problem, Problem::MalformedGeneratedQuiz));
    let e = collect_pages(&volume_with(vec![quiz_page(vec![generated("- answers: []")])])).unwrap_err();
    assert!(matches!(e.problem, Problem::MalformedGeneratedQuiz));
    let e = collect_pages(&volume_with(vec![quiz_page(vec![generated("question: alone")])])).unwrap_err();
    assert!(matches!(&e.entity, Entity::Question(_, id) if id == "g1"));
    assert!(matches!(e.problem, Problem::MalformedGeneratedQuiz));
}
