use tantivy::collector::TopDocs;
use tantivy::query::QueryParser;
use tantivy::schema::{Field, Schema, TantivyDocument, Value, STORED, TEXT};
use tantivy::snippet::SnippetGenerator;
use tantivy::{Index, IndexWriter};
use vaultsearch::classify::{classify, Classification};
use vaultsearch::ingest::{verdict_after_read, IngestPass};
use vaultsearch::reader::BoundedText;
use vaultsearch::render::{
    highlight_snippet, hits_status, relative_path, search_gate, SearchStatus, TOP_RESULTS,
};

const ROOT: &str = "/work/root";

struct Engine {
    index: Index,
    path: Field,
    contents: Field,
}

fn engine() -> Engine {
    let mut b = Schema::builder();
    let path = b.add_text_field("path", TEXT | STORED);
    let contents = b.add_text_field("contents", TEXT | STORED);
    Engine { index: Index::create_in_ram(b.build()), path, contents }
}

fn ingest(e: &Engine, files: &[(&str, &str)]) -> IngestPass {
    let mut writer: IndexWriter = e.index.writer_with_num_threads(1, 50_000_000).unwrap();
    writer.delete_all_documents().unwrap();
    let mut pass = IngestPass::begin();
    for (name, text) in files {
        let path = format!("{ROOT}/{name}");
        let bytes = text.as_bytes();
        let mut verdict = classify(name, Some(bytes.len() as u64), Some(bytes));
        if verdict == Classification::Include {
            let read = BoundedText::new(bytes.len() as u64).ok().and_then(|mut body| {
                body.push_line(bytes).ok()?;
                body.finish().ok()
            });
            verdict = verdict_after_read(read.is_some());
            if let Some(contents) = read {
                let mut doc = TantivyDocument::new();
                doc.add_text(e.path, &path);
                doc.add_text(e.contents, contents);
                writer.add_document(doc).unwrap();
            }
        }
        pass.record(path, verdict);
    }
    writer.commit().unwrap();
    pass
}

fn search(e: &Engine, query: &str) -> Result<Vec<(f32, String, String)>, SearchStatus> {
    let searcher = e.index.reader().unwrap().searcher();
    if let Some(status) = search_gate(true, true, searcher.num_docs()).unwrap() {
        return Err(status);
    }
    let parser = QueryParser::for_index(&e.index, vec![e.path, e.contents]);
    let q = parser.parse_query(query).unwrap();
    let mut snippets = SnippetGenerator::create(&searcher, &q, e.contents).unwrap();
    snippets.set_max_num_chars(200);
    let top = searcher.search(&q, &TopDocs::with_limit(TOP_RESULTS)).unwrap();
    if hits_status(top.len()) == SearchStatus::NoResults {
        return Err(SearchStatus::NoResults);
    }
    let mut out = Vec::new();
    for (score, addr) in top {
        let doc: TantivyDocument = searcher.doc(addr).unwrap();
        let path = doc.get_first(e.path).and_then(|v| v.as_str()).unwrap().to_string();
        let snippet = highlight_snippet(&snippets.snippet_from_doc(&doc).to_html());
        out.push((score, relative_path(&path, ROOT), snippet));
    }
    Ok(out)
}

const START: [(&str, &str); 2] = [("notes.txt", "rust search tools"), ("todo.md", "build fast indexer")];

#[test]
fn search_finds_only_the_matching_file() {
    let e = engine();
    let pass = ingest(&e, &START);
    assert_eq!(pass.indexed(), 2);
    let hits = search(&e, "rust").unwrap();
    assert_eq!(hits.len(), 1);
    assert_eq!(hits[0].1, "notes.txt");
    assert_eq!(hits[0].2, "\x1b[1mrust\x1b[0m search tools");
}

#[test]
fn unknown_term_reports_no_results() {
    let e = engine();
    ingest(&e, &START);
    assert_eq!(search(&e, "nonexistent-term"), Err(SearchStatus::NoResults));
}

#[test]
fn reindex_with_added_file_finds_it_once() {
    let e = engine();
    ingest(&e, &START);
    let mut files = START.to_vec();
    files.push(("updates.txt", "integration test covers indexing"));
    let pass = ingest(&e, &files);
    assert_eq!(pass.indexed(), 3);
    let hits = search(&e, "integration").unwrap();
    assert_eq!(hits.len(), 1);
    assert_eq!(hits[0].1, "updates.txt");
    assert_eq!(search(&e, "rust").unwrap().len(), 1);
    assert_eq!(e.index.reader().unwrap().searcher().num_docs(), 3);
}

#[test]
fn reindex_without_changes_is_stable() {
    let e = engine();
    ingest(&e, &START);
    let before = search(&e, "rust OR build").unwrap();
    ingest(&e, &START);
    let after = search(&e, "rust OR build").unwrap();
    assert_eq!(e.index.reader().unwrap().searcher().num_docs(), 2);
    assert_eq!(before, after);
}

#[test]
fn deleted_file_disappears_from_results() {
    let e = engine();
    ingest(&e, &START);
    assert_eq!(search(&e, "indexer").unwrap().len(), 1);
    ingest(&e, &START[..1]);
    assert_eq!(search(&e, "indexer"), Err(SearchStatus::NoResults));
}

#[test]
fn scores_do_not_increase_with_rank() {
    let e = engine();
    let files = [
        ("a.txt", "rust rust rust rust"),
        ("b.txt", "rust and other words here"),
        ("c.txt", "rust rust"),
        ("d.md", "nothing relevant"),
    ];
    ingest(&e, &files);
    let hits = search(&e, "rust").unwrap();
    assert_eq!(hits.len(), 3);
    for w in hits.windows(2) {
        assert!(w[0].0 >= w[1].0);
    }
}

#[test]
fn empty_index_is_reported() {
    let e = engine();
    ingest(&e, &[("photo.png", "not text")]);
    assert_eq!(search(&e, "rust"), Err(SearchStatus::EmptyIndex));
}
