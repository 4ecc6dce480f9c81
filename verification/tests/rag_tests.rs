use chatbot_backend::ai::cloudflare::v1::rag::{
    augment_prompt, chunk_text, chunks_fit, doc_sections, embed_failure, embed_outcome, embed_request,
    fetch_failure, fetch_request, first_embedding, page_outcome, query_request, upsert_failure,
    upsert_outcome, upsert_request,
    index_docs, vector_records, IndexAction,
};
use chatbot_backend::error::Error;
use chatbot_backend::json::Json;
use chatbot_backend::request::Method;

fn reference_chunks(text: &str, k: usize) -> Vec<String> {
    text.split_whitespace()
        .collect::<Vec<_>>()
        .chunks(k)
        .map(|c| c.join(" "))
        .filter(|c| c.len() > 50)
        .collect()
}

#[test]
fn eighteen_sections_in_order() {
    let s = doc_sections();
    assert_eq!(s.len(), 18);
    assert_eq!(s[0], ("quick-start".to_string(), "https://docs.nftreasure.com/quick-start".to_string()));
    assert_eq!(s[17], ("agency-services".to_string(), "https://docs.nftreasure.com/agency-services".to_string()));
}

#[test]
fn chunks_match_the_reference_cutting() {
    let long: String = (0..1000).map(|i| format!("word{} ", i)).collect();
    let texts = [
        "",
        "short text",
        "  lots   of\twhite\nspace  between these words which add up to more than fifty bytes ",
        long.as_str(),
        "ünïcödé wörds ünïcödé wörds ünïcödé wörds ünïcödé wörds ünïcödé",
    ];
    for t in texts {
        for k in [1usize, 2, 3, 7, 300] {
            assert_eq!(chunk_text(t.to_string(), k), reference_chunks(t, k), "k={} {:?}", k, t);
        }
    }
}

#[test]
fn short_chunks_are_dropped() {
    assert!(chunk_text("a b c".to_string(), 300).is_empty());
    let exactly_fifty = "x".repeat(50);
    assert!(chunk_text(exactly_fifty, 300).is_empty());
    let fifty_one = "y".repeat(51);
    assert_eq!(chunk_text(fifty_one.clone(), 300), vec![fifty_one]);
}

#[test]
fn records_are_named_and_cut() {
    let long = "z".repeat(1200);
    let chunks = vec!["first chunk".to_string(), long.clone(), "third".to_string()];
    let embeddings = vec![vec![1u32, 2], vec![3u32]];
    assert!(chunks_fit(&chunks, embeddings.len()));
    let recs = vector_records("team", "https://docs.nftreasure.com/team", &chunks, &embeddings);
    assert_eq!(recs.len(), 2);
    assert_eq!(recs[0].id, "team-0");
    assert_eq!(recs[0].values, vec![1, 2]);
    assert_eq!(recs[0].text, "first chunk");
    assert_eq!(recs[0].section, "team");
    assert_eq!(recs[0].url, "https://docs.nftreasure.com/team");
    assert_eq!(recs[1].id, "team-1");
    assert_eq!(recs[1].text, format!("{}...", &long[..1000]));
}

#[test]
fn cut_inside_a_character_is_detected() {
    let s = format!("{}é", "a".repeat(999));
    let chunks = vec![s.clone()];
    assert!(!chunks_fit(&chunks, 1));
    assert!(chunks_fit(&chunks, 0));
    assert!(!s.is_char_boundary(1000));
}

#[test]
fn request_builders() {
    let f = fetch_request("https://docs.nftreasure.com/team");
    assert_eq!(f.method, Method::Get);
    assert_eq!(f.headers, vec![("User-Agent".to_string(), "Bot-Indexer/1.0".to_string())]);
    assert_eq!(f.body, None);

    let texts = vec!["one \"quoted\"".to_string(), "two".to_string()];
    let e = embed_request("acc", "tok", &texts);
    assert_eq!(e.url, "https://api.cloudflare.com/client/v4/accounts/acc/ai/run/@cf/baai/bge-small-en-v1.5");
    let mut m = serde_json::Map::new();
    m.insert(
        "text".to_string(),
        serde_json::Value::Array(texts.iter().map(|t| serde_json::Value::String(t.clone())).collect()),
    );
    assert_eq!(e.body.unwrap(), serde_json::Value::Object(m).to_string());
    assert_eq!(
        e.headers,
        vec![
            ("Content-Type".to_string(), "application/json".to_string()),
            ("Authorization".to_string(), "Bearer tok".to_string()),
        ]
    );
    let empty = embed_request("acc", "tok", &Vec::new());
    assert_eq!(empty.body.unwrap(), "{\"text\":[]}");

    let u = upsert_request("acc", "tok");
    assert_eq!(u.url, "https://api.cloudflare.com/client/v4/accounts/acc/vectorize/v2/indexes/tresr-docs/upsert");
    assert_eq!(u.headers[0], ("Content-Type".to_string(), "application/x-ndjson".to_string()));
    assert_eq!(u.headers[2], ("CF-API-Version".to_string(), "2".to_string()));
    let q = query_request("acc", "tok");
    assert_eq!(q.url, "https://api.cloudflare.com/client/v4/accounts/acc/vectorize/v2/indexes/tresr-docs/query");
    assert_eq!(q.headers[0], ("Content-Type".to_string(), "application/json".to_string()));
}

#[test]
fn failure_messages() {
    assert_eq!(fetch_failure("https://x", 404).message, "Failed to fetch https://x: 404");
    assert_eq!(embed_failure(500, "oops").message, "AI API Error 500: oops");
    assert_eq!(upsert_failure("bad").message, "Upsert Error: bad");
}

#[test]
fn first_embedding_or_error() {
    assert_eq!(first_embedding(&vec![vec![7u32], vec![8]]).unwrap(), vec![7]);
    assert_eq!(first_embedding(&Vec::new()).unwrap_err().message, "Embedding failed");
}

fn meta(url: Option<&str>, text: Option<&str>) -> Json {
    let mut fields = Vec::new();
    if let Some(t) = text {
        fields.push(("text".to_string(), Json::Text(t.to_string())));
    }
    if let Some(u) = url {
        fields.push(("url".to_string(), Json::Text(u.to_string())));
    }
    Json::Object(fields)
}

#[test]
fn context_from_matches() {
    let matches = vec![
        Some(meta(Some("https://a"), Some("alpha"))),
        None,
        Some(meta(None, Some("beta"))),
        Some(Json::Null),
    ];
    assert_eq!(augment_prompt(&matches), "From https://a: alpha\n\nFrom : beta\n\nFrom : \n\n");
    assert_eq!(augment_prompt(&vec![None]), "No relevant documentation found.");
    assert_eq!(augment_prompt(&Vec::new()), "No relevant documentation found.");
}

fn page_with_words(n: usize) -> String {
    let words: String = (0..n).map(|i| format!("token{} ", i)).collect();
    format!("<html><body><p>{}</p></body></html>", words)
}

#[test]
fn indexing_run_skips_batches_and_flushes() {
    let (mut ix, mut action) = index_docs();
    let mut fetched = Vec::new();
    let mut upserted: Vec<Vec<String>> = Vec::new();
    loop {
        action = match action {
            IndexAction::Fetch { slug, url } => {
                assert_eq!(url, format!("https://docs.nftreasure.com/{}", slug));
                fetched.push(slug.clone());
                if slug == "overview" {
                    ix.on_page(Err(Error::new("Failed to fetch".to_string())))
                } else {
                    // 700 words give three chunks of 300, 300 and 100 words
                    ix.on_page(Ok(page_with_words(700)))
                }
            },
            IndexAction::Embed { texts } => {
                assert_eq!(texts.len(), 3);
                assert!(texts[0].starts_with("token0 token1"));
                assert!(!texts[0].contains('<'));
                let embs: Vec<Vec<u32>> = texts.iter().map(|_| vec![0x3f80_0000u32]).collect();
                assert!(ix.fits_embeddings(embs.len()));
                ix.on_embeddings(Ok(embs))
            },
            IndexAction::Upsert { records } => {
                upserted.push(records.iter().map(|r| r.id.clone()).collect());
                ix.on_upsert(Ok(()))
            },
            IndexAction::Finish(res) => {
                assert!(res.is_ok());
                break;
            },
        };
    }
    assert_eq!(fetched.len(), 18);
    assert_eq!(fetched[1], "overview");
    // 17 pages of 3 records: upserts after 4 pages (12), again every 4 pages, last flush of 5 records.
    let sizes: Vec<usize> = upserted.iter().map(|b| b.len()).collect();
    assert_eq!(sizes, vec![12, 12, 12, 12, 3]);
    assert_eq!(upserted[0][0], "quick-start-0");
    assert_eq!(upserted[0][3], "manifesto-0");
}

#[test]
fn embedding_error_ends_the_run() {
    let (mut ix, _) = index_docs();
    let a = ix.on_page(Ok(page_with_words(100)));
    assert!(matches!(a, IndexAction::Embed { .. }));
    match ix.on_embeddings(Err(Error::new("AI API Error 500: x".to_string()))) {
        IndexAction::Finish(Err(e)) => assert_eq!(e.message, "AI API Error 500: x"),
        _ => panic!("expected the run to end"),
    }
}

#[test]
fn upsert_error_ends_the_run() {
    let (mut ix, _) = index_docs();
    let mut action = ix.on_page(Ok(page_with_words(3000)));
    if let IndexAction::Embed { texts } = action {
        assert_eq!(texts.len(), 10);
        let embs: Vec<Vec<u32>> = texts.iter().map(|_| vec![1u32]).collect();
        action = ix.on_embeddings(Ok(embs));
    }
    match action {
        IndexAction::Upsert { records } => assert_eq!(records.len(), 10),
        _ => panic!("expected an upsert"),
    }
    match ix.on_upsert(Err(Error::new("Upsert Error: no".to_string()))) {
        IndexAction::Finish(Err(e)) => assert_eq!(e.message, "Upsert Error: no"),
        _ => panic!("expected the run to end"),
    }
}

#[test]
fn pages_without_chunks_are_skipped() {
    let (mut ix, _) = index_docs();
    match ix.on_page(Ok("<p>tiny</p>".to_string())) {
        IndexAction::Fetch { slug, .. } => assert_eq!(slug, "overview"),
        _ => panic!("expected the next fetch"),
    }
}

#[test]
fn status_outcomes() {
    assert_eq!(page_outcome("https://x", 200, Ok("<p>hi</p>".to_string())).unwrap(), "<p>hi</p>");
    assert_eq!(page_outcome("https://x", 200, Err("read".to_string())).unwrap_err().message, "read");
    assert_eq!(page_outcome("https://x", 404, Ok("nope".to_string())).unwrap_err().message, "Failed to fetch https://x: 404");
    assert_eq!(embed_outcome(200, Ok("{\"result\":{}}".to_string())).unwrap(), "{\"result\":{}}");
    assert_eq!(embed_outcome(500, Ok("oops".to_string())).unwrap_err().message, "AI API Error 500: oops");
    assert_eq!(embed_outcome(429, Err("read".to_string())).unwrap_err().message, "AI API Error 429: ");
    assert!(upsert_outcome(200, Ok("anything".to_string())).is_ok());
    assert!(upsert_outcome(200, Err("read".to_string())).is_ok());
    assert_eq!(upsert_outcome(400, Ok("bad".to_string())).unwrap_err().message, "Upsert Error: bad");
    assert_eq!(upsert_outcome(201, Err("read".to_string())).unwrap_err().message, "Upsert Error: ");
}

#[test]
fn indexing_run_upserts_each_record_once_in_order() {
    let (mut ix, mut action) = index_docs();
    let mut expected: Vec<String> = Vec::new();
    let mut upserted: Vec<String> = Vec::new();
    let mut sizes: Vec<usize> = Vec::new();
    let mut expected_values: Vec<Vec<u32>> = Vec::new();
    let mut values: Vec<Vec<u32>> = Vec::new();
    let mut page = 0usize;
    loop {
        action = match action {
            IndexAction::Fetch { slug, .. } => {
                // pages of 1 to 5 chunks of 300 words
                let n = page % 5 + 1;
                page += 1;
                for i in 0..n {
                    expected.push(format!("{}-{}", slug, i));
                    expected_values.push(vec![((page - 1) * 100 + i) as u32]);
                }
                ix.on_page(Ok(page_with_words(300 * n)))
            },
            IndexAction::Embed { texts } => {
                let embs: Vec<Vec<u32>> = (0..texts.len()).map(|i| vec![((page - 1) * 100 + i) as u32]).collect();
                ix.on_embeddings(Ok(embs))
            },
            IndexAction::Upsert { records } => {
                sizes.push(records.len());
                upserted.extend(records.iter().map(|r| r.id.clone()));
                values.extend(records.iter().map(|r| r.values.clone()));
                ix.on_upsert(Ok(()))
            },
            IndexAction::Finish(res) => {
                assert!(res.is_ok());
                break;
            },
        };
    }
    assert_eq!(upserted, expected);
    assert_eq!(values, expected_values);
    let mut unique = upserted.clone();
    unique.sort();
    unique.dedup();
    assert_eq!(unique.len(), upserted.len());
    assert!(sizes.iter().all(|&s| s > 0));
    assert!(sizes[..sizes.len() - 1].iter().all(|&s| s >= 10));
}
