use ragllm::chunker::MarkdownFile;
use ragllm::engine::ScoredHit;
use ragllm::error::EmbeddingsError;
use ragllm::model::{Content, Embeddings, Message};
use ragllm::session::{
    first_embedding, ingest_plan, parse_chat_input, ChatInput, ChatSession,
};

#[test]
fn err_pass() {
    let err = EmbeddingsError::new(&format!("testing error {}", "123456".to_string()));
    assert_eq!(err.to_string(), "testing error 123456");
    assert_eq!(err.description(), "testing error 123456");
}

#[test]
fn chat_input_parsing() {
    assert!(matches!(parse_chat_input("exit"), ChatInput::Exit));
    assert!(matches!(parse_chat_input("  exit \n"), ChatInput::Exit));
    assert!(matches!(parse_chat_input(""), ChatInput::Empty));
    assert!(matches!(parse_chat_input(" \t \n"), ChatInput::Empty));
    match parse_chat_input("  hello world \n") {
        ChatInput::Ask(q) => assert_eq!(q, "hello world"),
        _ => panic!("expected a question"),
    }
    match parse_chat_input("exit now") {
        ChatInput::Ask(q) => assert_eq!(q, "exit now"),
        _ => panic!("expected a question"),
    }
}

#[test]
fn message_and_content_constructors() {
    let m = Message::system("be helpful");
    assert_eq!(m.role, "system");
    assert_eq!(m.content, "be helpful");
    let m = Message::user("hi");
    assert_eq!(m.role, "user");
    let m = Message::assistant("hello");
    assert_eq!(m.role, "assistant");
    let c = Content::text("body");
    assert_eq!(c.content_type, "text/plain");
    assert_eq!(c.body, "body");
}

#[test]
fn session_first_turn_uses_preamble_then_spends_it() {
    let mut s = ChatSession::new("cat".to_string(), 5, 500000);
    s.add_system_prompt("you are an assistant");
    assert_eq!(s.messages.len(), 1);

    let hits: Vec<ScoredHit> = Vec::new();
    let (req, sources, found) = s.turn("first question", &hits);
    assert!(!found);
    assert_eq!(sources, "");
    assert!(req.prompt.starts_with("A chat between a curious human"));
    assert!(req.prompt.ends_with("\n### Human: first question\n### Assistant:"));
    assert_eq!(req.messages.len(), 1);
    assert_eq!(req.messages[0].role, "system");

    // The second turn starts from an empty base prompt.
    let (req, _, _) = s.turn("second", &hits);
    assert_eq!(req.prompt, "\n### Human: second\n### Assistant:");
}

#[test]
fn completion_request_fixed_sampling_parameters() {
    let mut s = ChatSession::new("cat".to_string(), 5, 500000);
    let hits: Vec<ScoredHit> = Vec::new();
    let (req, _, _) = s.turn("q", &hits);
    assert_eq!(req.top_k, 20);
    assert_eq!(req.top_p_micros, 700000);
    assert_eq!(req.n_keep, 68);
    assert_eq!(req.n_predict, 256);
    assert!(!req.cache_prompt);
    assert_eq!(req.stop, vec!["\n".to_string(), "### Human:".to_string()]);
    assert_eq!(req.temperature_micros, Some(200000));
    assert!(req.stream);
    assert_eq!(req.max_tokens, 2048);
}

fn mkd(path: &str, contents: &str, headers: Option<&str>) -> MarkdownFile {
    MarkdownFile {
        path: path.to_string(),
        contents: contents.to_string(),
        headers: headers.map(|h| h.to_string()),
    }
}

#[test]
fn ingest_plan_monotonic_ids_contents_mode() {
    let files = vec![mkd("a-0", "alpha", None), mkd("a-1", "beta", None)];
    let plan = ingest_plan(&files, false);
    assert_eq!(plan.len(), 2);
    assert_eq!(plan[0].point_id, 0);
    assert_eq!(plan[1].point_id, 1);
    assert_eq!(plan[0].doc_id, "a-0");
    assert_eq!(plan[0].embed_text, "alpha");
    assert_eq!(plan[1].embed_text, "beta");
    assert_eq!(plan[1].contents, "beta");
}

#[test]
fn ingest_plan_embeds_headers_in_header_mode() {
    let files = vec![mkd("a.md", "full text", Some("# script x\n"))];
    let plan = ingest_plan(&files, true);
    assert_eq!(plan.len(), 1);
    assert_eq!(plan[0].embed_text, "# script x\n");
    assert_eq!(plan[0].contents, "full text");
}

#[test]
fn first_embedding_selects_first_vector() {
    let rows = vec![Embeddings { index: 0, embedding: vec![vec![1u32, 2, 3], vec![9, 9]] }];
    let v = first_embedding(rows).unwrap();
    assert_eq!(v, vec![1, 2, 3]);
}

#[test]
fn first_embedding_empty_response_is_an_error() {
    let rows: Vec<Embeddings<u32>> = Vec::new();
    let e = first_embedding(rows).unwrap_err();
    assert_eq!(e.details, "empty embedding");

    let rows = vec![Embeddings { index: 0, embedding: Vec::<Vec<u32>>::new() }];
    let e = first_embedding(rows).unwrap_err();
    assert_eq!(e.details, "empty embedding");
}
