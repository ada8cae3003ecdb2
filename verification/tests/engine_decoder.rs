use ragllm::decoder::{advance_wrap, StreamDecoder};
use ragllm::engine::{
    bad_route_response, build_turn_prompt, decide_route, decide_single_query, error_response,
    health_response, no_match_response, ok_response, score_string, QueryDecision, Route,
    ScoredHit,
};

fn hit(score_micros: i64, id: &str, contents: &str) -> ScoredHit {
    ScoredHit { score_micros, id: id.to_string(), contents: contents.to_string() }
}

#[test]
fn threshold_is_a_strict_exclusive_bound() {
    // At threshold 0.5 (500000 micros): a score of exactly 0.5 is
    // excluded, a score of 0.50001 is included.
    let hits = vec![hit(500000, "eq", "EQUAL"), hit(500010, "above", "ABOVE")];
    let (prompt, sources, found) = build_turn_prompt("base", &hits, 500000, "q");
    assert!(found);
    assert!(prompt.contains("ABOVE"));
    assert!(!prompt.contains("EQUAL"));
    assert_eq!(sources, "above ");
}

#[test]
fn empty_results_take_the_fallback_path() {
    let hits: Vec<ScoredHit> = Vec::new();
    let (prompt, sources, found) = build_turn_prompt("base", &hits, 500000, "question");
    assert!(!found);
    assert_eq!(prompt, "base\n### Human: question\n### Assistant:");
    assert_eq!(sources, "");
}

#[test]
fn all_below_threshold_take_the_fallback_path() {
    let hits = vec![hit(100, "a", "A"), hit(200, "b", "B")];
    let (prompt, _, found) = build_turn_prompt("base", &hits, 500000, "q");
    assert!(!found);
    assert_eq!(prompt, "base\n### Human: q\n### Assistant:");
}

#[test]
fn augmented_prompt_exact_shape() {
    let hits = vec![hit(900000, "doc.md-0", "CTX")];
    let (prompt, sources, found) = build_turn_prompt("BASE", &hits, 500000, "why?");
    assert!(found);
    assert_eq!(
        prompt,
        "BASE\nAnswer the question based only on the following context:\n\nCTX\n --- \n\
         \n### Human: Summarize the answer based on the above context:  why?\n### Assitant:"
    );
    assert_eq!(sources, "doc.md-0 ");
}

#[test]
fn single_query_decision_threshold() {
    let d = decide_single_query(&Some(hit(500000, "x", "")), 500000);
    assert!(matches!(d, QueryDecision::NoMatch));
    let d = decide_single_query(&Some(hit(500010, "x", "")), 500000);
    match d {
        QueryDecision::Fetch { id, score_micros } => {
            assert_eq!(id, "x");
            assert_eq!(score_micros, 500010);
        }
        QueryDecision::NoMatch => panic!("expected a fetch"),
    }
    let d = decide_single_query(&None, 500000);
    assert!(matches!(d, QueryDecision::NoMatch));
}

#[test]
fn score_strings() {
    assert_eq!(score_string(0), "0");
    assert_eq!(score_string(500000), "0.5");
    assert_eq!(score_string(500010), "0.50001");
    assert_eq!(score_string(123456), "0.123456");
    assert_eq!(score_string(2000000), "2");
    assert_eq!(score_string(-1500000), "-1.5");
    assert_eq!(score_string(1000001), "1.000001");
}

#[test]
fn score_string_edges() {
    assert_eq!(score_string(999999), "0.999999");
    assert_eq!(score_string(-1), "-0.000001");
    assert_eq!(score_string(1500000), "1.5");
    assert_eq!(score_string(10000000), "10");
}

#[test]
fn decoder_splits_on_first_marker_only() {
    // The text after the first marker is what gets parsed, so a marker
    // inside the content survives.
    let mut d = StreamDecoder::new();
    let mut sink = String::new();
    d.feed(&b"data: {\"content\":\"data: x\"}\n".to_vec(), &mut sink);
    assert_eq!(sink, "data: x");
}

#[test]
fn response_shapes() {
    let r = health_response();
    assert_eq!(r.status, "OK");
    assert_eq!(r.data, "service is up");
    assert_eq!(r.score, "0");
    assert!(r.query.is_none());

    let r = no_match_response("q");
    assert_eq!(r.status, "KO");
    assert_eq!(r.query.as_ref().unwrap(), "q");
    assert_eq!(r.data, "I could not find any related info, please refine your prompt");
    assert_eq!(r.score, "0");

    let r = ok_response("q", 750000, "the doc".to_string());
    assert_eq!(r.status, "OK");
    assert_eq!(r.data, "the doc");
    assert_eq!(r.score, "0.75");

    let r = error_response("index down");
    assert_eq!(r.status, "KO");
    assert_eq!(r.data, "index down");
    assert!(r.query.is_none());

    let r = bad_route_response();
    assert_eq!(r.status, "KO");
    assert_eq!(r.data, "ensure you post to the /query endpoint with valid json");
}

#[test]
fn routing() {
    assert!(matches!(decide_route("POST", "/query"), Route::Query));
    assert!(matches!(decide_route("GET", "/isalive"), Route::Health));
    assert!(matches!(decide_route("PUT", "/query"), Route::Other));
    assert!(matches!(decide_route("GET", "/query"), Route::Other));
    assert!(matches!(decide_route("POST", "/isalive"), Route::Other));
}

#[test]
fn decoder_two_valid_frames() {
    let mut d = StreamDecoder::new();
    let mut sink = String::new();
    d.feed(&b"data: {\"content\":\"Hi\"}\n".to_vec(), &mut sink);
    d.feed(&b"data: {\"content\":\" there\"}\n".to_vec(), &mut sink);
    assert_eq!(sink, "Hi there");
    d.finish(&mut sink);
    assert_eq!(sink, "Hi there\n");
}

#[test]
fn decoder_malformed_middle_frame_is_skipped() {
    let mut d = StreamDecoder::new();
    let mut sink = String::new();
    d.feed(&b"data: {\"content\":\"Hi\"}\n".to_vec(), &mut sink);
    d.feed(&b"garbage\n".to_vec(), &mut sink);
    d.feed(&b"data: {\"content\":\" there\"}\n".to_vec(), &mut sink);
    assert_eq!(sink, "Hi there");
}

#[test]
fn decoder_bad_json_after_marker_is_skipped() {
    let mut d = StreamDecoder::new();
    let mut sink = String::new();
    d.feed(&b"data: {not json}\ndata: {\"content\":\"ok\"}\n".to_vec(), &mut sink);
    assert_eq!(sink, "ok");
}

#[test]
fn decoder_missing_content_field_is_skipped() {
    let mut d = StreamDecoder::new();
    let mut sink = String::new();
    d.feed(&b"data: {\"other\":\"x\"}\n".to_vec(), &mut sink);
    assert_eq!(sink, "");
}

#[test]
fn decoder_invalid_utf8_frame_is_skipped() {
    let mut d = StreamDecoder::new();
    let mut sink = String::new();
    d.feed(&vec![0xff, 0xfe, b'\n'], &mut sink);
    d.feed(&b"data: {\"content\":\"after\"}\n".to_vec(), &mut sink);
    assert_eq!(sink, "after");
}

#[test]
fn decoder_frame_split_across_feeds() {
    let mut d = StreamDecoder::new();
    let mut sink = String::new();
    d.feed(&b"data: {\"cont".to_vec(), &mut sink);
    assert_eq!(sink, "");
    d.feed(&b"ent\":\"joined\"}\n".to_vec(), &mut sink);
    assert_eq!(sink, "joined");
}

#[test]
fn decoder_empty_frames_are_skipped() {
    let mut d = StreamDecoder::new();
    let mut sink = String::new();
    d.feed(&b"\n\n\n".to_vec(), &mut sink);
    assert_eq!(sink, "");
}

#[test]
fn output_wrap_counter() {
    let (c, brk) = advance_wrap(0, 30);
    assert_eq!((c, brk), (30, false));
    let (c, brk) = advance_wrap(c, 50);
    assert_eq!((c, brk), (80, false));
    let (c, brk) = advance_wrap(c, 1);
    assert_eq!((c, brk), (0, true));
}
