use ragllm::chunker::{batch_file_contents, batch_file_headers};
use ragllm::text::{contains_sub, find_sub, has_file_extension, str_eq, trim_ascii, u64_to_dec};

fn numbered_words(n: usize) -> Vec<String> {
    let mut words = Vec::new();
    let mut i = 0;
    while i < n {
        words.push(format!("w{}", i));
        i += 1;
    }
    words
}

fn word_count(s: &str) -> usize {
    s.split_whitespace().count()
}

#[test]
fn windowed_chunk_count_small() {
    // 5 words: no full window, one remainder chunk.
    let words = numbered_words(5);
    let out = batch_file_contents(words, "doc.md".to_string()).unwrap();
    assert_eq!(out.len(), 1);
    assert_eq!(out[0].path, "doc.md-0");
    assert_eq!(out[0].contents, "w0 w1 w2 w3 w4");
    assert!(out[0].headers.is_none());
}

#[test]
fn windowed_chunk_count_empty() {
    let out = batch_file_contents(Vec::new(), "doc.md".to_string()).unwrap();
    assert_eq!(out.len(), 1);
    assert_eq!(out[0].path, "doc.md-0");
    assert_eq!(out[0].contents, "");
}

#[test]
fn windowed_chunk_count_and_reverse_order() {
    // 450 words: floor(450/200) = 2 full windows plus the remainder chunk.
    // The remainder stands first and the windows follow in reverse index
    // order, each chunk having been inserted at the front.
    let words = numbered_words(450);
    let out = batch_file_contents(words, "doc.md".to_string()).unwrap();
    assert_eq!(out.len(), 3);
    assert_eq!(out[0].path, "doc.md-2");
    assert_eq!(out[1].path, "doc.md-1");
    assert_eq!(out[2].path, "doc.md-0");
}

#[test]
fn windowed_chunk_sizes_and_overlap() {
    let words = numbered_words(450);
    let out = batch_file_contents(words, "doc.md".to_string()).unwrap();
    // Window 0 spans words [0, 220), window 1 spans [200, 420), the
    // remainder spans [400, 450).
    let w0 = &out[2].contents;
    let w1 = &out[1].contents;
    let rem = &out[0].contents;
    assert_eq!(word_count(w0), 220);
    assert_eq!(word_count(w1), 220);
    assert_eq!(word_count(rem), 50);
    assert!(w0.starts_with("w0 w1 "));
    assert!(w0.ends_with(" w219"));
    assert!(w1.starts_with("w200 "));
    assert!(w1.ends_with(" w419"));
    assert!(rem.starts_with("w400 "));
    assert!(rem.ends_with(" w449"));
    // Consecutive windows share the 20-word overlap.
    let w0_words: Vec<&str> = w0.split_whitespace().collect();
    let w1_words: Vec<&str> = w1.split_whitespace().collect();
    assert_eq!(&w0_words[200..220], &w1_words[0..20]);
}

#[test]
fn windowed_chunk_clipped_window() {
    // 210 words: one full window clipped at the document end, words [0, 210).
    let words = numbered_words(210);
    let out = batch_file_contents(words, "d".to_string()).unwrap();
    assert_eq!(out.len(), 2);
    assert_eq!(out[0].path, "d-1");
    assert_eq!(out[1].path, "d-0");
    assert_eq!(word_count(&out[1].contents), 210);
    assert_eq!(word_count(&out[0].contents), 10);
}

#[test]
fn windowed_chunk_short_remainder_is_clipped() {
    // 205 words: the single full window is clipped at the document end
    // instead of reaching past it.
    let words = numbered_words(205);
    let out = batch_file_contents(words, "d".to_string()).unwrap();
    assert_eq!(out.len(), 2);
    assert_eq!(word_count(&out[1].contents), 205);
    assert_eq!(word_count(&out[0].contents), 5);
    assert!(out[1].contents.ends_with(" w204"));
}

#[test]
fn header_mode_empty_document() {
    let out = batch_file_headers(String::new(), "e.md".to_string(), None).unwrap();
    assert_eq!(out.len(), 1);
    assert_eq!(out[0].headers.as_ref().unwrap(), "");
    assert_eq!(out[0].contents, "");
}

#[test]
fn header_mode_no_match_empty_header() {
    // No line holds the marker: one chunk, an empty header, full contents.
    let text = "alpha\nbeta\ngamma\n".to_string();
    let out = batch_file_headers(text.clone(), "a.md".to_string(), None).unwrap();
    assert_eq!(out.len(), 1);
    assert_eq!(out[0].path, "a.md");
    assert_eq!(out[0].contents, text);
    assert_eq!(out[0].headers.as_ref().unwrap(), "");
}

#[test]
fn header_mode_stops_at_first_match() {
    // Two lines hold the marker: only the first is captured.
    let text = "intro\n# script one\nmiddle\n# script two\nend\n".to_string();
    let out = batch_file_headers(text.clone(), "b.md".to_string(), None).unwrap();
    assert_eq!(out.len(), 1);
    assert_eq!(out[0].headers.as_ref().unwrap(), "# script one\n");
    assert_eq!(out[0].contents, text);
}

#[test]
fn header_mode_custom_marker() {
    let text = "x\nTITLE: here\ny\n".to_string();
    let out =
        batch_file_headers(text, "c.md".to_string(), Some("TITLE:".to_string())).unwrap();
    assert_eq!(out[0].headers.as_ref().unwrap(), "TITLE: here\n");
}

#[test]
fn header_mode_match_on_last_unterminated_line() {
    let text = "x\n# script tail".to_string();
    let out = batch_file_headers(text, "d.md".to_string(), None).unwrap();
    assert_eq!(out[0].headers.as_ref().unwrap(), "# script tail\n");
}

#[test]
fn text_find_and_contains() {
    assert_eq!(find_sub("data: {\"a\":1}", "data: "), Some(0));
    assert_eq!(find_sub("xx data: y data: z", "data: "), Some(3));
    assert_eq!(find_sub("nothing here", "data: "), None);
    assert!(contains_sub("a # script b", "# script"));
    assert!(!contains_sub("a #script b", "# script"));
}

#[test]
fn text_extension_and_eq() {
    assert!(has_file_extension("notes/a.md", ".md"));
    assert!(!has_file_extension("notes/a.mdx", ".md"));
    assert!(!has_file_extension("md", ".md"));
    assert!(str_eq("abc", "abc"));
    assert!(!str_eq("abc", "abd"));
    assert!(!str_eq("abc", "ab"));
}

#[test]
fn text_trim_and_decimal() {
    assert_eq!(trim_ascii("  hi \n"), "hi");
    assert_eq!(trim_ascii(""), "");
    assert_eq!(trim_ascii(" \t\r\n"), "");
    assert_eq!(trim_ascii("word"), "word");
    assert_eq!(u64_to_dec(0), "0");
    assert_eq!(u64_to_dec(9), "9");
    assert_eq!(u64_to_dec(105), "105");
    assert_eq!(u64_to_dec(987654321), "987654321");
}
