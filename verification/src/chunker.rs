//! Splitting a document into retrievable units. Two strategies: windowed
//! batching with overlap over the word sequence, and header-anchored
//! extraction of the first line holding a marker.

use vstd::prelude::*;
use vstd::string::*;

use crate::error::EmbeddingsError;
use crate::text::{
    contains_seq, contains_sub, first_match_idx, is_word, lemma_first_match_idx,
    lemma_join_split_roundtrip, lemma_split_char_len, lemma_split_char_peel, spec_join,
    spec_split_char,
};
use crate::text::{join_words, spec_dec, u64_to_dec};

verus! {

/// The id of window `i` of the document at `path`: the path, a dash, and
/// the window index in decimal.
pub open spec fn chunk_id_of(path: Seq<char>, i: nat) -> Seq<char> {
    path + seq!['-'] + spec_dec(i)
}

/// Builds the id of window `i` of the document at `path_id`.
pub fn make_chunk_id(path_id: &str, i: u64) -> (r: String)
    ensures
        r@ == chunk_id_of(path_id@, i as nat),
{
    let mut r = path_id.to_owned();
    r.append("-");
    let d = u64_to_dec(i);
    r.append(d.as_str());
    proof {
        reveal_strlit("-");
        assert("-"@ =~= seq!['-']);
    }
    r
}

/// One retrievable unit: `path` identifies it, `contents` is the retrievable
/// text, and `headers` carries the extracted header line in header mode.
pub struct MarkdownFile {
    pub path: String,
    pub contents: String,
    pub headers: Option<String>,
}

/// The first word of window `i` (windows are 200 words apart).
pub open spec fn window_start(i: nat) -> nat {
    i * 200
}

/// One past the last word of window `i`: 220 words from its start, clipped
/// to the document's `n` words.
pub open spec fn window_end(n: nat, i: nat) -> nat {
    if i * 200 + 220 <= n {
        (i * 200 + 220) as nat
    } else {
        n
    }
}

/// `m` is the chunk that window `i` of the word sequence `ws` yields for a
/// document identified by `path`.
pub open spec fn window_chunk_ok(m: MarkdownFile, ws: Seq<Seq<char>>, path: Seq<char>, i: nat) -> bool {
    &&& m.path@ == chunk_id_of(path, i)
    &&& m.headers is None
    &&& m.contents@ == spec_join(
        ws.subrange(window_start(i) as int, window_end(ws.len(), i) as int),
    )
}

/// `m` is the remainder chunk: the words from the end of the last full
/// window to the document's end.
pub open spec fn remainder_chunk_ok(m: MarkdownFile, ws: Seq<Seq<char>>, path: Seq<char>) -> bool {
    let count = ws.len() / 200;
    &&& m.path@ == chunk_id_of(path, count)
    &&& m.headers is None
    &&& m.contents@ == spec_join(ws.subrange((count * 200) as int, ws.len() as int))
}

/// Every non-final window spans exactly 220 words unless the document end
/// clips it (never fewer than 200), and a window ends exactly 20 words into
/// the next one, so consecutive windows share the 20-word overlap: the last
/// 20 words of window `i` are the first 20 words of window `i + 1`.
pub proof fn lemma_window_sizes(ws: Seq<Seq<char>>, i: nat)
    requires
        i < ws.len() / 200,
    ensures
        window_end(ws.len(), i) - window_start(i) == if i * 200 + 220 <= ws.len() {
            220int
        } else {
            ws.len() - i * 200
        },
        200 <= window_end(ws.len(), i) - window_start(i) <= 220,
        i + 1 < ws.len() / 200 ==> window_end(ws.len(), i) == window_start((i + 1) as nat) + 20,
        i + 1 < ws.len() / 200 ==> ws.subrange(
            window_end(ws.len(), i) - 20,
            window_end(ws.len(), i) as int,
        ) == ws.subrange(
            window_start((i + 1) as nat) as int,
            window_start((i + 1) as nat) as int + 20,
        ),
{
    let n = ws.len();
    assert((i + 1) * 200 <= (n / 200) * 200 <= n) by (nonlinear_arith)
        requires
            i < n / 200,
    ;
    assert(i * 200 + 200 == (i + 1) * 200) by (nonlinear_arith);
    if i + 1 < n / 200 {
        assert((i + 2) * 200 <= (n / 200) * 200 <= n) by (nonlinear_arith)
            requires
                i + 1 < n / 200,
        ;
        assert(i * 200 + 220 <= (i + 2) * 200) by (nonlinear_arith);
    }
}

/// A non-final chunk's text holds exactly its window's words: splitting it
/// on spaces gives the window's word sequence back, so for genuine words
/// the chunk contains exactly 220 words, or fewer only when the document
/// end clips the window (and never fewer than 200).
pub proof fn lemma_window_word_count(ws: Seq<Seq<char>>, i: nat)
    requires
        i < ws.len() / 200,
        forall|k: int| 0 <= k < ws.len() ==> is_word(#[trigger] ws[k]),
    ensures
        ({
            let window = ws.subrange(window_start(i) as int, window_end(ws.len(), i) as int);
            spec_split_char(spec_join(window), ' ') == window
        }),
        window_end(ws.len(), i) - window_start(i) == if i * 200 + 220 <= ws.len() {
            220int
        } else {
            ws.len() - i * 200
        },
{
    lemma_window_sizes(ws, i);
    let window = ws.subrange(window_start(i) as int, window_end(ws.len(), i) as int);
    assert(forall|k: int| 0 <= k < window.len() ==> is_word(#[trigger] window[k]));
    lemma_join_split_roundtrip(window);
}

/// Windowed chunking: for `n` words there are `n / 200` full windows and one
/// remainder chunk, `n / 200 + 1` chunks in all; chunk ids carry the window
/// index; the remainder chunk is first and the windows follow in reverse
/// index order, each new chunk having been inserted at the front.
pub fn batch_file_contents(words: Vec<String>, path_id: String) -> (r: Result<
    Vec<MarkdownFile>,
    EmbeddingsError,
>)
    ensures
        r is Ok,
        ({
            let out = r->Ok_0@;
            let ws = words@.map_values(|w: String| w@);
            let count = ws.len() / 200;
            &&& out.len() == count + 1
            &&& remainder_chunk_ok(out[0], ws, path_id@)
            &&& forall|j: int|
                1 <= j <= count ==> window_chunk_ok(
                    #[trigger] out[j],
                    ws,
                    path_id@,
                    (count - j) as nat,
                )
        }),
{
    let ghost ws = words@.map_values(|w: String| w@);
    let n = words.len();
    let count = n / 200;
    proof {
        assert(count * 200 <= n) by (nonlinear_arith)
            requires
                count == n as int / 200,
                n >= 0,
        ;
    }
    let mut result: Vec<MarkdownFile> = Vec::new();
    let mut i: usize = 0;
    while i < count
        invariant
            n == words@.len(),
            ws == words@.map_values(|w: String| w@),
            count == n as int / 200,
            count * 200 <= n,
            i <= count,
            result@.len() == i,
            forall|k: int|
                0 <= k < i ==> window_chunk_ok(#[trigger] result@[k], ws, path_id@, (i - 1
                    - k) as nat),
        decreases count - i,
    {
        proof {
            assert((i + 1) * 200 <= count * 200) by (nonlinear_arith)
                requires
                    i < count,
            ;
            assert(i * 200 + 200 == (i + 1) * 200) by (nonlinear_arith);
        }
        let from = i * 200;
        let to = if n - (from + 200) >= 20 {
            from + 220
        } else {
            n
        };
        let contents = join_words(&words, from, to);
        let path = make_chunk_id(path_id.as_str(), i as u64);
        let mkd = MarkdownFile { path: path, contents: contents, headers: None };
        result.insert(0, mkd);
        proof {
            assert(words@.subrange(from as int, to as int).map_values(|w: String| w@)
                =~= ws.subrange(from as int, to as int));
            assert(window_chunk_ok(result@[0], ws, path_id@, i as nat));
        }
        i += 1;
    }
    let from = count * 200;
    let contents = join_words(&words, from, n);
    let path = make_chunk_id(path_id.as_str(), count as u64);
    let mkd = MarkdownFile { path: path, contents: contents, headers: None };
    result.insert(0, mkd);
    proof {
        assert(words@.subrange(from as int, n as int).map_values(|w: String| w@) =~= ws.subrange(
            from as int,
            n as int,
        ));
    }
    Ok(result)
}

/// The marker that header mode scans for: the caller's pattern, or the
/// default heading text.
pub open spec fn spec_marker(header_regex: Option<String>) -> Seq<char> {
    match header_regex {
        Some(h) => h@,
        None => "# script"@,
    }
}

/// The header that header mode extracts from `s`: the first line holding the
/// marker, with a newline appended; empty when no line matches.
pub open spec fn spec_header_of(s: Seq<char>, m: Seq<char>) -> Seq<char> {
    let lines = spec_split_char(s, '\n');
    match first_match_idx(lines, m) {
        Some(i) => lines[i] + seq!['\n'],
        None => Seq::empty(),
    }
}

/// Header-anchored chunking: exactly one chunk per document, whose id is the
/// path itself, whose contents are the whole document, and whose header is
/// the first line holding the marker (empty when no line matches — not an
/// error).
pub fn batch_file_headers(words: String, path_id: String, header_regex: Option<String>) -> (r:
    Result<Vec<MarkdownFile>, EmbeddingsError>)
    ensures
        r is Ok,
        ({
            let out = r->Ok_0@;
            let m = spec_marker(header_regex);
            &&& out.len() == 1
            &&& out[0].path@ == path_id@
            &&& out[0].contents@ == words@
            &&& out[0].headers is Some
            &&& out[0].headers->0@ == spec_header_of(words@, m)
        }),
        // A document with no line holding the marker yields an empty header.
        ({
            let lines = spec_split_char(words@, '\n');
            let m = spec_marker(header_regex);
            (forall|i: int| 0 <= i < lines.len() ==> !contains_seq(#[trigger] lines[i], m))
                ==> r->Ok_0@[0].headers->0@ == Seq::<char>::empty()
        }),
        // Scanning stops at the first match: the header is the first line
        // holding the marker, later matches are not inspected.
        ({
            let lines = spec_split_char(words@, '\n');
            let m = spec_marker(header_regex);
            forall|i: int|
                (0 <= i < lines.len() && contains_seq(#[trigger] lines[i], m) && (forall|j: int|
                    0 <= j < i ==> !contains_seq(#[trigger] lines[j], m)))
                    ==> r->Ok_0@[0].headers->0@ == lines[i] + seq!['\n']
        }),
{
    let marker: &str = match &header_regex {
        Some(h) => h.as_str(),
        None => "# script",
    };
    let ghost m = spec_marker(header_regex);
    proof {
        assert(marker@ == m);
    }
    let s = words.as_str();
    let n = s.unicode_len();
    let mut start: usize = 0;
    let mut i: usize = 0;
    let mut header: String = String::new();
    proof {
        assert(words@.skip(0) =~= words@);
    }
    loop
        invariant_except_break
            header@ == Seq::<char>::empty(),
        invariant
            start <= i <= n,
            n == s@.len(),
            s@ == words@,
            m == spec_marker(header_regex),
            marker@ == m,
            forall|t: int| start <= t < i ==> s@[t] != '\n',
            spec_header_of(s@, m) == spec_header_of(s@.skip(start as int), m),
        ensures
            header@ == spec_header_of(words@, m),
        decreases n - i,
    {
        if i == n || s.get_char(i) == '\n' {
            let line = s.substring_char(start, i);
            let ghost suffix = s@.skip(start as int);
            proof {
                assert(line@ =~= suffix.take(i - start));
                lemma_split_char_peel(suffix, '\n', i - start);
                lemma_split_char_len(suffix, '\n');
            }
            if contains_sub(line, marker) {
                header = line.to_owned();
                header.append("\n");
                proof {
                    reveal_strlit("\n");
                    let lines = spec_split_char(suffix, '\n');
                    if i < n {
                        assert(suffix.skip(i - start + 1) =~= s@.skip(i + 1));
                        assert(lines =~~= seq![line@] + spec_split_char(
                            s@.skip(i + 1),
                            '\n',
                        ));
                    } else {
                        assert(suffix.take(i - start) =~= suffix);
                        assert(lines =~~= seq![line@]);
                    }
                    assert(lines[0] == line@);
                    assert(first_match_idx(lines, m) == Some(0int));
                    assert("\n"@ =~= seq!['\n']);
                }
                break;
            }
            if i == n {
                proof {
                    let lines = spec_split_char(suffix, '\n');
                    assert(suffix.take(i - start) =~= suffix);
                    assert(lines =~~= seq![line@]);
                    assert(first_match_idx(lines, m) is None);
                }
                break;
            }
            proof {
                let lines = spec_split_char(suffix, '\n');
                let rest = spec_split_char(s@.skip(i + 1), '\n');
                assert(suffix.skip(i - start + 1) =~= s@.skip(i + 1));
                assert(lines =~~= seq![line@] + rest);
                assert(lines[0] == line@);
                assert(lines.drop_first() =~~= rest);
                lemma_split_char_len(s@.skip(i + 1), '\n');
                lemma_first_match_idx(rest, m);
                match first_match_idx(rest, m) {
                    Some(k) => {
                        assert(first_match_idx(lines, m) == Some(k + 1));
                        assert(lines[k + 1] == rest[k]);
                    },
                    None => {
                        assert(first_match_idx(lines, m) is None);
                    },
                }
            }
            start = i + 1;
            i = start;
        } else {
            i += 1;
        }
    }
    let mut result: Vec<MarkdownFile> = Vec::new();
    let mkd = MarkdownFile { path: path_id, contents: words, headers: Some(header) };
    result.insert(0, mkd);
    proof {
        let lines = spec_split_char(words@, '\n');
        lemma_first_match_idx(lines, m);
    }
    Ok(result)
}

} // verus!
