//! The retrieval and augmentation engine: relevance thresholding over
//! search hits, context and prompt assembly, the single-result query
//! decision, and the structured responses the query endpoint returns.

use vstd::prelude::*;
use vstd::string::*;

use crate::text::{dec_digit, spec_dec, u64_to_dec};

verus! {

/// One search hit, as plain values: the similarity score scaled by one
/// million, and the payload's source id and chunk text.
pub struct ScoredHit {
    pub score_micros: i64,
    pub id: String,
    pub contents: String,
}

/// A hit clears the relevance threshold only by strictly exceeding it.
pub open spec fn hit_passes(h: ScoredHit, threshold_micros: i64) -> bool {
    h.score_micros > threshold_micros
}

/// Some hit clears the threshold.
pub open spec fn any_passes(hits: Seq<ScoredHit>, threshold_micros: i64) -> bool {
    exists|k: int| 0 <= k < hits.len() && #[trigger] hit_passes(hits[k], threshold_micros)
}

/// The context block: the contents of every passing hit in order, each
/// followed by the delimiter line.
pub open spec fn spec_context(hits: Seq<ScoredHit>, threshold_micros: i64) -> Seq<char>
    decreases hits.len(),
{
    if hits.len() == 0 {
        Seq::empty()
    } else {
        spec_context(hits.drop_last(), threshold_micros) + if hit_passes(
            hits.last(),
            threshold_micros,
        ) {
            hits.last().contents@ + "\n --- \n"@
        } else {
            Seq::empty()
        }
    }
}

/// The recorded sources: the id of every passing hit in order, each
/// followed by a space.
pub open spec fn spec_sources(hits: Seq<ScoredHit>, threshold_micros: i64) -> Seq<char>
    decreases hits.len(),
{
    if hits.len() == 0 {
        Seq::empty()
    } else {
        spec_sources(hits.drop_last(), threshold_micros) + if hit_passes(
            hits.last(),
            threshold_micros,
        ) {
            hits.last().id@ + " "@
        } else {
            Seq::empty()
        }
    }
}

/// The prompt of one query turn. When at least one hit passes, the base
/// prompt is augmented with the context block and an instruction to answer
/// from it; when none passes (an empty hit list included) the prompt falls
/// back to the bare question.
pub open spec fn spec_turn_prompt(
    base: Seq<char>,
    hits: Seq<ScoredHit>,
    threshold_micros: i64,
    input: Seq<char>,
) -> Seq<char> {
    if any_passes(hits, threshold_micros) {
        base + "\nAnswer the question based only on the following context:\n\n"@ + spec_context(
            hits,
            threshold_micros,
        ) + "\n### Human: "@ + "Summarize the answer based on the above context: "@ + " "@ + input
            + "\n### Assitant:"@
    } else {
        base + "\n### Human: "@ + input + "\n### Assistant:"@
    }
}

/// The threshold is a strict exclusive lower bound: a lone hit scoring
/// exactly the threshold contributes nothing and leaves the fallback path;
/// one scoring above it contributes its contents.
pub proof fn lemma_threshold_is_strict(h: ScoredHit, threshold_micros: i64)
    ensures
        h.score_micros == threshold_micros ==> !any_passes(seq![h], threshold_micros),
        h.score_micros > threshold_micros ==> any_passes(seq![h], threshold_micros),
        spec_context(seq![h], threshold_micros) == if h.score_micros > threshold_micros {
            h.contents@ + "\n --- \n"@
        } else {
            Seq::<char>::empty()
        },
{
    let s = seq![h];
    assert(s.drop_last() =~= Seq::<ScoredHit>::empty());
    assert(s.last() == h);
    if h.score_micros > threshold_micros {
        assert(hit_passes(s[0], threshold_micros));
    }
    assert(spec_context(Seq::<ScoredHit>::empty(), threshold_micros) == Seq::<char>::empty());
    if h.score_micros <= threshold_micros {
        assert(spec_context(s, threshold_micros) =~= Seq::<char>::empty());
    }
}

/// Builds one turn's prompt from the search hits: the augmented prompt, the
/// recorded sources, and whether any hit passed the threshold. An empty hit
/// list always takes the fallback path.
pub fn build_turn_prompt(
    base: &str,
    hits: &Vec<ScoredHit>,
    threshold_micros: i64,
    input: &str,
) -> (r: (String, String, bool))
    ensures
        r.0@ == spec_turn_prompt(base@, hits@, threshold_micros, input@),
        r.1@ == spec_sources(hits@, threshold_micros),
        r.2 == any_passes(hits@, threshold_micros),
        hits@.len() == 0 ==> r.0@ == base@ + "\n### Human: "@ + input@ + "\n### Assistant:"@,
{
    let mut extra = String::from_str("\nAnswer the question based only on the following context:\n\n");
    let mut source = String::new();
    let mut found = false;
    let n = hits.len();
    let mut i: usize = 0;
    proof {
        assert(hits@.take(0) =~= Seq::<ScoredHit>::empty());
    }
    while i < n
        invariant
            i <= n,
            n == hits@.len(),
            extra@ == "\nAnswer the question based only on the following context:\n\n"@
                + spec_context(hits@.take(i as int), threshold_micros),
            source@ == spec_sources(hits@.take(i as int), threshold_micros),
            found == any_passes(hits@.take(i as int), threshold_micros),
        decreases n - i,
    {
        let ghost pre = hits@.take(i as int);
        let ghost post = hits@.take(i + 1);
        proof {
            assert(post.drop_last() =~= pre);
            assert(post.last() == hits@[i as int]);
        }
        if hits[i].score_micros > threshold_micros {
            extra.append(hits[i].contents.as_str());
            extra.append("\n --- \n");
            source.append(hits[i].id.as_str());
            source.append(" ");
            found = true;
            proof {
                assert(hit_passes(post[i as int], threshold_micros));
            }
        } else {
            proof {
                if any_passes(post, threshold_micros) {
                    let k = choose|k: int|
                        0 <= k < post.len() && #[trigger] hit_passes(post[k], threshold_micros);
                    if k < i {
                        assert(hit_passes(pre[k], threshold_micros));
                    }
                }
                assert(any_passes(post, threshold_micros) == any_passes(pre, threshold_micros));
            }
        }
        i += 1;
    }
    proof {
        assert(hits@.take(n as int) =~= hits@);
    }
    let mut prompt = base.to_owned();
    if found {
        prompt.append(extra.as_str());
        prompt.append("\n### Human: ");
        prompt.append("Summarize the answer based on the above context: ");
        prompt.append(" ");
        prompt.append(input);
        prompt.append("\n### Assitant:");
    } else {
        prompt.append("\n### Human: ");
        prompt.append(input);
        prompt.append("\n### Assistant:");
    }
    (prompt, source, found)
}

/// The decision of the single-result query path.
pub enum QueryDecision {
    /// The best hit cleared the threshold: load the source document keyed
    /// by this id and answer with it, reporting this score.
    Fetch { id: String, score_micros: i64 },
    /// No hit, or the best hit did not clear the threshold.
    NoMatch,
}

/// Decides the single-result query: fetch the best hit's source exactly
/// when it strictly exceeds the threshold, otherwise report no match.
pub fn decide_single_query(best: &Option<ScoredHit>, threshold_micros: i64) -> (d: QueryDecision)
    ensures
        match best {
            Some(h) => {
                if h.score_micros > threshold_micros {
                    d == (QueryDecision::Fetch { id: h.id, score_micros: h.score_micros })
                } else {
                    d is NoMatch
                }
            },
            None => d is NoMatch,
        },
{
    match best {
        Some(h) => {
            if h.score_micros > threshold_micros {
                QueryDecision::Fetch { id: h.id.clone(), score_micros: h.score_micros }
            } else {
                QueryDecision::NoMatch
            }
        },
        None => QueryDecision::NoMatch,
    }
}

/// A query as the endpoint receives it.
pub struct QueryDetails {
    pub category: String,
    pub query: String,
}

/// A structured endpoint response: a status tag, the echoed query, the
/// answer or error text, and the score rendered as text.
pub struct ResponseDetails {
    pub status: String,
    pub query: Option<String>,
    pub data: String,
    pub score: String,
}

/// The six decimal digits of `f < 1000000`, most significant first.
pub open spec fn six_digits(f: nat) -> Seq<char> {
    seq![
        dec_digit((f / 100000) % 10),
        dec_digit((f / 10000) % 10),
        dec_digit((f / 1000) % 10),
        dec_digit((f / 100) % 10),
        dec_digit((f / 10) % 10),
        dec_digit(f % 10),
    ]
}

/// `s` with its trailing zero digits removed.
pub open spec fn trim_zeros(s: Seq<char>) -> Seq<char>
    decreases s.len(),
{
    if s.len() > 0 && s.last() == '0' {
        trim_zeros(s.drop_last())
    } else {
        s
    }
}

/// A score in micros rendered as decimal text: an optional sign, the whole
/// part, and — only when the fraction is not zero — a point and the
/// fractional digits with trailing zeros removed.
pub open spec fn spec_score_str(micros: int) -> Seq<char> {
    let a = (if micros < 0 {
        -micros
    } else {
        micros
    }) as nat;
    let whole = a / 1000000;
    let fr = a % 1000000;
    (if micros < 0 {
        seq!['-']
    } else {
        Seq::<char>::empty()
    }) + spec_dec(whole) + (if fr == 0 {
        Seq::<char>::empty()
    } else {
        seq!['.'] + trim_zeros(six_digits(fr))
    })
}

/// Trimming the zeros keeps exactly the digits up to the last non-zero.
proof fn lemma_trim_zeros_take(s: Seq<char>, cut: int)
    requires
        0 <= cut <= s.len(),
        forall|j: int| cut <= j < s.len() ==> s[j] == '0',
        cut > 0 ==> s[cut - 1] != '0',
    ensures
        trim_zeros(s) == s.take(cut),
    decreases s.len(),
{
    if s.len() > cut {
        lemma_trim_zeros_take(s.drop_last(), cut);
        assert(s.drop_last().take(cut) =~= s.take(cut));
    } else {
        assert(s.take(cut) =~= s);
    }
}

/// One decimal digit as a string slice.
fn digit_piece(d: u64) -> (r: &'static str)
    requires
        d < 10,
    ensures
        r@ == seq![dec_digit(d as nat)],
{
    proof {
        reveal_strlit("0");
        reveal_strlit("1");
        reveal_strlit("2");
        reveal_strlit("3");
        reveal_strlit("4");
        reveal_strlit("5");
        reveal_strlit("6");
        reveal_strlit("7");
        reveal_strlit("8");
        reveal_strlit("9");
    }
    let r = if d == 0 {
        "0"
    } else if d == 1 {
        "1"
    } else if d == 2 {
        "2"
    } else if d == 3 {
        "3"
    } else if d == 4 {
        "4"
    } else if d == 5 {
        "5"
    } else if d == 6 {
        "6"
    } else if d == 7 {
        "7"
    } else if d == 8 {
        "8"
    } else {
        "9"
    };
    proof {
        assert(r@ =~= seq![dec_digit(d as nat)]);
    }
    r
}

/// Renders a score in micros as decimal text.
pub fn score_string(micros: i64) -> (r: String)
    ensures
        r@ == spec_score_str(micros as int),
{
    let neg = micros < 0;
    let a: u64 = if neg {
        (-(micros + 1)) as u64 + 1
    } else {
        micros as u64
    };
    let whole = a / 1000000;
    let fr = a % 1000000;
    let mut r = if neg {
        String::from_str("-")
    } else {
        String::new()
    };
    proof {
        reveal_strlit("-");
        assert("-"@ =~= seq!['-']);
    }
    let d = u64_to_dec(whole);
    r.append(d.as_str());
    if fr != 0 {
        r.append(".");
        proof {
            reveal_strlit(".");
            assert("."@ =~= seq!['.']);
        }
        let d1 = (fr / 100000) % 10;
        let d2 = (fr / 10000) % 10;
        let d3 = (fr / 1000) % 10;
        let d4 = (fr / 100) % 10;
        let d5 = (fr / 10) % 10;
        let d6 = fr % 10;
        let cut: usize = if d6 != 0 {
            6
        } else if d5 != 0 {
            5
        } else if d4 != 0 {
            4
        } else if d3 != 0 {
            3
        } else if d2 != 0 {
            2
        } else {
            1
        };
        proof {
            assert(fr == (((((d1 * 10 + d2) * 10 + d3) * 10 + d4) * 10 + d5) * 10) + d6)
                by (nonlinear_arith)
                requires
                    fr < 1000000,
                    d1 == (fr / 100000) % 10,
                    d2 == (fr / 10000) % 10,
                    d3 == (fr / 1000) % 10,
                    d4 == (fr / 100) % 10,
                    d5 == (fr / 10) % 10,
                    d6 == fr % 10,
            ;
            if cut == 1 {
                assert(d1 != 0);
            }
            lemma_trim_zeros_take(six_digits(fr as nat), cut as int);
        }
        r.append(digit_piece(d1));
        if cut >= 2 {
            r.append(digit_piece(d2));
        }
        if cut >= 3 {
            r.append(digit_piece(d3));
        }
        if cut >= 4 {
            r.append(digit_piece(d4));
        }
        if cut >= 5 {
            r.append(digit_piece(d5));
        }
        if cut >= 6 {
            r.append(digit_piece(d6));
        }
        proof {
            assert(six_digits(fr as nat).take(cut as int) =~= seq![
                dec_digit(d1 as nat),
                dec_digit(d2 as nat),
                dec_digit(d3 as nat),
                dec_digit(d4 as nat),
                dec_digit(d5 as nat),
                dec_digit(d6 as nat),
            ].take(cut as int));
            assert(r@ =~= spec_score_str(micros as int));
        }
    } else {
        proof {
            assert(r@ =~= spec_score_str(micros as int));
        }
    }
    r
}

/// The response of a successful single-result query: status `OK`, the
/// echoed query, the loaded document and the hit's score.
pub fn ok_response(query: &str, score_micros: i64, data: String) -> (r: ResponseDetails)
    ensures
        r.status@ == "OK"@,
        r.query is Some,
        r.query->0@ == query@,
        r.data@ == data@,
        r.score@ == spec_score_str(score_micros as int),
{
    ResponseDetails {
        status: String::from_str("OK"),
        query: Some(query.to_owned()),
        data,
        score: score_string(score_micros),
    }
}

/// The response when no hit clears the threshold (or the result set is
/// empty): status `KO`, a fixed message and a zero score.
pub fn no_match_response(query: &str) -> (r: ResponseDetails)
    ensures
        r.status@ == "KO"@,
        r.query is Some,
        r.query->0@ == query@,
        r.data@ == "I could not find any related info, please refine your prompt"@,
        r.score@ == spec_score_str(0),
{
    ResponseDetails {
        status: String::from_str("KO"),
        query: Some(query.to_owned()),
        data: String::from_str("I could not find any related info, please refine your prompt"),
        score: score_string(0),
    }
}

/// The response when the index or storage fails: status `KO` carrying the
/// error detail, so an index failure never crashes the serving path.
pub fn error_response(detail: &str) -> (r: ResponseDetails)
    ensures
        r.status@ == "KO"@,
        r.query is None,
        r.data@ == detail@,
        r.score@ == spec_score_str(0),
{
    ResponseDetails {
        status: String::from_str("KO"),
        query: None,
        data: detail.to_owned(),
        score: score_string(0),
    }
}

/// The unconditional health-check response.
pub fn health_response() -> (r: ResponseDetails)
    ensures
        r.status@ == "OK"@,
        r.query is None,
        r.data@ == "service is up"@,
        r.score@ == spec_score_str(0),
{
    ResponseDetails {
        status: String::from_str("OK"),
        query: None,
        data: String::from_str("service is up"),
        score: score_string(0),
    }
}

/// The response for any route the endpoint does not serve.
pub fn bad_route_response() -> (r: ResponseDetails)
    ensures
        r.status@ == "KO"@,
        r.query is None,
        r.data@ == "ensure you post to the /query endpoint with valid json"@,
        r.score@ == spec_score_str(0),
{
    ResponseDetails {
        status: String::from_str("KO"),
        query: None,
        data: String::from_str("ensure you post to the /query endpoint with valid json"),
        score: score_string(0),
    }
}

/// Where a request is routed.
pub enum Route {
    /// A POST to the query endpoint.
    Query,
    /// A GET of the health endpoint.
    Health,
    /// Anything else.
    Other,
}

/// Routes a request by method and path: the query endpoint takes a POST to
/// `/query`, the health endpoint a GET of `/isalive`, all else is refused.
pub fn decide_route(method: &str, path: &str) -> (r: Route)
    ensures
        r is Query <==> (method@ == "POST"@ && path@ == "/query"@),
        r is Health <==> (method@ == "GET"@ && path@ == "/isalive"@),
{
    proof {
        reveal_strlit("POST");
        reveal_strlit("GET");
        reveal_strlit("/query");
        reveal_strlit("/isalive");
        assert("POST"@ =~= seq!['P', 'O', 'S', 'T']);
        assert("GET"@ =~= seq!['G', 'E', 'T']);
        assert("/query"@ =~= seq!['/', 'q', 'u', 'e', 'r', 'y']);
        assert("/isalive"@ =~= seq!['/', 'i', 's', 'a', 'l', 'i', 'v', 'e']);
        assert("POST"@ != "GET"@);
        assert("/query"@ != "/isalive"@);
    }
    if crate::text::str_eq(method, "POST") && crate::text::str_eq(path, "/query") {
        Route::Query
    } else if crate::text::str_eq(method, "GET") && crate::text::str_eq(path, "/isalive") {
        Route::Health
    } else {
        Route::Other
    }
}

} // verus!
