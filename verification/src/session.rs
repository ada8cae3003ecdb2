//! The session orchestrator's decisions: reading one line of interactive
//! input, assembling each turn's completion request, planning an ingestion
//! run, and selecting the embedding vector out of the service's response.

use vstd::prelude::*;
use vstd::string::*;

use crate::chunker::MarkdownFile;
use crate::engine::{any_passes, build_turn_prompt, spec_sources, spec_turn_prompt, ScoredHit};
use crate::error::EmbeddingsError;
use crate::model::{CompletionRequest, Embeddings, Message};
use crate::text::{spec_trim, str_eq, trim_ascii};

verus! {

/// What one line of interactive input means.
pub enum ChatInput {
    /// The trimmed line was `exit`: leave the loop.
    Exit,
    /// The trimmed line was empty: ignore it and prompt again.
    Empty,
    /// A question, trimmed of surrounding whitespace.
    Ask(String),
}

/// Reads one line of interactive input: `exit` (exact match after
/// trimming) ends the loop, an empty line is ignored, anything else is the
/// turn's question.
pub fn parse_chat_input(line: &str) -> (r: ChatInput)
    ensures
        r is Empty <==> spec_trim(line@).len() == 0,
        r is Exit <==> spec_trim(line@) == "exit"@,
        r is Ask ==> r->0@ == spec_trim(line@),
{
    proof {
        reveal_strlit("exit");
    }
    let t = trim_ascii(line);
    if t.unicode_len() == 0 {
        ChatInput::Empty
    } else if str_eq(t, "exit") {
        ChatInput::Exit
    } else {
        ChatInput::Ask(t.to_owned())
    }
}

/// A field-for-field copy of a message list.
pub fn clone_messages(ms: &Vec<Message>) -> (r: Vec<Message>)
    ensures
        r@ == ms@,
{
    let mut r: Vec<Message> = Vec::new();
    let n = ms.len();
    let mut i: usize = 0;
    while i < n
        invariant
            i <= n,
            n == ms@.len(),
            r@ == ms@.take(i as int),
        decreases n - i,
    {
        r.push(Message { role: ms[i].role.clone(), content: ms[i].content.clone() });
        proof {
            assert(r@ =~= ms@.take(i + 1));
        }
        i += 1;
    }
    proof {
        assert(ms@.take(n as int) =~= ms@);
    }
    r
}

/// Builds a completion request around `prompt` with the session's fixed
/// sampling parameters.
pub fn build_completion_request(messages: Vec<Message>, prompt: String) -> (r: CompletionRequest)
    ensures
        r.messages == messages,
        r.prompt == prompt,
        r.top_k == 20,
        r.top_p_micros == 700000,
        r.n_keep == 68,
        r.n_predict == 256,
        r.cache_prompt == false,
        r.stop@.len() == 2,
        r.stop@[0]@ == "\n"@,
        r.stop@[1]@ == "### Human:"@,
        r.temperature_micros == Some(200000u64),
        r.stream == true,
        r.max_tokens == 2048,
{
    let mut stop: Vec<String> = Vec::new();
    stop.push(String::from_str("\n"));
    stop.push(String::from_str("### Human:"));
    CompletionRequest {
        messages,
        prompt,
        top_k: 20,
        top_p_micros: 700000,
        n_keep: 68,
        n_predict: 256,
        cache_prompt: false,
        stop,
        temperature_micros: Some(200000u64),
        stream: true,
        max_tokens: 2048,
    }
}

/// The preamble that opens the first turn's prompt.
pub open spec fn chat_preamble() -> Seq<char> {
    "A chat between a curious human and an artificial intelligence assistant. The assistant gives helpful, detailed, and polite answers to the human's questions."@
}

/// One interactive session: the retained messages, the base prompt of the
/// next turn, and the retrieval configuration.
pub struct ChatSession {
    pub messages: Vec<Message>,
    pub base_prompt: String,
    pub category: String,
    pub search_limit: u64,
    pub score_threshold_micros: i64,
}

impl ChatSession {
    /// A fresh session: no messages yet, and the first turn opens with the
    /// preamble.
    pub fn new(category: String, search_limit: u64, score_threshold_micros: i64) -> (s:
        ChatSession)
        ensures
            s.messages@.len() == 0,
            s.base_prompt@ == chat_preamble(),
            s.category == category,
            s.search_limit == search_limit,
            s.score_threshold_micros == score_threshold_micros,
    {
        ChatSession {
            messages: Vec::new(),
            base_prompt: String::from_str(
                "A chat between a curious human and an artificial intelligence assistant. The assistant gives helpful, detailed, and polite answers to the human's questions.",
            ),
            category,
            search_limit,
            score_threshold_micros,
        }
    }

    /// Retains a system instruction across turns.
    pub fn add_system_prompt(&mut self, prompt: &str)
        ensures
            final(self).messages@.len() == old(self).messages@.len() + 1,
            final(self).messages@.last().role@ == "system"@,
            final(self).messages@.last().content@ == prompt@,
            final(self).messages@.take(old(self).messages@.len() as int) == old(self).messages@,
            final(self).base_prompt == old(self).base_prompt,
            final(self).category == old(self).category,
            final(self).search_limit == old(self).search_limit,
            final(self).score_threshold_micros == old(self).score_threshold_micros,
    {
        self.messages.push(Message::system(prompt));
        proof {
            assert(self.messages@.take(self.messages@.len() - 1) =~= old(self).messages@);
        }
    }

    /// Runs one turn's decisions: augments the base prompt with the passing
    /// hits (or falls back to the bare question), pairs it with the fixed
    /// sampling parameters and the retained messages, and reports the
    /// contributing sources. The preamble is spent: the next turn's base
    /// prompt is empty.
    pub fn turn(&mut self, input: &str, hits: &Vec<ScoredHit>) -> (r: (
        CompletionRequest,
        String,
        bool,
    ))
        ensures
            r.0.prompt@ == spec_turn_prompt(
                old(self).base_prompt@,
                hits@,
                old(self).score_threshold_micros,
                input@,
            ),
            r.1@ == spec_sources(hits@, old(self).score_threshold_micros),
            r.2 == any_passes(hits@, old(self).score_threshold_micros),
            r.0.messages@ == old(self).messages@,
            r.0.top_k == 20,
            r.0.top_p_micros == 700000,
            r.0.n_keep == 68,
            r.0.n_predict == 256,
            r.0.cache_prompt == false,
            r.0.stop@.len() == 2,
            r.0.stop@[0]@ == "\n"@,
            r.0.stop@[1]@ == "### Human:"@,
            r.0.temperature_micros == Some(200000u64),
            r.0.stream == true,
            r.0.max_tokens == 2048,
            final(self).base_prompt@ == Seq::<char>::empty(),
            final(self).messages == old(self).messages,
            final(self).category == old(self).category,
            final(self).search_limit == old(self).search_limit,
            final(self).score_threshold_micros == old(self).score_threshold_micros,
    {
        let (prompt, source, found) = build_turn_prompt(
            self.base_prompt.as_str(),
            hits,
            self.score_threshold_micros,
            input,
        );
        self.base_prompt = String::new();
        let request = build_completion_request(clone_messages(&self.messages), prompt);
        (request, source, found)
    }
}

/// One planned upsert of an ingestion run: the session's monotonic point
/// id, the text to embed, and the payload that re-locates the source.
pub struct UpsertItem {
    pub point_id: u64,
    pub embed_text: String,
    pub doc_id: String,
    pub contents: String,
}

/// The text a chunk sends to the embedding service: its header line in
/// header mode, its contents otherwise.
pub fn embedding_input(mkd: &MarkdownFile, use_headers: bool) -> (r: String)
    requires
        use_headers ==> mkd.headers is Some,
    ensures
        r@ == if use_headers {
            mkd.headers->0@
        } else {
            mkd.contents@
        },
{
    if use_headers {
        match &mkd.headers {
            Some(h) => h.clone(),
            None => {
                proof {
                    assert(false);
                }
                String::new()
            },
        }
    } else {
        mkd.contents.clone()
    }
}

/// Plans an ingestion run over the chunks in the order the chunker yielded
/// them: point ids are the session's monotonic counter, starting at zero
/// and increasing by one per chunk; each payload carries the chunk's id and
/// contents.
pub fn ingest_plan(files: &Vec<MarkdownFile>, use_headers: bool) -> (r: Vec<UpsertItem>)
    requires
        use_headers ==> forall|i: int|
            0 <= i < files@.len() ==> (#[trigger] files@[i].headers) is Some,
    ensures
        r@.len() == files@.len(),
        forall|i: int|
            0 <= i < files@.len() ==> {
                &&& (#[trigger] r@[i]).point_id == i
                &&& r@[i].doc_id@ == files@[i].path@
                &&& r@[i].contents@ == files@[i].contents@
                &&& r@[i].embed_text@ == if use_headers {
                    files@[i].headers->0@
                } else {
                    files@[i].contents@
                }
            },
{
    let mut r: Vec<UpsertItem> = Vec::new();
    let n = files.len();
    let mut i: usize = 0;
    while i < n
        invariant
            i <= n,
            n == files@.len(),
            r@.len() == i,
            use_headers ==> forall|k: int|
                0 <= k < n ==> (#[trigger] files@[k].headers) is Some,
            forall|k: int|
                0 <= k < i ==> {
                    &&& (#[trigger] r@[k]).point_id == k
                    &&& r@[k].doc_id@ == files@[k].path@
                    &&& r@[k].contents@ == files@[k].contents@
                    &&& r@[k].embed_text@ == if use_headers {
                        files@[k].headers->0@
                    } else {
                        files@[k].contents@
                    }
                },
        decreases n - i,
    {
        let embed_text = embedding_input(&files[i], use_headers);
        r.push(
            UpsertItem {
                point_id: i as u64,
                embed_text,
                doc_id: files[i].path.clone(),
                contents: files[i].contents.clone(),
            },
        );
        i += 1;
    }
    r
}

/// Selects the embedding vector out of the service's response: the first
/// vector of the first row. An empty response or an empty row is the
/// distinct `empty embedding` failure, never an unchecked access.
pub fn first_embedding<T>(rows: Vec<Embeddings<T>>) -> (r: Result<Vec<T>, EmbeddingsError>)
    ensures
        r is Ok <==> (rows@.len() > 0 && rows@[0].embedding@.len() > 0),
        r is Ok ==> r->Ok_0 == rows@[0].embedding@[0],
        r is Err ==> r->Err_0.details@ == "empty embedding"@,
{
    let mut rows = rows;
    if rows.len() == 0 {
        return Err(EmbeddingsError::new("empty embedding"));
    }
    let first = rows.remove(0);
    let mut emb = first.embedding;
    if emb.len() == 0 {
        return Err(EmbeddingsError::new("empty embedding"));
    }
    Ok(emb.remove(0))
}

} // verus!
