//! The streaming response decoder: consumes a newline-framed byte stream
//! of partial-completion events and reconstructs the assistant's text
//! incrementally. Malformed frames are skipped; they never corrupt later
//! frames or abort the stream.

use vstd::prelude::*;
use vstd::string::*;
use vstd::utf8::{decode_utf8, valid_utf8};

use crate::text::{find_sub, lemma_spec_find_from, spec_find};

verus! {

/// The `content` field of the JSON object spelled by `s`, when `s` parses
/// as an object carrying one; the result depends on the characters alone.
pub uninterp spec fn json_content_of(s: Seq<char>) -> Option<Seq<char>>;

/// Relies on serde_json's parser: the frame text is parsed as a JSON value
/// and its `content` string field is extracted, a function of the text
/// alone.
#[verifier::external_body]
fn parse_content_json(s: &str) -> (r: Option<String>)
    ensures
        r is Some <==> json_content_of(s@) is Some,
        r is Some ==> r->0@ == json_content_of(s@)->0,
{
    match serde_json::from_str::<serde_json::Value>(s) {
        Ok(v) => match v.get("content") {
            Some(c) => c.as_str().map(|t| t.to_string()),
            None => None,
        },
        Err(_) => None,
    }
}

/// Relies on String::from_utf8: it succeeds exactly on valid UTF-8 and
/// yields the decoded characters.
#[verifier::external_body]
fn utf8_to_string(bytes: &Vec<u8>) -> (r: Option<String>)
    ensures
        r is Some <==> valid_utf8(bytes@),
        r is Some ==> r->0@ == decode_utf8(bytes@),
{
    String::from_utf8(bytes.clone()).ok()
}

/// The prefix marker that opens every event frame.
pub open spec fn stream_marker() -> Seq<char> {
    "data: "@
}

/// What one complete frame contributes: nothing when the frame is empty,
/// not valid UTF-8, lacks the marker, or does not parse; otherwise the
/// `content` field of the JSON text after the first marker.
pub open spec fn frame_text(frame: Seq<u8>) -> Option<Seq<char>> {
    if frame.len() == 0 {
        None
    } else if !valid_utf8(frame) {
        None
    } else {
        let chars = decode_utf8(frame);
        match spec_find(chars, stream_marker()) {
            Some(i) => json_content_of(chars.skip(i + stream_marker().len())),
            None => None,
        }
    }
}

/// The text a frame appends to the sink: its contribution, or nothing.
pub open spec fn frame_emit(frame: Seq<u8>) -> Seq<char> {
    match frame_text(frame) {
        Some(t) => t,
        None => Seq::empty(),
    }
}

/// Running the decoder over `data` starting from the buffered bytes `buf`:
/// the buffer left pending, and the text emitted. A newline byte closes the
/// current frame; every other byte is buffered.
pub open spec fn run_decoder(buf: Seq<u8>, data: Seq<u8>) -> (Seq<u8>, Seq<char>)
    decreases data.len(),
{
    if data.len() == 0 {
        (buf, Seq::empty())
    } else if data.first() == 10 {
        let rest = run_decoder(Seq::empty(), data.drop_first());
        (rest.0, frame_emit(buf) + rest.1)
    } else {
        run_decoder(buf.push(data.first()), data.drop_first())
    }
}

/// The streaming decoder's state: the bytes of the frame under way.
pub struct StreamDecoder {
    buf: Vec<u8>,
}

impl View for StreamDecoder {
    type V = Seq<u8>;

    closed spec fn view(&self) -> Seq<u8> {
        self.buf@
    }
}

/// Handles one complete frame: appends its contribution to the sink.
fn process_frame(frame: &Vec<u8>, sink: &mut String)
    ensures
        final(sink)@ == old(sink)@ + frame_emit(frame@),
{
    if frame.len() == 0 {
        return ;
    }
    match utf8_to_string(frame) {
        None => {},
        Some(value) => {
            let v = value.as_str();
            match find_sub(v, "data: ") {
                None => {},
                Some(i) => {
                    let len = v.unicode_len();
                    proof {
                        reveal_strlit("data: ");
                        lemma_spec_find_from(v@, "data: "@, 0);
                        assert(i + 6 <= len);
                    }
                    let tail = v.substring_char(i + 6, len);
                    proof {
                        assert(tail@ =~= decode_utf8(frame@).skip(i + stream_marker().len()));
                    }
                    match parse_content_json(tail) {
                        None => {},
                        Some(content) => {
                            sink.append(content.as_str());
                        },
                    }
                },
            }
        },
    }
}

impl StreamDecoder {
    /// A decoder with an empty frame buffer.
    pub fn new() -> (d: StreamDecoder)
        ensures
            d@ == Seq::<u8>::empty(),
    {
        StreamDecoder { buf: Vec::new() }
    }

    /// Feeds one byte: a newline closes the frame under way, hands its
    /// contribution to the sink and clears the buffer whether or not the
    /// frame was well formed; any other byte is buffered.
    pub fn feed_byte(&mut self, b: u8, sink: &mut String)
        ensures
            b == 10 ==> final(self)@ == Seq::<u8>::empty() && final(sink)@ == old(sink)@
                + frame_emit(old(self)@),
            b != 10 ==> final(self)@ == old(self)@.push(b) && final(sink)@ == old(sink)@,
    {
        if b == 10 {
            process_frame(&self.buf, sink);
            self.buf.clear();
        } else {
            self.buf.push(b);
        }
    }

    /// Feeds a whole block of bytes, frame by frame.
    pub fn feed(&mut self, data: &Vec<u8>, sink: &mut String)
        ensures
            final(self)@ == run_decoder(old(self)@, data@).0,
            final(sink)@ == old(sink)@ + run_decoder(old(self)@, data@).1,
    {
        let n = data.len();
        let mut i: usize = 0;
        proof {
            assert(data@.skip(0) =~= data@);
        }
        while i < n
            invariant
                i <= n,
                n == data@.len(),
                run_decoder(old(self)@, data@).0 == run_decoder(self@, data@.skip(i as int)).0,
                old(sink)@ + run_decoder(old(self)@, data@).1 == sink@ + run_decoder(
                    self@,
                    data@.skip(i as int),
                ).1,
            decreases n - i,
        {
            let b = data[i];
            let ghost pre_buf = self@;
            let ghost pre_sink = sink@;
            let ghost rem = data@.skip(i as int);
            proof {
                assert(rem.first() == b);
                assert(rem.drop_first() =~= data@.skip(i + 1));
            }
            self.feed_byte(b, sink);
            proof {
                if b == 10 {
                    let rest = run_decoder(Seq::<u8>::empty(), data@.skip(i + 1));
                    assert(run_decoder(pre_buf, rem) == (rest.0, frame_emit(pre_buf) + rest.1));
                    assert(pre_sink + (frame_emit(pre_buf) + rest.1) =~= (pre_sink + frame_emit(
                        pre_buf,
                    )) + rest.1);
                    assert(old(sink)@ + run_decoder(old(self)@, data@).1 =~= sink@ + run_decoder(
                        self@,
                        data@.skip(i + 1),
                    ).1);
                } else {
                    assert(run_decoder(pre_buf, rem) == run_decoder(
                        pre_buf.push(b),
                        data@.skip(i + 1),
                    ));
                }
            }
            i += 1;
        }
        proof {
            assert(data@.skip(n as int) =~= Seq::<u8>::empty());
            assert(sink@ + Seq::<char>::empty() =~= sink@);
            assert(old(sink)@ + run_decoder(old(self)@, data@).1 =~= sink@);
        }
    }

    /// Ends the stream: the sink is given its terminating newline. Bytes of
    /// an unterminated frame stay pending and are never emitted.
    pub fn finish(&mut self, sink: &mut String)
        ensures
            final(self)@ == old(self)@,
            final(sink)@ == old(sink)@ + seq!['\n'],
    {
        sink.append("\n");
        proof {
            reveal_strlit("\n");
            assert("\n"@ =~= seq!['\n']);
        }
    }
}

/// The streamed-output line wrap: a break is emitted before a piece of `n`
/// characters when the running count would pass 80, and the count then
/// restarts at zero.
pub fn advance_wrap(char_count: usize, n: usize) -> (r: (usize, bool))
    requires
        char_count + n <= usize::MAX,
    ensures
        r.1 == (char_count + n > 80),
        r.0 == if char_count + n > 80 {
            0int
        } else {
            char_count + n
        },
{
    let total = char_count + n;
    if total > 80 {
        (0, true)
    } else {
        (total, false)
    }
}

} // verus!
