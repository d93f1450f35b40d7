//! The provider stream adapter's decoder: newline-delimited `data: `
//! frames in, text deltas out.
//!
//! The provider emits `data: <json>` event frames separated by line
//! feeds, closed by a `data: [DONE]` sentinel; each body's shape is
//! `{"choices":[{"delta":{"content": ...}}]}`. Frames may arrive split
//! across transport chunks, so bytes are buffered until their line feed
//! arrives and only complete frames are examined — no byte is dropped
//! silently. A complete frame whose body is not such a chunk is an
//! ignorable gap, not an error; everything after the sentinel is
//! ignored.

use vstd::prelude::*;
use crate::bytes::{ascii_bytes, bytes_eq, lit_bytes, views_of};
use vstd::slice::{slice_to_vec, slice_subrange};

verus! {

/// The delta carried by one choice of a provider chunk.
#[derive(Debug, Clone)]
pub struct ChatChunkDelta {
    pub content: Option<Vec<u8>>,
}

/// One choice of a provider chunk.
#[derive(Debug, Clone)]
pub struct ChatChunkChoice {
    pub delta: ChatChunkDelta,
    pub index: usize,
    pub finish_reason: Option<Vec<u8>>,
}

/// One parsed provider event frame body.
#[derive(Debug, Clone)]
pub struct ChatCompletionChunk {
    pub choices: Vec<ChatChunkChoice>,
}

/// What a frame body parses to: `None` when the body is not a chunk of
/// the documented shape, otherwise each choice's optional delta text.
/// The value is fixed by the body's bytes alone.
pub uninterp spec fn frame_choices(body: Seq<u8>) -> Option<Seq<Option<Seq<u8>>>>;

/// The delta text one choice carries.
pub open spec fn choice_content(ch: ChatChunkChoice) -> Option<Seq<u8>> {
    match ch.delta.content {
        Some(v) => Some(v@),
        None => None,
    }
}

/// The delta text of each choice of a parsed chunk, in order.
pub open spec fn chunk_contents(c: ChatCompletionChunk) -> Seq<Option<Seq<u8>>> {
    c.choices@.map_values(|ch: ChatChunkChoice| choice_content(ch))
}

/// Relies on `serde_json::from_slice` and `serde_json::Value`'s `get`,
/// `as_array` and `as_str` accessors: parses a frame body and reads out
/// `choices[i].delta.content` (and `finish_reason`) of each choice.
#[verifier::external_body]
fn parse_chunk(body: &[u8]) -> (r: Option<ChatCompletionChunk>)
    ensures
        match r {
            Some(c) => frame_choices(body@) == Some(chunk_contents(c)),
            None => frame_choices(body@) is None,
        },
{
    let v: serde_json::Value = serde_json::from_slice(body).ok()?;
    let arr = v.get("choices")?.as_array()?;
    let mut choices: Vec<ChatChunkChoice> = Vec::new();
    for (index, c) in arr.iter().enumerate() {
        let content = c.get("delta").and_then(|d| d.get("content")).and_then(|s| s.as_str());
        let finish = c.get("finish_reason").and_then(|s| s.as_str());
        let delta = ChatChunkDelta { content: content.map(|s| s.as_bytes().to_vec()) };
        choices.push(ChatChunkChoice { delta, index, finish_reason: finish.map(|s| s.as_bytes().to_vec()) });
    }
    Some(ChatCompletionChunk { choices })
}

/// The delta a parsed chunk contributes: the first choice's content.
pub open spec fn spec_first_content(choices: Seq<Option<Seq<u8>>>) -> Option<Seq<u8>> {
    if choices.len() > 0 {
        choices[0]
    } else {
        None
    }
}

impl ChatCompletionChunk {
    /// Exec mirror of [`spec_first_content`] over this chunk's choices.
    pub fn first_content(&self) -> (r: Option<Vec<u8>>)
        ensures
            match r {
                Some(v) => spec_first_content(chunk_contents(*self)) == Some(v@),
                None => spec_first_content(chunk_contents(*self)) is None,
            },
    {
        if self.choices.len() > 0 {
            match &self.choices[0].delta.content {
                Some(v) => Some(slice_to_vec(v.as_slice())),
                None => None,
            }
        } else {
            None
        }
    }
}

/// The frame prefix `data: ` as bytes.
pub open spec fn spec_data_prefix() -> Seq<u8> {
    lit_bytes("data: ")
}

/// The end-of-stream sentinel body `[DONE]` as bytes.
pub open spec fn spec_done_sentinel() -> Seq<u8> {
    lit_bytes("[DONE]")
}

fn data_prefix() -> (v: Vec<u8>)
    ensures
        v@ == spec_data_prefix(),
{
    proof {
        reveal_strlit("data: ");
    }
    ascii_bytes("data: ")
}

fn done_sentinel() -> (v: Vec<u8>)
    ensures
        v@ == spec_done_sentinel(),
{
    proof {
        reveal_strlit("[DONE]");
    }
    ascii_bytes("[DONE]")
}

/// A complete line that is the end-of-stream sentinel frame.
pub open spec fn line_is_done(line: Seq<u8>) -> bool {
    &&& line.len() >= 6
    &&& line.take(6) == spec_data_prefix()
    &&& line.skip(6) == spec_done_sentinel()
}

/// The delta a complete line contributes: only a `data: ` frame whose
/// body parses as a chunk whose first choice carries content.
pub open spec fn line_delta(line: Seq<u8>) -> Option<Seq<u8>> {
    if line.len() >= 6 && line.take(6) == spec_data_prefix() && !line_is_done(line) {
        match frame_choices(line.skip(6)) {
            Some(choices) => spec_first_content(choices),
            None => None,
        }
    } else {
        None
    }
}

/// Index of the first line feed at or after `i`.
pub open spec fn find_nl(s: Seq<u8>, i: int) -> Option<int>
    decreases s.len() - i,
{
    if i < 0 || i >= s.len() {
        None
    } else if s[i] == 10 {
        Some(i)
    } else {
        find_nl(s, i + 1)
    }
}

/// A found line feed lies in `[i, s.len())`.
pub proof fn lemma_find_nl_bounds(s: Seq<u8>, i: int)
    requires
        i >= 0,
    ensures
        find_nl(s, i) matches Some(e) ==> i <= e < s.len(),
    decreases s.len() - i,
{
    if i < s.len() {
        lemma_find_nl_bounds(s, i + 1);
    }
}

/// Decoding the buffered bytes `s` with the sentinel already seen or
/// not: the deltas of the complete lines in order, the incomplete tail
/// left buffered, and whether the sentinel has been seen.
pub open spec fn spec_decode(s: Seq<u8>, done: bool) -> (Seq<Seq<u8>>, Seq<u8>, bool)
    decreases s.len(),
    via spec_decode_decreases
{
    match find_nl(s, 0) {
        None => (Seq::empty(), s, done),
        Some(i) => {
            let line = s.take(i);
            let rest = s.skip(i + 1);
            if done {
                let r = spec_decode(rest, true);
                (Seq::empty(), r.1, true)
            } else if line_is_done(line) {
                let r = spec_decode(rest, true);
                (Seq::empty(), r.1, true)
            } else {
                let r = spec_decode(rest, false);
                match line_delta(line) {
                    Some(d) => (seq![d] + r.0, r.1, r.2),
                    None => r,
                }
            }
        },
    }
}

#[via_fn]
proof fn spec_decode_decreases(s: Seq<u8>, done: bool) {
    lemma_find_nl_bounds(s, 0);
}

/// The bytes after the last line feed of `s`; all of `s` when it has
/// none.
pub open spec fn tail_after_last_nl(s: Seq<u8>) -> Seq<u8>
    decreases s.len(),
    via tail_after_last_nl_decreases
{
    match find_nl(s, 0) {
        None => s,
        Some(i) => tail_after_last_nl(s.skip(i + 1)),
    }
}

#[via_fn]
proof fn tail_after_last_nl_decreases(s: Seq<u8>) {
    lemma_find_nl_bounds(s, 0);
}

/// No byte is dropped silently: whatever decoding does with the
/// complete lines, what stays buffered is exactly the bytes after the
/// last line feed — a frame split across transport chunks waits there,
/// whole, for its line feed.
pub proof fn lemma_decode_keeps_tail(s: Seq<u8>, done: bool)
    ensures
        spec_decode(s, done).1 == tail_after_last_nl(s),
    decreases s.len(),
{
    lemma_find_nl_bounds(s, 0);
    match find_nl(s, 0) {
        None => {},
        Some(i) => {
            lemma_decode_keeps_tail(s.skip(i + 1), true);
            lemma_decode_keeps_tail(s.skip(i + 1), false);
        },
    }
}

/// The streaming frame decoder. Invariant: the buffer never holds a
/// complete line.
pub struct FrameDecoder {
    buf: Vec<u8>,
    done: bool,
}

impl FrameDecoder {
    /// The buffered bytes of the still incomplete line.
    pub closed spec fn spec_buf(&self) -> Seq<u8> {
        self.buf@
    }

    /// Whether the `[DONE]` sentinel has been seen.
    pub closed spec fn spec_done(&self) -> bool {
        self.done
    }

    /// No complete line is ever left in the buffer.
    pub open spec fn wf(&self) -> bool {
        find_nl(self.spec_buf(), 0) is None
    }

    pub fn new() -> (d: FrameDecoder)
        ensures
            d.wf(),
            d.spec_buf() == Seq::<u8>::empty(),
            !d.spec_done(),
    {
        let d = FrameDecoder { buf: Vec::new(), done: false };
        proof {
            assert(d.buf@ =~= Seq::<u8>::empty());
        }
        d
    }

    /// Whether the stream has ended normally.
    pub fn is_done(&self) -> (r: bool)
        ensures
            r == self.spec_done(),
    {
        self.done
    }

    /// Feed one transport chunk; the deltas of every frame completed by
    /// it come out in order.
    pub fn push_chunk(&mut self, chunk: &[u8]) -> (out: Vec<Vec<u8>>)
        requires
            old(self).wf(),
        ensures
            final(self).wf(),
            views_of(out@) == spec_decode(
                old(self).spec_buf() + chunk@,
                old(self).spec_done(),
            ).0,
            final(self).spec_buf() == spec_decode(
                old(self).spec_buf() + chunk@,
                old(self).spec_done(),
            ).1,
            final(self).spec_done() == spec_decode(
                old(self).spec_buf() + chunk@,
                old(self).spec_done(),
            ).2,
    {
        let ghost total = self.buf@ + chunk@;
        let ghost d0 = self.done;
        let mut j: usize = 0;
        let cn = chunk.len();
        while j < cn
            invariant
                0 <= j <= cn,
                cn == chunk@.len(),
                self.buf@ == old(self).spec_buf() + chunk@.take(j as int),
                self.done == old(self).spec_done(),
            decreases cn - j,
        {
            self.buf.push(chunk[j]);
            proof {
                assert(self.buf@ =~= old(self).spec_buf() + chunk@.take(j + 1));
            }
            j = j + 1;
        }
        proof {
            assert(self.buf@ =~= total);
        }
        let mut out: Vec<Vec<u8>> = Vec::new();
        proof {
            assert(views_of(out@) =~= Seq::<Seq<u8>>::empty());
        }
        loop
            invariant
                total == old(self).spec_buf() + chunk@,
                d0 == old(self).spec_done(),
                spec_decode(total, d0).0 == views_of(out@) + spec_decode(
                    self.buf@,
                    self.done,
                ).0,
                spec_decode(total, d0).1 == spec_decode(self.buf@, self.done).1,
                spec_decode(total, d0).2 == spec_decode(self.buf@, self.done).2,
            decreases self.buf@.len(),
        {
            let nl = find_first_nl(self.buf.as_slice());
            proof {
                lemma_find_nl_bounds(self.buf@, 0);
            }
            match nl {
                None => {
                    proof {
                        assert(spec_decode(self.buf@, self.done) == (
                            Seq::<Seq<u8>>::empty(),
                            self.buf@,
                            self.done,
                        ));
                        assert(views_of(out@) + Seq::<Seq<u8>>::empty()
                            =~= views_of(out@));
                    }
                    return out;
                },
                Some(i) => {
                    let ghost before = self.buf@;
                    let line: Vec<u8> = slice_to_vec(slice_subrange(self.buf.as_slice(), 0, i));
                    let n = self.buf.len();
                    let rest: Vec<u8> = slice_to_vec(
                        slice_subrange(self.buf.as_slice(), i + 1, n),
                    );
                    proof {
                        assert(line@ =~= before.take(i as int));
                        assert(rest@ =~= before.skip(i + 1));
                    }
                    self.buf = rest;
                    if self.done {
                        // after the sentinel every frame is ignored
                    } else if line_done_exec(line.as_slice()) {
                        self.done = true;
                    } else {
                        match line_delta_exec(line.as_slice()) {
                            Some(d) => {
                                let ghost dd = d@;
                                let ghost out_before = out@;
                                out.push(d);
                                proof {
                                    assert(views_of(out@)
                                        =~= views_of(out_before).push(dd));
                                    assert(views_of(out_before) + (seq![dd]
                                        + spec_decode(self.buf@, false).0) =~= views_of(out@)
                                        + spec_decode(self.buf@, false).0);
                                }
                            },
                            None => {
                            },
                        }
                    }
                },
            }
        }
    }
}

/// Exec mirror of [`find_nl`] from the start of the slice.
fn find_first_nl(s: &[u8]) -> (r: Option<usize>)
    ensures
        match r {
            Some(e) => find_nl(s@, 0) == Some(e as int),
            None => find_nl(s@, 0) is None,
        },
{
    let n = s.len();
    let mut i: usize = 0;
    while i < n
        invariant
            0 <= i <= n,
            n == s@.len(),
            find_nl(s@, 0) == find_nl(s@, i as int),
        decreases n - i,
    {
        if s[i] == 10 {
            return Some(i);
        }
        i = i + 1;
    }
    None
}

/// Exec mirror of [`line_is_done`].
fn line_done_exec(line: &[u8]) -> (r: bool)
    ensures
        r == line_is_done(line@),
{
    if line.len() < 6 {
        return false;
    }
    let n = line.len();
    let prefix = data_prefix();
    let sentinel = done_sentinel();
    let head = slice_subrange(line, 0, 6);
    let body = slice_subrange(line, 6, n);
    let r = bytes_eq(head, prefix.as_slice()) && bytes_eq(body, sentinel.as_slice());
    proof {
        assert(line@.take(6) =~= head@);
        assert(line@.skip(6) =~= body@);
    }
    r
}

/// Exec mirror of [`line_delta`].
fn line_delta_exec(line: &[u8]) -> (r: Option<Vec<u8>>)
    requires
        !line_is_done(line@),
    ensures
        match r {
            Some(v) => line_delta(line@) == Some(v@),
            None => line_delta(line@) is None,
        },
{
    if line.len() < 6 {
        return None;
    }
    let n = line.len();
    let prefix = data_prefix();
    let head = slice_subrange(line, 0, 6);
    proof {
        assert(line@.take(6) =~= head@);
    }
    if !bytes_eq(head, prefix.as_slice()) {
        return None;
    }
    let body = slice_subrange(line, 6, n);
    proof {
        assert(line@.skip(6) =~= body@);
    }
    match parse_chunk(body) {
        Some(chunk) => chunk.first_content(),
        None => None,
    }
}

} // verus!
