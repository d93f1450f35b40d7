//! The sentence segmenter: a pure streaming transform from text deltas to
//! complete sentences, used only on voice turns.
//!
//! Deltas are appended to a buffer; whenever the buffer holds a sentence
//! boundary — `.`, `!` or `?` followed by one whitespace byte, or a line
//! feed — the prefix up to and including the boundary leaves the buffer
//! as a complete sentence, leftmost boundary first. An unterminated tail
//! stays buffered; it is never flushed at end-of-stream, so a trailing
//! partial sentence is dropped from speech synthesis by design.

use vstd::prelude::*;
use crate::bytes::{spec_is_ws, is_ws, views_of};

verus! {

/// Sentence-final punctuation.
pub open spec fn spec_is_punct(b: u8) -> bool {
    b == 46 || b == 33 || b == 63
}

/// Exec mirror of [`spec_is_punct`].
pub fn is_punct(b: u8) -> (r: bool)
    ensures
        r == spec_is_punct(b),
{
    b == 46 || b == 33 || b == 63
}

/// End (exclusive) of the first complete sentence whose boundary starts
/// at or after `i`: one past a line feed, or one past the whitespace
/// byte that follows sentence-final punctuation.
pub open spec fn scan_from(s: Seq<u8>, i: int) -> Option<int>
    decreases s.len() - i,
{
    if i < 0 || i >= s.len() {
        None
    } else if s[i] == 10 {
        Some(i + 1)
    } else if spec_is_punct(s[i]) && i + 1 < s.len() && spec_is_ws(s[i + 1]) {
        Some(i + 2)
    } else {
        scan_from(s, i + 1)
    }
}

/// End of the leftmost complete sentence in `s`, if any.
pub open spec fn first_sentence_end(s: Seq<u8>) -> Option<int> {
    scan_from(s, 0)
}

/// A found end lies strictly inside `(i, s.len()]`.
pub proof fn lemma_scan_bounds(s: Seq<u8>, i: int)
    requires
        i >= 0,
    ensures
        scan_from(s, i) matches Some(e) ==> i < e <= s.len(),
    decreases s.len() - i,
{
    if i < s.len() {
        lemma_scan_bounds(s, i + 1);
    }
}

/// Every complete sentence `s` splits into, leftmost first, and the
/// unterminated tail that stays buffered.
pub open spec fn spec_segment(s: Seq<u8>) -> (Seq<Seq<u8>>, Seq<u8>)
    decreases s.len(),
    via spec_segment_decreases
{
    match first_sentence_end(s) {
        None => (Seq::empty(), s),
        Some(e) => {
            let rest = spec_segment(s.skip(e));
            (seq![s.take(e)] + rest.0, rest.1)
        },
    }
}

#[via_fn]
proof fn spec_segment_decreases(s: Seq<u8>) {
    lemma_scan_bounds(s, 0);
}

/// No sentence is emitted before its boundary arrives: text without a
/// boundary stays buffered, all of it.
pub proof fn lemma_no_early_sentence(s: Seq<u8>)
    requires
        first_sentence_end(s) is None,
    ensures
        spec_segment(s).0 == Seq::<Seq<u8>>::empty(),
        spec_segment(s).1 == s,
{
}

/// The streaming segmenter. Its one invariant: the buffer never holds a
/// complete sentence.
pub struct Segmenter {
    buf: Vec<u8>,
}

impl Segmenter {
    /// The buffered, still unterminated tail.
    pub closed spec fn spec_buf(&self) -> Seq<u8> {
        self.buf@
    }

    /// No complete sentence is ever left in the buffer.
    pub open spec fn wf(&self) -> bool {
        first_sentence_end(self.spec_buf()) is None
    }

    pub fn new() -> (s: Segmenter)
        ensures
            s.wf(),
            s.spec_buf() == Seq::<u8>::empty(),
    {
        let s = Segmenter { buf: Vec::new() };
        proof {
            assert(s.buf@ =~= Seq::<u8>::empty());
        }
        s
    }

    /// Append one delta; every sentence completed by it comes out, in
    /// order, and exactly the unterminated tail stays buffered.
    pub fn push_delta(&mut self, delta: &[u8]) -> (out: Vec<Vec<u8>>)
        requires
            old(self).wf(),
        ensures
            final(self).wf(),
            views_of(out@) == spec_segment(old(self).spec_buf() + delta@).0,
            final(self).spec_buf() == spec_segment(old(self).spec_buf() + delta@).1,
    {
        let ghost total = self.buf@ + delta@;
        let mut j: usize = 0;
        let dn = delta.len();
        while j < dn
            invariant
                0 <= j <= dn,
                dn == delta@.len(),
                self.buf@ == old(self).spec_buf() + delta@.take(j as int),
            decreases dn - j,
        {
            self.buf.push(delta[j]);
            proof {
                assert(self.buf@ =~= old(self).spec_buf() + delta@.take(j + 1));
            }
            j = j + 1;
        }
        proof {
            assert(self.buf@ =~= total);
        }
        let mut out: Vec<Vec<u8>> = Vec::new();
        proof {
            assert(views_of(out@) =~= Seq::<Seq<u8>>::empty());
        }
        loop
            invariant
                total == old(self).spec_buf() + delta@,
                spec_segment(total).0 == views_of(out@) + spec_segment(
                    self.buf@,
                ).0,
                spec_segment(total).1 == spec_segment(self.buf@).1,
            decreases self.buf@.len(),
        {
            let e_opt = find_first_sentence_end(self.buf.as_slice());
            proof {
                lemma_scan_bounds(self.buf@, 0);
            }
            match e_opt {
                None => {
                    proof {
                        assert(spec_segment(self.buf@) == (
                            Seq::<Seq<u8>>::empty(),
                            self.buf@,
                        ));
                        assert(views_of(out@) + Seq::<Seq<u8>>::empty()
                            =~= views_of(out@));
                    }
                    return out;
                },
                Some(e) => {
                    let ghost before = self.buf@;
                    let mut sentence: Vec<u8> = Vec::new();
                    let mut i: usize = 0;
                    while i < e
                        invariant
                            0 <= i <= e <= self.buf@.len(),
                            self.buf@ == before,
                            sentence@ == before.take(i as int),
                        decreases e - i,
                    {
                        sentence.push(self.buf[i]);
                        proof {
                            assert(sentence@ =~= before.take(i + 1));
                        }
                        i = i + 1;
                    }
                    let n = self.buf.len();
                    let mut rest: Vec<u8> = Vec::new();
                    let mut m = e;
                    while m < n
                        invariant
                            e <= m <= n,
                            n == self.buf@.len(),
                            self.buf@ == before,
                            rest@ == before.subrange(e as int, m as int),
                        decreases n - m,
                    {
                        rest.push(self.buf[m]);
                        proof {
                            assert(rest@ =~= before.subrange(e as int, m + 1));
                        }
                        m = m + 1;
                    }
                    proof {
                        assert(rest@ =~= before.skip(e as int));
                    }
                    self.buf = rest;
                    let ghost out_before = out@;
                    out.push(sentence);
                    proof {
                        assert(views_of(out@) =~= views_of(out_before).push(before.take(e as int)));
                        assert(spec_segment(before).0 =~= seq![before.take(e as int)]
                            + spec_segment(before.skip(e as int)).0);
                        assert(views_of(out_before) + spec_segment(before).0
                            =~= views_of(out@) + spec_segment(
                            before.skip(e as int),
                        ).0);
                    }
                },
            }
        }
    }
}

/// Exec mirror of [`first_sentence_end`].
pub fn find_first_sentence_end(s: &[u8]) -> (r: Option<usize>)
    ensures
        match r {
            Some(e) => first_sentence_end(s@) == Some(e as int),
            None => first_sentence_end(s@) is None,
        },
{
    let n = s.len();
    let mut i: usize = 0;
    while i < n
        invariant
            0 <= i <= n,
            n == s@.len(),
            first_sentence_end(s@) == scan_from(s@, i as int),
        decreases n - i,
    {
        if s[i] == 10 {
            return Some(i + 1);
        }
        if is_punct(s[i]) && i + 1 < n && is_ws(s[i + 1]) {
            return Some(i + 2);
        }
        i = i + 1;
    }
    None
}

} // verus!
