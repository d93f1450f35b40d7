//! The turn orchestrator's streaming side: one session per in-flight
//! turn, fed transport chunks, handing back what must reach the client.
//!
//! A text turn relays every decoded delta verbatim, in order; a voice
//! turn runs the deltas through the sentence segmenter and hands each
//! completed sentence to speech synthesis, the first call of the turn
//! with a self-contained audio container and every later one headerless
//! so the concatenated stream stays valid audio. Whatever the mode, the
//! session accumulates the complete text: what is persisted afterwards
//! is exactly the concatenation of the deltas the client was sent.

use vstd::prelude::*;
use crate::bytes::{views_of, concat_seqs, lemma_concat_seqs_app};
use crate::conversation::{Message, MessageType};
use crate::credit::{PriceTable, Approval, CreditError};
use crate::frame::{FrameDecoder, spec_decode};
use crate::persist::{PersistCtl, PersistPhase, TurnError};
use crate::segment::{Segmenter, spec_segment};

verus! {

/// One speech-synthesis request: the sentence to speak and whether this
/// is the turn's first call (self-contained container) or a later one
/// (headerless).
pub struct SpeechCall {
    pub sentence: Vec<u8>,
    pub first: bool,
}

/// The sentences of a batch paired with their container flags: only the
/// very first call of a turn is self-contained.
pub open spec fn spec_calls(sents: Seq<Seq<u8>>, started: bool) -> Seq<(Seq<u8>, bool)> {
    Seq::new(sents.len(), |i: int| (sents[i], !started && i == 0))
}

/// The calls a list of speech requests describes.
pub open spec fn call_views(s: Seq<SpeechCall>) -> Seq<(Seq<u8>, bool)> {
    s.map_values(|c: SpeechCall| (c.sentence@, c.first))
}

/// What one transport chunk obliges the application to forward.
pub enum RelayBatch {
    /// Text turn: these deltas, verbatim, in order.
    Text(Vec<Vec<u8>>),
    /// Voice turn: one synthesis call per completed sentence, in order,
    /// each fully forwarded before the next is made.
    Speech(Vec<SpeechCall>),
}

/// Feeding a list of deltas through the segmenter in order: all
/// sentences emitted, and the buffer that remains.
pub open spec fn spec_feed(buf: Seq<u8>, ds: Seq<Seq<u8>>) -> (Seq<Seq<u8>>, Seq<u8>)
    decreases ds.len(),
{
    if ds.len() == 0 {
        (Seq::empty(), buf)
    } else {
        let r1 = spec_segment(buf + ds[0]);
        let r2 = spec_feed(r1.1, ds.drop_first());
        (r1.0 + r2.0, r2.1)
    }
}

/// One more delta extends a feed at its end.
proof fn lemma_spec_feed_snoc(buf: Seq<u8>, ds: Seq<Seq<u8>>, d: Seq<u8>)
    ensures
        spec_feed(buf, ds.push(d)).0 == spec_feed(buf, ds).0 + spec_segment(
            spec_feed(buf, ds).1 + d,
        ).0,
        spec_feed(buf, ds.push(d)).1 == spec_segment(spec_feed(buf, ds).1 + d).1,
    decreases ds.len(),
{
    reveal_with_fuel(spec_feed, 3);
    if ds.len() == 0 {
        assert(ds.push(d)[0] == d);
        assert(ds.push(d).drop_first() =~= Seq::<Seq<u8>>::empty());
        assert(spec_feed(buf, ds.push(d)).0 =~= spec_segment(buf + d).0);
        assert(spec_feed(buf, ds).0 + spec_segment(spec_feed(buf, ds).1 + d).0 =~= spec_segment(
            buf + d,
        ).0);
    } else {
        assert(ds.push(d)[0] == ds[0]);
        assert(ds.push(d).drop_first() =~= ds.drop_first().push(d));
        lemma_spec_feed_snoc(spec_segment(buf + ds[0]).1, ds.drop_first(), d);
        assert(spec_feed(buf, ds.push(d)).0 =~= spec_feed(buf, ds).0 + spec_segment(
            spec_feed(buf, ds).1 + d,
        ).0);
    }
}

/// The streaming state of one turn.
pub struct TurnSession {
    mode: MessageType,
    decoder: FrameDecoder,
    segmenter: Segmenter,
    total: Vec<u8>,
    started_tts: bool,
    got_delta: bool,
    deltas: Ghost<Seq<Seq<u8>>>,
}

impl TurnSession {
    /// Whether this turn relays text or speech.
    pub closed spec fn spec_mode(&self) -> MessageType {
        self.mode
    }

    /// Every delta decoded so far, in order.
    pub closed spec fn spec_deltas(&self) -> Seq<Seq<u8>> {
        self.deltas@
    }

    /// The accumulated full text.
    pub closed spec fn spec_total(&self) -> Seq<u8> {
        self.total@
    }

    /// The decoder's buffered, still incomplete line.
    pub closed spec fn spec_pending(&self) -> Seq<u8> {
        self.decoder.spec_buf()
    }

    /// Whether the provider has sent its end-of-stream sentinel.
    pub closed spec fn spec_done(&self) -> bool {
        self.decoder.spec_done()
    }

    /// The segmenter's buffered, unterminated tail.
    pub closed spec fn spec_seg_buf(&self) -> Seq<u8> {
        self.segmenter.spec_buf()
    }

    /// Whether a synthesis call was already handed out this turn.
    pub closed spec fn spec_started_tts(&self) -> bool {
        self.started_tts
    }

    /// The session's invariant. Above all: the accumulated text is the
    /// concatenation of every delta relayed so far.
    pub closed spec fn wf(&self) -> bool {
        &&& self.decoder.wf()
        &&& self.segmenter.wf()
        &&& self.total@ == concat_seqs(self.deltas@)
        &&& self.got_delta == (self.deltas@.len() > 0)
        &&& self.started_tts ==> self.mode == MessageType::Voice
    }

    /// `wf`, stated for callers: what is accumulated for persistence is
    /// exactly the concatenation of the relayed deltas.
    pub proof fn lemma_accumulated(&self)
        requires
            self.wf(),
        ensures
            self.spec_total() == concat_seqs(self.spec_deltas()),
    {
    }

    /// A fresh session for one turn of the given mode.
    pub fn new(mode: MessageType) -> (s: TurnSession)
        ensures
            s.wf(),
            s.spec_mode() == mode,
            s.spec_deltas() == Seq::<Seq<u8>>::empty(),
            s.spec_total() == Seq::<u8>::empty(),
            s.spec_pending() == Seq::<u8>::empty(),
            s.spec_seg_buf() == Seq::<u8>::empty(),
            !s.spec_done(),
            !s.spec_started_tts(),
    {
        let s = TurnSession {
            mode,
            decoder: FrameDecoder::new(),
            segmenter: Segmenter::new(),
            total: Vec::new(),
            started_tts: false,
            got_delta: false,
            deltas: Ghost(Seq::empty()),
        };
        proof {
            assert(s.total@ =~= Seq::<u8>::empty());
            assert(concat_seqs(Seq::<Seq<u8>>::empty()) =~= Seq::<u8>::empty());
        }
        s
    }

    /// Whether the provider stream has ended normally.
    pub fn provider_done(&self) -> (r: bool)
        ensures
            r == self.spec_done(),
    {
        self.decoder.is_done()
    }

    /// Feed one transport chunk. The decoded deltas extend the
    /// accumulated text; the returned batch is exactly what must be
    /// forwarded to the client, in order.
    pub fn on_chunk(&mut self, chunk: &[u8]) -> (out: RelayBatch)
        requires
            old(self).wf(),
        ensures
            final(self).wf(),
            final(self).spec_mode() == old(self).spec_mode(),
            final(self).spec_deltas() == old(self).spec_deltas() + spec_decode(
                old(self).spec_pending() + chunk@,
                old(self).spec_done(),
            ).0,
            final(self).spec_total() == concat_seqs(final(self).spec_deltas()),
            final(self).spec_pending() == spec_decode(
                old(self).spec_pending() + chunk@,
                old(self).spec_done(),
            ).1,
            final(self).spec_done() == spec_decode(
                old(self).spec_pending() + chunk@,
                old(self).spec_done(),
            ).2,
            match out {
                RelayBatch::Text(ds) => {
                    &&& old(self).spec_mode() == MessageType::Text
                    &&& views_of(ds@) == spec_decode(
                        old(self).spec_pending() + chunk@,
                        old(self).spec_done(),
                    ).0
                    &&& final(self).spec_seg_buf() == old(self).spec_seg_buf()
                    &&& final(self).spec_started_tts() == old(self).spec_started_tts()
                },
                RelayBatch::Speech(calls) => {
                    &&& old(self).spec_mode() == MessageType::Voice
                    &&& call_views(calls@) == spec_calls(
                        spec_feed(
                            old(self).spec_seg_buf(),
                            spec_decode(
                                old(self).spec_pending() + chunk@,
                                old(self).spec_done(),
                            ).0,
                        ).0,
                        old(self).spec_started_tts(),
                    )
                    &&& final(self).spec_seg_buf() == spec_feed(
                        old(self).spec_seg_buf(),
                        spec_decode(old(self).spec_pending() + chunk@, old(self).spec_done()).0,
                    ).1
                    &&& final(self).spec_started_tts() == (old(self).spec_started_tts()
                        || calls@.len() > 0)
                },
            },
    {
        let ds = self.decoder.push_chunk(chunk);
        let ghost dec = spec_decode(old(self).spec_pending() + chunk@, old(self).spec_done());
        let ghost new_deltas = views_of(ds@);
        let ghost old_deltas = self.deltas@;
        let ghost old_total = self.total@;
        let ghost old_seg = self.segmenter.spec_buf();
        let ghost old_started = self.started_tts;
        proof {
            self.deltas@ = old_deltas + new_deltas;
        }
        let n = ds.len();
        if n > 0 {
            self.got_delta = true;
        }
        proof {
            assert(new_deltas.take(0) =~= Seq::<Seq<u8>>::empty());
            assert(concat_seqs(Seq::<Seq<u8>>::empty()) =~= Seq::<u8>::empty());
            assert(old_total + concat_seqs(new_deltas.take(0)) =~= old_total);
        }
        match self.mode {
            MessageType::Text => {
                let mut k: usize = 0;
                while k < n
                    invariant
                        0 <= k <= n,
                        n == ds@.len(),
                        new_deltas == views_of(ds@),
                        dec == spec_decode(
                            old(self).spec_pending() + chunk@,
                            old(self).spec_done(),
                        ),
                        new_deltas == dec.0,
                        self.mode == old(self).spec_mode(),
                        self.mode == MessageType::Text,
                        self.decoder.wf(),
                        self.decoder.spec_buf() == dec.1,
                        self.decoder.spec_done() == dec.2,
                        self.segmenter.wf(),
                        self.segmenter.spec_buf() == old(self).spec_seg_buf(),
                        self.started_tts == old(self).spec_started_tts(),
                        self.deltas@ == old(self).spec_deltas() + new_deltas,
                        old(self).spec_total() == concat_seqs(old(self).spec_deltas()),
                        self.got_delta == (self.deltas@.len() > 0),
                        old_total == old(self).spec_total(),
                        self.total@ == old_total + concat_seqs(new_deltas.take(k as int)),
                    decreases n - k,
                {
                    let ghost tot_before = self.total@;
                    let d_len = ds[k].len();
                    crate::bytes::append_bytes(&mut self.total, ds[k].as_slice());
                    proof {
                        let dv = new_deltas[k as int];
                        assert(self.total@ == tot_before + dv);
                        assert(new_deltas.take(k + 1) =~= new_deltas.take(k as int) + seq![dv]);
                        lemma_concat_seqs_app(new_deltas.take(k as int), seq![dv]);
                        crate::bytes::lemma_concat_seqs_one(dv);
                        assert(self.total@ =~= old_total + concat_seqs(new_deltas.take(k + 1)));
                    }
                    k = k + 1;
                }
                proof {
                    assert(new_deltas.take(n as int) =~= new_deltas);
                    lemma_concat_seqs_app(old(self).spec_deltas(), new_deltas);
                    assert(self.total@ =~= concat_seqs(self.deltas@));
                }
                RelayBatch::Text(ds)
            },
            MessageType::Voice => {
                let mut calls: Vec<SpeechCall> = Vec::new();
                let mut k: usize = 0;
                proof {
                    assert(call_views(calls@) =~= Seq::<(Seq<u8>, bool)>::empty());
                    assert(spec_calls(spec_feed(old_seg, new_deltas.take(0)).0, old_started)
                        =~= Seq::<(Seq<u8>, bool)>::empty());
                }
                while k < n
                    invariant
                        0 <= k <= n,
                        n == ds@.len(),
                        new_deltas == views_of(ds@),
                        dec == spec_decode(
                            old(self).spec_pending() + chunk@,
                            old(self).spec_done(),
                        ),
                        new_deltas == dec.0,
                        self.mode == old(self).spec_mode(),
                        self.mode == MessageType::Voice,
                        self.decoder.wf(),
                        self.decoder.spec_buf() == dec.1,
                        self.decoder.spec_done() == dec.2,
                        self.segmenter.wf(),
                        old_seg == old(self).spec_seg_buf(),
                        old_started == old(self).spec_started_tts(),
                        self.segmenter.spec_buf() == spec_feed(
                            old_seg,
                            new_deltas.take(k as int),
                        ).1,
                        call_views(calls@) == spec_calls(
                            spec_feed(old_seg, new_deltas.take(k as int)).0,
                            old_started,
                        ),
                        self.started_tts == (old_started || calls@.len() > 0),
                        self.deltas@ == old(self).spec_deltas() + new_deltas,
                        old(self).spec_total() == concat_seqs(old(self).spec_deltas()),
                        self.got_delta == (self.deltas@.len() > 0),
                        old_total == old(self).spec_total(),
                        self.total@ == old_total + concat_seqs(new_deltas.take(k as int)),
                    decreases n - k,
                {
                    let ghost tot_before = self.total@;
                    let ghost fed_before = spec_feed(old_seg, new_deltas.take(k as int));
                    crate::bytes::append_bytes(&mut self.total, ds[k].as_slice());
                    proof {
                        let dv = new_deltas[k as int];
                        assert(self.total@ == tot_before + dv);
                        assert(new_deltas.take(k + 1) =~= new_deltas.take(k as int) + seq![dv]);
                        lemma_concat_seqs_app(new_deltas.take(k as int), seq![dv]);
                        crate::bytes::lemma_concat_seqs_one(dv);
                        assert(self.total@ =~= old_total + concat_seqs(new_deltas.take(k + 1)));
                    }
                    let sents = self.segmenter.push_delta(ds[k].as_slice());
                    proof {
                        lemma_spec_feed_snoc(old_seg, new_deltas.take(k as int), new_deltas[
                            k as int
                        ]);
                        assert(new_deltas.take(k as int).push(new_deltas[k as int])
                            =~= new_deltas.take(k + 1));
                    }
                    let sn = sents.len();
                    let mut si: usize = 0;
                    let ghost fed_now = spec_feed(old_seg, new_deltas.take(k + 1));
                    proof {
                        assert(views_of(sents@).take(0) =~= Seq::<Seq<u8>>::empty());
                        assert(fed_before.0 + views_of(sents@).take(0) =~= fed_before.0);
                    }
                    while si < sn
                        invariant
                            0 <= si <= sn,
                            sn == sents@.len(),
                            views_of(sents@) == spec_segment(fed_before.1 + new_deltas[
                                k as int
                            ]).0,
                            fed_now.0 == fed_before.0 + views_of(sents@),
                            call_views(calls@) == spec_calls(
                                fed_before.0 + views_of(sents@).take(si as int),
                                old_started,
                            ),
                            self.started_tts == (old_started || calls@.len() > 0),
                            0 <= k < n,
                            n == ds@.len(),
                            new_deltas == views_of(ds@),
                            dec == spec_decode(
                                old(self).spec_pending() + chunk@,
                                old(self).spec_done(),
                            ),
                            new_deltas == dec.0,
                            self.mode == old(self).spec_mode(),
                            self.mode == MessageType::Voice,
                            self.decoder.wf(),
                            self.decoder.spec_buf() == dec.1,
                            self.decoder.spec_done() == dec.2,
                            self.segmenter.wf(),
                            old_seg == old(self).spec_seg_buf(),
                            old_started == old(self).spec_started_tts(),
                            self.segmenter.spec_buf() == spec_feed(
                                old_seg,
                                new_deltas.take(k + 1),
                            ).1,
                            self.deltas@ == old(self).spec_deltas() + new_deltas,
                            old(self).spec_total() == concat_seqs(old(self).spec_deltas()),
                            self.got_delta == (self.deltas@.len() > 0),
                            old_total == old(self).spec_total(),
                            self.total@ == old_total + concat_seqs(new_deltas.take(k + 1)),
                            fed_before == spec_feed(old_seg, new_deltas.take(k as int)),
                            fed_now == spec_feed(old_seg, new_deltas.take(k + 1)),
                        decreases sn - si,
                    {
                        let first = !self.started_tts;
                        let ghost calls_before = calls@;
                        let sentence = vstd::slice::slice_to_vec(sents[si].as_slice());
                        calls.push(SpeechCall { sentence, first });
                        self.started_tts = true;
                        proof {
                            assert(call_views(calls@) =~= call_views(calls_before).push(
                                (sents@[si as int]@, first),
                            ));
                            assert(fed_before.0 + views_of(sents@).take(si + 1)
                                =~= (fed_before.0 + views_of(sents@).take(si as int)).push(
                                sents@[si as int]@,
                            ));
                            assert(call_views(calls@) =~= spec_calls(
                                fed_before.0 + views_of(sents@).take(si + 1),
                                old_started,
                            ));
                        }
                        si = si + 1;
                    }
                    proof {
                        assert(views_of(sents@).take(sn as int) =~= views_of(sents@));
                        assert(call_views(calls@) =~= spec_calls(fed_now.0, old_started));
                    }
                    k = k + 1;
                }
                proof {
                    assert(new_deltas.take(n as int) =~= new_deltas);
                    lemma_concat_seqs_app(old(self).spec_deltas(), new_deltas);
                    assert(self.total@ =~= concat_seqs(self.deltas@));
                }
                RelayBatch::Speech(calls)
            },
        }
    }

    /// The stream has ended: hand the accumulated text over for
    /// persistence. A stream that never produced a single delta is a
    /// fatal upstream error; otherwise the text — the concatenation of
    /// everything relayed — is returned, even if the client went away
    /// mid-stream.
    pub fn finish(self) -> (r: Result<Vec<u8>, TurnError>)
        requires
            self.wf(),
        ensures
            match r {
                Ok(v) => self.spec_deltas().len() > 0 && v@ == concat_seqs(self.spec_deltas()),
                Err(e) => self.spec_deltas().len() == 0 && e == TurnError::Upstream,
            },
    {
        if self.got_delta {
            Ok(self.total)
        } else {
            Err(TurnError::Upstream)
        }
    }
}

/// The decisions taken at turn start, before any resource is acquired:
/// mode, pricing and the persistence machine, all from the balance
/// snapshot captured here.
pub struct TurnPlan {
    pub mode: MessageType,
    pub approval: Approval,
    pub session: TurnSession,
    pub persist: PersistCtl,
}

/// What a committed turn persists: at the boundary the conversation
/// gains exactly the user/assistant pair, and the assistant entry's
/// text is the concatenation of the relayed deltas — the accumulated
/// stream, nothing else.
pub proof fn lemma_turn_persists_stream(
    entries: Seq<Message>,
    boundary: int,
    u: Message,
    a: Message,
    deltas: Seq<Seq<u8>>,
)
    requires
        0 <= boundary <= entries.len(),
        a.msgtype == MessageType::Text,
        a.content@ == concat_seqs(deltas),
    ensures
        crate::conversation::spec_apply_turn(entries, boundary, u, a).len() == boundary + 2,
        crate::conversation::spec_apply_turn(entries, boundary, u, a)[boundary] == u,
        crate::conversation::spec_apply_turn(entries, boundary, u, a)[boundary + 1].spec_text()
            == concat_seqs(deltas),
        forall|i: int|
            0 <= i < boundary ==> crate::conversation::spec_apply_turn(
                entries,
                boundary,
                u,
                a,
            )[i] == entries[i],
{
}

/// All decisions owed before any resource is acquired, in order: the
/// session must carry a balance, the message type must be known, the
/// model must be priced within the balance, and the edit target must
/// name an existing user turn of the conversation as last seen. Only
/// then may the provider be called. The returned plan carries the
/// balance snapshot; it is never re-read during the turn.
pub fn start_turn(
    prices: &PriceTable,
    model: &[u8],
    credits: Option<i64>,
    message_type: &[u8],
    edit_target: i64,
    advisory_entry_count: usize,
    user_id: i64,
) -> (r: Result<TurnPlan, TurnError>)
    requires
        prices.wf(),
        credits matches Some(c) ==> c >= 0,
    ensures
        credits is None ==> (r matches Err(e) && e == TurnError::MissingSession),
        credits matches Some(c) ==> match spec_type_of(message_type@) {
            None => (r matches Err(e) && e == TurnError::InvalidMessageType),
            Some(mode) => match prices.spec_price(model@) {
                None => (r matches Err(e) && e == TurnError::InvalidModel),
                Some(p) => if p > c {
                    (r matches Err(e) && e == TurnError::InsufficientCredit)
                } else if !crate::persist::valid_target(
                    edit_target as int,
                    advisory_entry_count as int,
                ) {
                    (r matches Err(e) && e == TurnError::InvalidEditTarget)
                } else {
                    (r matches Ok(plan) && {
                        &&& plan.mode == mode
                        &&& plan.approval.cost == p
                        &&& plan.approval.remaining == c - p
                        &&& plan.session.wf()
                        &&& plan.session.spec_mode() == mode
                        &&& plan.session.spec_deltas() == Seq::<Seq<u8>>::empty()
                        &&& plan.session.spec_pending() == Seq::<u8>::empty()
                        &&& plan.session.spec_seg_buf() == Seq::<u8>::empty()
                        &&& !plan.session.spec_done()
                        &&& !plan.session.spec_started_tts()
                        &&& plan.persist.phase == PersistPhase::Idle
                        &&& plan.persist.user_id == user_id
                        &&& plan.persist.credits_remaining == c - p
                        &&& plan.persist.edit_target == edit_target
                        &&& plan.persist.failure is None
                    })
                },
            },
        },
{
    let credits = match credits {
        None => {
            return Err(TurnError::MissingSession);
        },
        Some(c) => c,
    };
    let mode = match parse_message_type(message_type) {
        None => {
            return Err(TurnError::InvalidMessageType);
        },
        Some(m) => m,
    };
    let approval = match prices.check(model, credits) {
        Err(CreditError::InvalidModel) => {
            return Err(TurnError::InvalidModel);
        },
        Err(CreditError::InsufficientCredit) => {
            return Err(TurnError::InsufficientCredit);
        },
        Ok(a) => a,
    };
    match crate::conversation::validate_edit_target(edit_target, advisory_entry_count) {
        Err(_) => {
            return Err(TurnError::InvalidEditTarget);
        },
        Ok(_) => {},
    };
    let session = TurnSession::new(mode);
    let persist = PersistCtl::start(user_id, approval.remaining, edit_target);
    Ok(TurnPlan { mode, approval, session, persist })
}

/// `text` and `voice`, the two accepted message type names.
pub open spec fn spec_type_of(s: Seq<u8>) -> Option<MessageType> {
    if s == crate::bytes::lit_bytes("text") {
        Some(MessageType::Text)
    } else if s == crate::bytes::lit_bytes("voice") {
        Some(MessageType::Voice)
    } else {
        None
    }
}

/// Exec mirror of [`spec_type_of`].
pub fn parse_message_type(s: &[u8]) -> (r: Option<MessageType>)
    ensures
        r == spec_type_of(s@),
{
    proof {
        reveal_strlit("text");
        reveal_strlit("voice");
    }
    let text = crate::bytes::ascii_bytes("text");
    let voice = crate::bytes::ascii_bytes("voice");
    if crate::bytes::bytes_eq(s, text.as_slice()) {
        Some(MessageType::Text)
    } else if crate::bytes::bytes_eq(s, voice.as_slice()) {
        Some(MessageType::Voice)
    } else {
        None
    }
}

} // verus!
