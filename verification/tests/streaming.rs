use chatstream::conversation::MessageType;
use chatstream::frame::FrameDecoder;
use chatstream::pipeline::{RelayBatch, TurnSession};
use chatstream::segment::Segmenter;

fn b(s: &str) -> Vec<u8> {
    s.as_bytes().to_vec()
}

#[test]
fn segmenter_emits_sentences_only_at_their_boundaries() {
    let mut seg = Segmenter::new();
    let out = seg.push_delta(b"Hello wor".as_ref());
    assert!(out.is_empty());
    let out = seg.push_delta(b"ld. How are".as_ref());
    assert_eq!(out, vec![b("Hello world. ")]);
    let out = seg.push_delta(b" you?\n".as_ref());
    assert_eq!(out, vec![b("How are you?\n")]);
}

#[test]
fn segmenter_handles_exclamations_and_questions() {
    let mut seg = Segmenter::new();
    let out = seg.push_delta(b"Yes! No? Maybe".as_ref());
    assert_eq!(out, vec![b("Yes! "), b("No? ")]);
    // the unterminated tail stays buffered and is never flushed
    let out = seg.push_delta(b" so".as_ref());
    assert!(out.is_empty());
}

#[test]
fn segmenter_waits_for_whitespace_after_punctuation() {
    let mut seg = Segmenter::new();
    // "3.14" must not split at the decimal point
    let out = seg.push_delta(b"pi is 3.14 about.".as_ref());
    assert!(out.is_empty());
    let out = seg.push_delta(b" yes".as_ref());
    assert_eq!(out, vec![b("pi is 3.14 about. ")]);
}

#[test]
fn frame_split_across_chunks_reassembles() {
    let mut dec = FrameDecoder::new();
    let out = dec.push_chunk(b"data: {\"choices\":[{\"delta\":{\"content\":\"Hi\"}}]".as_ref());
    assert!(out.is_empty());
    let out = dec.push_chunk(b"}\n".as_ref());
    assert_eq!(out, vec![b("Hi")]);
}

#[test]
fn done_sentinel_ends_the_stream_and_later_frames_are_ignored() {
    let mut dec = FrameDecoder::new();
    let out = dec.push_chunk(
        b"data: {\"choices\":[{\"delta\":{\"content\":\"a\"}}]}\ndata: [DONE]\ndata: {\"choices\":[{\"delta\":{\"content\":\"b\"}}]}\n".as_ref(),
    );
    assert_eq!(out, vec![b("a")]);
    assert!(dec.is_done());
    let out = dec.push_chunk(b"data: {\"choices\":[{\"delta\":{\"content\":\"c\"}}]}\n".as_ref());
    assert!(out.is_empty());
}

#[test]
fn malformed_frame_is_an_ignorable_gap() {
    let mut dec = FrameDecoder::new();
    let out = dec.push_chunk(
        b"data: {not json}\ndata: {\"choices\":[{\"delta\":{\"content\":\"ok\"}}]}\n".as_ref(),
    );
    assert_eq!(out, vec![b("ok")]);
}

#[test]
fn frame_without_content_yields_no_delta() {
    let mut dec = FrameDecoder::new();
    let out = dec.push_chunk(
        b"data: {\"choices\":[{\"delta\":{},\"finish_reason\":\"stop\"}]}\n".as_ref(),
    );
    assert!(out.is_empty());
    let out = dec.push_chunk(b"data: {\"choices\":[]}\n".as_ref());
    assert!(out.is_empty());
}

#[test]
fn lines_without_the_prefix_are_ignored() {
    let mut dec = FrameDecoder::new();
    let out = dec.push_chunk(b": keepalive\n\n".as_ref());
    assert!(out.is_empty());
}

#[test]
fn text_session_relays_deltas_and_accumulates() {
    let mut s = TurnSession::new(MessageType::Text);
    let out = s.on_chunk(b"data: {\"choices\":[{\"delta\":{\"content\":\"Hello \"}}]}\ndata: {\"choices\":[{\"delta\":{\"content\":\"world\"}}]}\n".as_ref());
    match out {
        RelayBatch::Text(ds) => assert_eq!(ds, vec![b("Hello "), b("world")]),
        RelayBatch::Speech(_) => panic!("text turn produced speech"),
    }
    let out = s.on_chunk(b"data: [DONE]\n".as_ref());
    match out {
        RelayBatch::Text(ds) => assert!(ds.is_empty()),
        RelayBatch::Speech(_) => panic!("text turn produced speech"),
    }
    assert!(s.provider_done());
    let total = s.finish().unwrap();
    assert_eq!(total, b("Hello world"));
}

#[test]
fn voice_session_speaks_sentences_first_call_self_contained() {
    let mut s = TurnSession::new(MessageType::Voice);
    let out = s.on_chunk(
        b"data: {\"choices\":[{\"delta\":{\"content\":\"One. Two. Thr\"}}]}\n".as_ref(),
    );
    match out {
        RelayBatch::Speech(calls) => {
            assert_eq!(calls.len(), 2);
            assert_eq!(calls[0].sentence, b("One. "));
            assert!(calls[0].first);
            assert_eq!(calls[1].sentence, b("Two. "));
            assert!(!calls[1].first);
        },
        RelayBatch::Text(_) => panic!("voice turn produced text"),
    }
    let out = s.on_chunk(b"data: {\"choices\":[{\"delta\":{\"content\":\"ee.\"}}]}\n".as_ref());
    match out {
        RelayBatch::Speech(calls) => assert!(calls.is_empty()),
        RelayBatch::Text(_) => panic!("voice turn produced text"),
    }
    // the accumulated text keeps the unterminated tail, only speech drops it
    let total = s.finish().unwrap();
    assert_eq!(total, b("One. Two. Three."));
}

#[test]
fn prefix_split_across_chunks_reassembles_too() {
    let mut dec = FrameDecoder::new();
    assert!(dec.push_chunk(b"da".as_ref()).is_empty());
    assert!(dec.push_chunk(b"ta: {\"choices\":[{\"delta\":{\"co".as_ref()).is_empty());
    let out = dec.push_chunk(b"ntent\":\"x\"}}]}\n".as_ref());
    assert_eq!(out, vec![b("x")]);
}

#[test]
fn several_frames_in_one_chunk_come_out_in_order() {
    let mut dec = FrameDecoder::new();
    let out = dec.push_chunk(
        b"data: {\"choices\":[{\"delta\":{\"content\":\"a\"}}]}\ndata: {\"choices\":[{\"delta\":{\"content\":\"b\"}}]}\ndata: {\"choices\":[{\"delta\":{\"content\":\"c\"}}]}\n".as_ref(),
    );
    assert_eq!(out, vec![b("a"), b("b"), b("c")]);
}

#[test]
fn stream_with_no_delta_is_a_fatal_upstream_error() {
    let mut s = TurnSession::new(MessageType::Text);
    let _ = s.on_chunk(b": nothing useful\n".as_ref());
    assert!(s.finish().is_err());
}
