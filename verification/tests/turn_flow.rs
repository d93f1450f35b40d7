use chatstream::config::{DeepgramConfig, OpenAIConfig, ServerConfig, ServiceConfig};
use chatstream::context::{build_context, file_ext, image_save_name, keep_present, voice_save_name};
use chatstream::conversation::{Message, MessageType, Model, Role};
use chatstream::credit::default_price_table;
use chatstream::notify::{session_payload, sign_payload};
use chatstream::persist::{PersistAction, PersistEvent, PersistPhase, TurnError};
use chatstream::pipeline::{parse_message_type, start_turn, RelayBatch, TurnPlan};

fn b(s: &str) -> Vec<u8> {
    s.as_bytes().to_vec()
}

fn err_of(r: Result<TurnPlan, TurnError>) -> TurnError {
    match r {
        Err(e) => e,
        Ok(_) => panic!("the turn was approved"),
    }
}

#[test]
fn start_turn_checks_in_order() {
    let t = default_price_table();
    // missing session first
    let e = err_of(start_turn(&t, b"gpt-4o", None, b"text", -1, 0, 7));
    assert_eq!(e, TurnError::MissingSession);
    // then the message type
    let e = err_of(start_turn(&t, b"gpt-4o", Some(100), b"video", -1, 0, 7));
    assert_eq!(e, TurnError::InvalidMessageType);
    // then the model
    let e = err_of(start_turn(&t, b"no-such-model", Some(100), b"text", -1, 0, 7));
    assert_eq!(e, TurnError::InvalidModel);
    // then the balance
    let e = err_of(start_turn(&t, b"gpt-4o", Some(3), b"text", -1, 0, 7));
    assert_eq!(e, TurnError::InsufficientCredit);
    // then the edit target, against the entries last seen
    let e = err_of(start_turn(&t, b"gpt-4o", Some(100), b"text", 1, 2, 7));
    assert_eq!(e, TurnError::InvalidEditTarget);
}

#[test]
fn approved_turn_snapshots_the_balance() {
    let t = default_price_table();
    let plan = start_turn(&t, b"gpt-4o", Some(100), b"voice", -1, 4, 7).unwrap();
    assert!(matches!(plan.mode, MessageType::Voice));
    assert_eq!(plan.approval.cost, 15);
    assert_eq!(plan.approval.remaining, 85);
    assert_eq!(plan.persist.credits_remaining, 85);
    assert_eq!(plan.persist.user_id, 7);
    assert!(matches!(plan.persist.phase, PersistPhase::Idle));
}

#[test]
fn committed_turn_notifies_once_with_the_snapshot() {
    let t = default_price_table();
    let mut plan = start_turn(&t, b"gpt-4o", Some(100), b"text", -1, 0, 7).unwrap();

    // stream one delta and finish
    let out = plan.session.on_chunk(
        b"data: {\"choices\":[{\"delta\":{\"content\":\"hi there\"}}]}\ndata: [DONE]\n".as_ref(),
    );
    let deltas = match out {
        RelayBatch::Text(ds) => ds,
        RelayBatch::Speech(_) => panic!("text turn produced speech"),
    };
    assert_eq!(deltas, vec![b("hi there")]);
    let total = plan.session.finish().unwrap();

    // the post-stream machine, stepped the way a healthy run goes
    assert_eq!(plan.persist.step(PersistEvent::TxBegun), PersistAction::Fetch);
    let mut stored = Model::new_chat(7);
    let action = plan.persist.step(PersistEvent::Fetched(stored.conversation.len()));
    let boundary = match action {
        PersistAction::Write { boundary } => boundary,
        other => panic!("expected a write, got {:?}", other),
    };
    assert_eq!(boundary, 0);
    let user = Message::user_text(0, b("hello there world and more"), Vec::new());
    let assistant = Message::assistant(1, total);
    stored.apply_turn(boundary, user, assistant);

    // what was persisted is exactly what was streamed
    assert_eq!(stored.conversation.len(), 2);
    assert_eq!(stored.conversation[1].content, b("hi there"));
    assert!(matches!(stored.conversation[0].role, Role::User));
    assert!(matches!(stored.conversation[1].role, Role::Assistant));
    assert_eq!(stored.title, b("hello there world"));

    let action = plan.persist.step(PersistEvent::WriteOk);
    assert_eq!(
        action,
        PersistAction::Notify { credits_remaining: 85, user_id: 7 }
    );
    assert_eq!(plan.persist.step(PersistEvent::NotifyOk), PersistAction::Commit);
    assert_eq!(plan.persist.step(PersistEvent::CommitOk), PersistAction::Halt);
    assert!(matches!(plan.persist.phase, PersistPhase::Committed));
}

#[test]
fn notifier_failure_rolls_back_with_a_terminal_error() {
    let t = default_price_table();
    let mut plan = start_turn(&t, b"gpt-4o", Some(50), b"text", -1, 0, 9).unwrap();
    assert_eq!(plan.persist.step(PersistEvent::TxBegun), PersistAction::Fetch);
    assert!(matches!(
        plan.persist.step(PersistEvent::Fetched(0)),
        PersistAction::Write { .. }
    ));
    assert!(matches!(
        plan.persist.step(PersistEvent::WriteOk),
        PersistAction::Notify { .. }
    ));
    // the notifier call fails after a fully successful stream and write
    assert_eq!(plan.persist.step(PersistEvent::NotifyFailed), PersistAction::Rollback);
    assert!(matches!(plan.persist.phase, PersistPhase::RolledBack));
    assert_eq!(plan.persist.failure, Some(TurnError::Persistence));
    // and nothing moves the machine afterwards: no commit can follow
    assert_eq!(plan.persist.step(PersistEvent::CommitOk), PersistAction::Halt);
    assert!(matches!(plan.persist.phase, PersistPhase::RolledBack));
}

#[test]
fn concurrent_edit_is_caught_by_the_binding_fetch() {
    let t = default_price_table();
    // target 1 was valid against the advisory read of 4 entries
    let mut plan = start_turn(&t, b"gpt-4o", Some(50), b"text", 1, 4, 9).unwrap();
    assert_eq!(plan.persist.step(PersistEvent::TxBegun), PersistAction::Fetch);
    // but the conversation shrank to 2 entries before the stream ended
    assert_eq!(plan.persist.step(PersistEvent::Fetched(2)), PersistAction::Rollback);
    assert_eq!(plan.persist.failure, Some(TurnError::InvalidEditTarget));
}

#[test]
fn absent_conversation_is_not_found() {
    let t = default_price_table();
    let mut plan = start_turn(&t, b"gpt-4o", Some(50), b"text", -1, 0, 9).unwrap();
    plan.persist.step(PersistEvent::TxBegun);
    assert_eq!(plan.persist.step(PersistEvent::FetchedAbsent), PersistAction::Rollback);
    assert_eq!(plan.persist.failure, Some(TurnError::NotFound));
}

#[test]
fn http_statuses_follow_the_taxonomy() {
    assert_eq!(TurnError::InvalidModel.http_status(), 400);
    assert_eq!(TurnError::InvalidEditTarget.http_status(), 400);
    assert_eq!(TurnError::MissingSession.http_status(), 401);
    assert_eq!(TurnError::NotFound.http_status(), 404);
    assert_eq!(TurnError::Upstream.http_status(), 500);
    assert_eq!(TurnError::Persistence.http_status(), 500);
}

#[test]
fn session_payload_is_exact_json() {
    assert_eq!(
        session_payload(85, 7),
        b("{\"credits_remaining\":85,\"user_id\":7}")
    );
    assert_eq!(
        session_payload(0, -12),
        b("{\"credits_remaining\":0,\"user_id\":-12}")
    );
    assert_eq!(
        session_payload(i64::MIN, i64::MAX),
        b("{\"credits_remaining\":-9223372036854775808,\"user_id\":9223372036854775807}")
    );
}

#[test]
fn signature_is_base64_of_the_hmac() {
    let body = session_payload(85, 7);
    let sig = sign_payload(b"topsecret", &body);
    assert_eq!(sig, "4itdBwWveOO1rC3UvsvP9KaMxLYPStRUSXq6/5R/oeg=");
    let sig = sign_payload(b"Jefe", b"what do ya want for nothing?");
    assert_eq!(sig, "W9zBRr9gdU5qBCQmCJV1x1oAPwidJzmDnexYuWTsOEM=");
}

#[test]
fn message_types_parse_strictly() {
    assert!(matches!(parse_message_type(b"text"), Some(MessageType::Text)));
    assert!(matches!(parse_message_type(b"voice"), Some(MessageType::Voice)));
    assert!(parse_message_type(b"Text").is_none());
    assert!(parse_message_type(b"").is_none());
}

#[test]
fn context_lists_prior_entries_then_the_new_turn() {
    let mut m = Model::new_chat(1);
    let u = Message::user_voice(0, b("voice/c-0.wav"), b("spoken words"), Vec::new());
    let a = Message::assistant(1, b("typed answer"));
    m.apply_turn(0, u, a);
    let ctx = build_context(&m.conversation, b("new message"), vec![b("images/c-2-0.png")]);
    assert_eq!(ctx.len(), 3);
    // the voice entry contributes its transcription, not the file name
    assert_eq!(ctx[0].text, b("spoken words"));
    assert!(matches!(ctx[0].role, Role::User));
    assert_eq!(ctx[1].text, b("typed answer"));
    assert!(matches!(ctx[1].role, Role::Assistant));
    assert_eq!(ctx[2].text, b("new message"));
    assert!(matches!(ctx[2].role, Role::User));
    assert_eq!(ctx[2].images, vec![b("images/c-2-0.png")]);
}

#[test]
fn broken_images_are_skipped_not_fatal() {
    let kept = keep_present(vec![Some(b("a")), None, Some(b("c")), None]);
    assert_eq!(kept, vec![b("a"), b("c")]);
    assert!(keep_present(vec![None, None]).is_empty());
}

#[test]
fn saved_names_carry_extension_only_when_present() {
    let conv = b("11111111-2222-3333-4444-555555555555");
    let name = image_save_name(&conv, 4, 0, Some(&b("photo.png")));
    assert_eq!(
        name,
        b("images/11111111-2222-3333-4444-555555555555-4-0.png")
    );
    let name = image_save_name(&conv, 4, 1, None);
    assert_eq!(name, b("images/11111111-2222-3333-4444-555555555555-4-1"));
    let name = voice_save_name(&conv, 3, Some(&b("memo.ogg")));
    assert_eq!(name, b("voice/11111111-2222-3333-4444-555555555555-3.ogg"));
}

#[test]
fn extensions_follow_path_semantics() {
    assert_eq!(file_ext(b"a.tar.gz"), Some(b("gz")));
    assert_eq!(file_ext(b"noext"), None);
    assert_eq!(file_ext(b".hidden"), None);
    assert_eq!(file_ext(b"dir.d/plain"), None);
    assert_eq!(file_ext(b"dir/file.txt"), Some(b("txt")));
    assert_eq!(file_ext(b"trailing."), Some(b("")));
}

#[test]
fn server_addresses_are_formatted() {
    let cfg = ServiceConfig {
        server: ServerConfig {
            addr: "127.0.0.1".to_string(),
            port: 8080,
            auth_service: "http://auth.local".to_string(),
            auth_secret_key: "SECRET-REDACTED".to_string(),
        },
        openai: OpenAIConfig { openai_key: "SECRET-REDACTED".to_string() },
        deepgram: DeepgramConfig { deepgram_key: "SECRET-REDACTED".to_string() },
    };
    assert_eq!(cfg.server.get_addr(), "127.0.0.1:8080");
    assert_eq!(cfg.server.get_http_addr(), "http://127.0.0.1:8080");
}
