use chatstream::conversation::{
    default_title, derive_title, validate_edit_target, Message, Model, Role, ValidationError,
};

fn b(s: &str) -> Vec<u8> {
    s.as_bytes().to_vec()
}

fn pair(model: &mut Model, user: &str, answer: &str) {
    let id = model.conversation.len();
    let u = Message::user_text(id, b(user), Vec::new());
    let a = Message::assistant(id + 1, b(answer));
    let boundary = model.conversation.len();
    model.apply_turn(boundary, u, a);
}

#[test]
fn new_chat_is_empty_with_default_title() {
    let m = Model::new_chat(7);
    assert_eq!(m.user_id, 7);
    assert!(m.conversation.is_empty());
    assert_eq!(m.title, b("New Chat"));
    assert_eq!(default_title(), b("New Chat"));
}

#[test]
fn edit_truncates_to_exactly_two_n_entries() {
    // a conversation with 2m = 6 entries
    let mut m = Model::new_chat(1);
    pair(&mut m, "one", "a1");
    pair(&mut m, "two", "a2");
    pair(&mut m, "three", "a3");
    assert_eq!(m.conversation.len(), 6);
    // resubmit user turn n = 1: truncate to 2 entries, then append the pair
    let boundary = validate_edit_target(1, m.conversation.len()).unwrap();
    assert_eq!(boundary, 2);
    let u = Message::user_text(2, b("two again"), Vec::new());
    let a = Message::assistant(3, b("a2 again"));
    m.apply_turn(boundary, u, a);
    assert_eq!(m.conversation.len(), 4);
    assert_eq!(m.conversation[0].content, b("one"));
    assert_eq!(m.conversation[1].content, b("a1"));
    assert_eq!(m.conversation[2].content, b("two again"));
    assert_eq!(m.conversation[3].content, b("a2 again"));
}

#[test]
fn edit_of_first_turn_discards_everything() {
    let mut m = Model::new_chat(1);
    pair(&mut m, "one", "a1");
    pair(&mut m, "two", "a2");
    let boundary = validate_edit_target(0, m.conversation.len()).unwrap();
    assert_eq!(boundary, 0);
    let u = Message::user_text(0, b("fresh"), Vec::new());
    let a = Message::assistant(1, b("answer"));
    m.apply_turn(boundary, u, a);
    assert_eq!(m.conversation.len(), 2);
    assert_eq!(m.conversation[0].content, b("fresh"));
}

#[test]
fn out_of_range_edit_target_is_rejected_without_mutation() {
    let mut m = Model::new_chat(1);
    pair(&mut m, "one", "a1");
    pair(&mut m, "two", "a2");
    // 2m = 4 entries, so m = 2: targets 2 and above are rejected
    assert_eq!(
        validate_edit_target(2, m.conversation.len()).unwrap_err(),
        ValidationError::InvalidEditTarget
    );
    assert_eq!(
        validate_edit_target(5, m.conversation.len()).unwrap_err(),
        ValidationError::InvalidEditTarget
    );
    assert_eq!(
        validate_edit_target(-2, m.conversation.len()).unwrap_err(),
        ValidationError::InvalidEditTarget
    );
    // nothing was touched: validation is pure
    assert_eq!(m.conversation.len(), 4);
    assert_eq!(m.title, b("one"));
}

#[test]
fn append_target_lands_after_the_last_entry() {
    let m = Model::new_chat(1);
    assert_eq!(validate_edit_target(-1, 0).unwrap(), 0);
    assert_eq!(validate_edit_target(-1, 6).unwrap(), 6);
    drop(m);
}

#[test]
fn title_is_first_three_words() {
    let t = derive_title(b"hello there world and more".as_ref(), b"New Chat".as_ref());
    assert_eq!(t, b("hello there world"));
}

#[test]
fn title_with_fewer_than_three_words() {
    assert_eq!(derive_title(b"hi".as_ref(), b"New Chat".as_ref()), b("hi"));
    assert_eq!(derive_title(b"  spaced   out  ".as_ref(), b"New Chat".as_ref()), b("spaced out"));
}

#[test]
fn overlong_join_keeps_old_title_prefix() {
    // the first three words join to more than 30 bytes
    let msg = b"supercalifragilistic expialidocious antidisestablishmentarianism".as_ref();
    let old = b"a previous title that is itself rather long".as_ref();
    let t = derive_title(msg, old);
    assert_eq!(t, b("a previous title that is itsel"));
    assert_eq!(t.len(), 30);
}

#[test]
fn overlong_join_counts_characters_not_bytes_of_old_title() {
    let msg = b"supercalifragilistic expialidocious antidisestablishmentarianism".as_ref();
    // 31 two-byte characters: the cap keeps 30 of them, 60 bytes
    let old: String = "é".repeat(31);
    let t = derive_title(msg, old.as_bytes());
    assert_eq!(t, "é".repeat(30).into_bytes());
}

#[test]
fn overlong_join_with_short_old_title_keeps_it_whole() {
    let msg = b"supercalifragilistic expialidocious antidisestablishmentarianism".as_ref();
    let t = derive_title(msg, b"New Chat".as_ref());
    assert_eq!(t, b("New Chat"));
}

#[test]
fn first_turn_sets_title_later_turns_keep_it() {
    let mut m = Model::new_chat(1);
    pair(&mut m, "hello there world and more", "a1");
    assert_eq!(m.title, b("hello there world"));
    pair(&mut m, "completely different words now", "a2");
    assert_eq!(m.title, b("hello there world"));
}

#[test]
fn stored_shape_is_checked_not_assumed() {
    let mut m = Model::new_chat(1);
    assert!(m.check_wf());
    pair(&mut m, "one", "a1");
    assert!(m.check_wf());
    m.conversation.push(Message::user_text(2, b("odd"), Vec::new()));
    assert!(!m.check_wf());
}

#[test]
fn roles_alternate_user_then_assistant() {
    let mut m = Model::new_chat(1);
    pair(&mut m, "one", "a1");
    pair(&mut m, "two", "a2");
    assert!(matches!(m.conversation[0].role, Role::User));
    assert!(matches!(m.conversation[1].role, Role::Assistant));
    assert!(matches!(m.conversation[2].role, Role::User));
    assert!(matches!(m.conversation[3].role, Role::Assistant));
}
