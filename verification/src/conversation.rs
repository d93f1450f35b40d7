//! The stored conversation: alternating user/assistant entries, the title
//! rule, and the edit-target arithmetic.
//!
//! A conversation always holds an even number of entries; index `2k` is a
//! user turn and `2k + 1` its paired assistant turn. An edit target `n`
//! resubmits the `n`-th user turn: everything at or after entry `2n` is
//! discarded before the new pair is appended. On a first turn the title
//! becomes the first three whitespace-delimited words of the user
//! message — unless that join runs over 30 characters, in which case the
//! first 30 characters of the *existing* title are kept instead.

use vstd::prelude::*;
use crate::bytes::{ascii_bytes, lit_bytes, spec_is_ws, is_ws, spec_is_cont, is_cont};

verus! {

/// Who produced an entry.
#[derive(Debug, Clone, Copy, PartialEq, Eq, Structural)]
pub enum Role {
    System,
    User,
    Assistant,
}

/// The two kinds of turn the pipeline handles.
#[derive(Debug, Clone, Copy, PartialEq, Eq, Structural)]
pub enum MessageType {
    Text,
    Voice,
}

/// One stored entry. For a text entry `content` is the message itself;
/// for a voice entry it is the saved audio file's name and
/// `transcription` carries the recognised text.
#[derive(Debug, Clone)]
pub struct Message {
    pub msgtype: MessageType,
    pub id: usize,
    pub role: Role,
    pub content: Vec<u8>,
    pub transcription: Option<Vec<u8>>,
    pub images: Vec<Vec<u8>>,
}

impl Message {
    /// The text a message contributes to provider context and titles:
    /// its content for text, its transcription (or nothing) for voice.
    pub open spec fn spec_text(&self) -> Seq<u8> {
        match self.msgtype {
            MessageType::Text => self.content@,
            MessageType::Voice => match self.transcription {
                Some(t) => t@,
                None => Seq::empty(),
            },
        }
    }

    /// Exec mirror of [`Message::spec_text`].
    pub fn text(&self) -> (r: &[u8])
        ensures
            r@ == self.spec_text(),
    {
        match self.msgtype {
            MessageType::Text => self.content.as_slice(),
            MessageType::Voice => match &self.transcription {
                Some(t) => t.as_slice(),
                None => {
                    let e: &[u8] = &[];
                    e
                },
            },
        }
    }
}

impl Message {
    /// The user side of a text turn.
    pub fn user_text(id: usize, content: Vec<u8>, images: Vec<Vec<u8>>) -> (m: Message)
        ensures
            m.msgtype == MessageType::Text,
            m.id == id,
            m.role == Role::User,
            m.content == content,
            m.transcription is None,
            m.images == images,
            m.spec_text() == content@,
    {
        Message {
            msgtype: MessageType::Text,
            id,
            role: Role::User,
            content,
            transcription: None,
            images,
        }
    }

    /// The user side of a voice turn: the saved audio file's name and
    /// the transcription the provider context will use.
    pub fn user_voice(
        id: usize,
        file: Vec<u8>,
        transcription: Vec<u8>,
        images: Vec<Vec<u8>>,
    ) -> (m: Message)
        ensures
            m.msgtype == MessageType::Voice,
            m.id == id,
            m.role == Role::User,
            m.content == file,
            m.transcription == Some(transcription),
            m.images == images,
            m.spec_text() == transcription@,
    {
        Message {
            msgtype: MessageType::Voice,
            id,
            role: Role::User,
            content: file,
            transcription: Some(transcription),
            images,
        }
    }

    /// The assistant side of a turn: the accumulated stream text.
    pub fn assistant(id: usize, content: Vec<u8>) -> (m: Message)
        ensures
            m.msgtype == MessageType::Text,
            m.id == id,
            m.role == Role::Assistant,
            m.content == content,
            m.transcription is None,
            m.images@.len() == 0,
            m.spec_text() == content@,
    {
        Message {
            msgtype: MessageType::Text,
            id,
            role: Role::Assistant,
            content,
            transcription: None,
            images: Vec::new(),
        }
    }
}

/// Entries alternate user then assistant, so the count is even.
pub open spec fn entries_wf(s: Seq<Message>) -> bool {
    &&& s.len() % 2 == 0
    &&& forall|i: int|
        0 <= i < s.len() ==> (#[trigger] s[i]).role == (if i % 2 == 0 {
            Role::User
        } else {
            Role::Assistant
        })
}

/// One stored conversation record.
#[derive(Debug, Clone)]
pub struct Model {
    pub user_id: i64,
    pub conversation: Vec<Message>,
    pub title: Vec<u8>,
}

/// The title a conversation is created with.
pub open spec fn spec_default_title() -> Seq<u8> {
    lit_bytes("New Chat")
}

/// Exec mirror of [`spec_default_title`]; the bytes of `"New Chat"`.
pub fn default_title() -> (v: Vec<u8>)
    ensures
        v@ == spec_default_title(),
{
    proof {
        reveal_strlit("New Chat");
    }
    ascii_bytes("New Chat")
}

impl Model {
    pub open spec fn wf(&self) -> bool {
        entries_wf(self.conversation@)
    }

    /// A fresh, empty conversation with the default title.
    pub fn new_chat(user_id: i64) -> (m: Model)
        ensures
            m.wf(),
            m.user_id == user_id,
            m.conversation@.len() == 0,
            m.title@ == spec_default_title(),
    {
        Model { user_id, conversation: Vec::new(), title: default_title() }
    }
}

impl Model {
    /// Exec test of [`Model::wf`], for callers that load records from
    /// storage and must not assume their shape.
    pub fn check_wf(&self) -> (r: bool)
        ensures
            r == self.wf(),
    {
        let n = self.conversation.len();
        if n % 2 != 0 {
            return false;
        }
        let mut i: usize = 0;
        while i < n
            invariant
                0 <= i <= n,
                n == self.conversation@.len(),
                n % 2 == 0,
                forall|j: int|
                    0 <= j < i ==> (#[trigger] self.conversation@[j]).role == (if j % 2 == 0 {
                        Role::User
                    } else {
                        Role::Assistant
                    }),
            decreases n - i,
        {
            let want_user = i % 2 == 0;
            let is_user = match self.conversation[i].role {
                Role::User => true,
                _ => false,
            };
            if want_user != is_user {
                return false;
            }
            if !want_user {
                match self.conversation[i].role {
                    Role::Assistant => {},
                    _ => {
                        return false;
                    },
                }
            }
            i = i + 1;
        }
        true
    }
}

/// The one rejection this module detects before any provider work.
#[derive(Debug, Clone, Copy, PartialEq, Eq, Structural)]
pub enum ValidationError {
    /// The edit target does not name an existing user turn.
    InvalidEditTarget,
}

/// Where a turn's pair lands: `-1` appends after the last entry, `n`
/// resubmits user turn `n`, valid exactly when `0 <= n` and
/// `2n < entry_count`. The result is the entry index the conversation is
/// truncated to before the pair is appended.
pub fn validate_edit_target(message_id: i64, entry_count: usize) -> (r: Result<
    usize,
    ValidationError,
>)
    ensures
        message_id == -1 ==> r == Ok::<usize, ValidationError>(entry_count),
        0 <= message_id && 2 * message_id < entry_count ==> r == Ok::<usize, ValidationError>(
            (2 * message_id) as usize,
        ),
        r is Err <==> (message_id < -1 || (message_id >= 0 && 2 * message_id >= entry_count)),
        r == Err::<usize, ValidationError>(ValidationError::InvalidEditTarget) || r is Ok,
{
    if message_id == -1 {
        Ok(entry_count)
    } else if message_id >= 0 && message_id <= (usize::MAX / 2) as i64 && 2 * (message_id as usize)
        < entry_count {
        Ok(2 * (message_id as usize))
    } else {
        Err(ValidationError::InvalidEditTarget)
    }
}

/// Join of the first words of `s`, single spaces between them. `k` words
/// may still be started, `in_word` says the previous byte belongs to a
/// word that is still open, `started` says some word was already
/// written (so the next word is preceded by a space).
pub open spec fn join_words(s: Seq<u8>, k: int, in_word: bool, started: bool) -> Seq<u8>
    decreases s.len(),
{
    if s.len() == 0 {
        Seq::empty()
    } else if spec_is_ws(s[0]) {
        join_words(s.drop_first(), k, false, started)
    } else if in_word {
        seq![s[0]] + join_words(s.drop_first(), k, true, started)
    } else if k <= 0 {
        Seq::empty()
    } else if started {
        seq![32u8, s[0]] + join_words(s.drop_first(), k - 1, true, true)
    } else {
        seq![s[0]] + join_words(s.drop_first(), k - 1, true, true)
    }
}

/// The first three whitespace-delimited words of a message, joined by
/// single spaces.
pub open spec fn spec_first_three_words(s: Seq<u8>) -> Seq<u8> {
    join_words(s, 3, false, false)
}

/// Once no word may start and none is open, nothing more is written.
proof fn lemma_join_words_spent(s: Seq<u8>, started: bool)
    ensures
        join_words(s, 0, false, started) == Seq::<u8>::empty(),
    decreases s.len(),
{
    if s.len() > 0 {
        lemma_join_words_spent(s.drop_first(), started);
    }
}

/// Exec mirror of [`spec_first_three_words`].
pub fn first_three_words(s: &[u8]) -> (r: Vec<u8>)
    ensures
        r@ == spec_first_three_words(s@),
{
    let mut out: Vec<u8> = Vec::new();
    let mut k: usize = 3;
    let mut in_word = false;
    let mut started = false;
    let n = s.len();
    let mut i: usize = 0;
    proof {
        assert(s@.skip(0) =~= s@);
    }
    while i < n
        invariant
            0 <= i <= n,
            n == s@.len(),
            k <= 3,
            out@ + join_words(s@.skip(i as int), k as int, in_word, started)
                == spec_first_three_words(s@),
        decreases n - i,
    {
        proof {
            assert(s@.skip(i as int).len() > 0);
            assert(s@.skip(i as int)[0] == s@[i as int]);
            assert(s@.skip(i as int).drop_first() =~= s@.skip(i + 1));
        }
        let b = s[i];
        if is_ws(b) {
            in_word = false;
        } else if in_word {
            out.push(b);
        } else if k == 0 {
            proof {
                lemma_join_words_spent(s@.skip(i as int), started);
            }
            return out;
        } else {
            if started {
                out.push(32);
            }
            out.push(b);
            k = k - 1;
            in_word = true;
            started = true;
        }
        i = i + 1;
    }
    proof {
        assert(s@.skip(n as int) =~= Seq::<u8>::empty());
    }
    out
}

/// The longest prefix of `s` holding at most `n` characters: every byte
/// up to where the `n + 1`-th character would start. Continuation bytes
/// ride with the character they extend.
pub open spec fn take_chars(s: Seq<u8>, n: int) -> Seq<u8>
    decreases s.len(),
{
    if s.len() == 0 {
        Seq::empty()
    } else if spec_is_cont(s[0]) {
        seq![s[0]] + take_chars(s.drop_first(), n)
    } else if n <= 0 {
        Seq::empty()
    } else {
        seq![s[0]] + take_chars(s.drop_first(), n - 1)
    }
}

/// Exec mirror of [`take_chars`].
pub fn take_chars_exec(s: &[u8], n: usize) -> (r: Vec<u8>)
    ensures
        r@ == take_chars(s@, n as int),
{
    let mut out: Vec<u8> = Vec::new();
    let mut left = n;
    let len = s.len();
    let mut i: usize = 0;
    proof {
        assert(s@.skip(0) =~= s@);
    }
    while i < len
        invariant
            0 <= i <= len,
            len == s@.len(),
            left <= n,
            out@ + take_chars(s@.skip(i as int), left as int) == take_chars(s@, n as int),
        decreases len - i,
    {
        proof {
            assert(s@.skip(i as int).len() > 0);
            assert(s@.skip(i as int)[0] == s@[i as int]);
            assert(s@.skip(i as int).drop_first() =~= s@.skip(i + 1));
        }
        let b = s[i];
        if is_cont(b) {
            out.push(b);
        } else if left == 0 {
            proof {
                lemma_take_chars_spent(s@.skip(i as int));
            }
            return out;
        } else {
            out.push(b);
            left = left - 1;
        }
        i = i + 1;
    }
    proof {
        assert(s@.skip(len as int) =~= Seq::<u8>::empty());
    }
    out
}

/// With no characters left, a prefix stops at the next character start.
proof fn lemma_take_chars_spent(s: Seq<u8>)
    requires
        s.len() > 0,
        !spec_is_cont(s[0]),
    ensures
        take_chars(s, 0) == Seq::<u8>::empty(),
{
}

/// The title a conversation carries after a first turn with message
/// `msg`, when its title was `cur` before: the first three words of the
/// message, except that a join longer than 30 bytes keeps the first 30
/// characters of the old title instead.
pub open spec fn spec_derive_title(msg: Seq<u8>, cur: Seq<u8>) -> Seq<u8> {
    let joined = spec_first_three_words(msg);
    if joined.len() > 30 {
        take_chars(cur, 30)
    } else {
        joined
    }
}

/// Exec mirror of [`spec_derive_title`].
pub fn derive_title(msg: &[u8], cur: &[u8]) -> (r: Vec<u8>)
    ensures
        r@ == spec_derive_title(msg@, cur@),
{
    let joined = first_three_words(msg);
    if joined.len() > 30 {
        take_chars_exec(cur, 30)
    } else {
        joined
    }
}

/// The entries after a turn lands: everything from the boundary on is
/// discarded and the new user/assistant pair appended.
pub open spec fn spec_apply_turn(entries: Seq<Message>, boundary: int, u: Message, a: Message) -> Seq<
    Message,
> {
    entries.take(boundary) + seq![u, a]
}

impl Model {
    /// Land a finished turn: truncate at the boundary, then append the
    /// pair; a turn landing at the very start also rewrites the title
    /// from the user message.
    pub fn apply_turn(&mut self, boundary: usize, user_entry: Message, assistant_entry: Message)
        requires
            old(self).wf(),
            boundary <= old(self).conversation@.len(),
            boundary % 2 == 0,
            user_entry.role == Role::User,
            assistant_entry.role == Role::Assistant,
        ensures
            final(self).wf(),
            final(self).conversation@ == spec_apply_turn(
                old(self).conversation@,
                boundary as int,
                user_entry,
                assistant_entry,
            ),
            final(self).title@ == if boundary == 0 {
                spec_derive_title(user_entry.spec_text(), old(self).title@)
            } else {
                old(self).title@
            },
            final(self).user_id == old(self).user_id,
    {
        let ghost old_entries = self.conversation@;
        if boundary == 0 {
            let new_title = derive_title(user_entry.text(), self.title.as_slice());
            self.title = new_title;
        }
        self.conversation.truncate(boundary);
        proof {
            assert(self.conversation@ =~= old_entries.take(boundary as int));
        }
        self.conversation.push(user_entry);
        self.conversation.push(assistant_entry);
        proof {
            let e = self.conversation@;
            assert(e =~= spec_apply_turn(
                old_entries,
                boundary as int,
                user_entry,
                assistant_entry,
            ));
            assert(e.len() % 2 == 0);
            assert forall|i: int|
                0 <= i < e.len() implies (#[trigger] e[i]).role == (if i % 2 == 0 {
                    Role::User
                } else {
                    Role::Assistant
                }) by {
                if 0 <= i < boundary {
                    assert(e[i] == old_entries[i]);
                }
            }
        }
    }
}

/// Editing turn `n` of a conversation holding `2m` entries truncates to
/// exactly `2n` entries, keeping them unchanged, before the pair is
/// appended — for every `0 <= n < m`; and the boundary a valid target
/// maps to is always even and within the stored entries.
pub proof fn lemma_edit_truncates(entries: Seq<Message>, n: int, u: Message, a: Message)
    requires
        entries.len() % 2 == 0,
        0 <= n,
        2 * n < entries.len(),
    ensures
        spec_apply_turn(entries, 2 * n, u, a).len() == 2 * n + 2,
        spec_apply_turn(entries, 2 * n, u, a).take(2 * n) == entries.take(2 * n),
        forall|i: int| 0 <= i < 2 * n ==> spec_apply_turn(entries, 2 * n, u, a)[i] == entries[i],
        spec_apply_turn(entries, 2 * n, u, a)[2 * n] == u,
        spec_apply_turn(entries, 2 * n, u, a)[2 * n + 1] == a,
{
    assert(spec_apply_turn(entries, 2 * n, u, a).take(2 * n) =~= entries.take(2 * n));
}

} // verus!
