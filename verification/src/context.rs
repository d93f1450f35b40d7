//! The turn context builder: the ordered message list handed to the
//! completion provider, and the names under which a turn's media are
//! saved.
//!
//! Prior entries contribute their text — a voice entry its
//! transcription, never the raw audio — with their role and image
//! references; the new user turn goes last. An uploaded image that
//! could not be opened or decoded is skipped, deliberately, rather than
//! failing the turn. A saved file's name carries the conversation, the
//! entry position and, when the upload had one, the original
//! filename's extension.

use vstd::prelude::*;
use crate::bytes::{ascii_bytes, lit_bytes, views_of, append_bytes};
use crate::conversation::{Message, Role};
use crate::notify::{spec_u64_dec, u64_dec};
use vstd::slice::slice_to_vec;

verus! {

/// One provider-bound message: text, speaker, attached image references.
pub struct ContextMessage {
    pub text: Vec<u8>,
    pub role: Role,
    pub images: Vec<Vec<u8>>,
}

/// What a context message list says: for each message its text, role
/// and image references.
pub open spec fn context_views(s: Seq<ContextMessage>) -> Seq<(Seq<u8>, Role, Seq<Seq<u8>>)> {
    s.map_values(|m: ContextMessage| (m.text@, m.role, views_of(m.images@)))
}

/// What one stored entry contributes to the context.
pub open spec fn entry_view(m: Message) -> (Seq<u8>, Role, Seq<Seq<u8>>) {
    (m.spec_text(), m.role, views_of(m.images@))
}

/// The full context of a turn: every prior entry in order, then the new
/// user content with its images.
pub open spec fn spec_context(
    entries: Seq<Message>,
    user_text: Seq<u8>,
    images: Seq<Seq<u8>>,
) -> Seq<(Seq<u8>, Role, Seq<Seq<u8>>)> {
    entries.map_values(|m: Message| entry_view(m)).push((user_text, Role::User, images))
}

/// A copy of a list of byte vectors.
fn copy_byte_list(v: &Vec<Vec<u8>>) -> (r: Vec<Vec<u8>>)
    ensures
        views_of(r@) == views_of(v@),
{
    let mut r: Vec<Vec<u8>> = Vec::new();
    let n = v.len();
    let mut i: usize = 0;
    proof {
        assert(views_of(r@) =~= views_of(v@).take(0));
    }
    while i < n
        invariant
            0 <= i <= n,
            n == v@.len(),
            views_of(r@) == views_of(v@).take(i as int),
        decreases n - i,
    {
        let ghost before = r@;
        r.push(slice_to_vec(v[i].as_slice()));
        proof {
            assert(views_of(r@) =~= views_of(before).push(v@[i as int]@));
            assert(views_of(v@).take(i + 1) =~= views_of(v@).take(i as int).push(v@[i as int]@));
        }
        i = i + 1;
    }
    proof {
        assert(views_of(v@).take(n as int) =~= views_of(v@));
    }
    r
}

/// Build the provider context: the decoded prior entries, then the new
/// user turn with its saved image names, appended last.
pub fn build_context(entries: &Vec<Message>, user_text: Vec<u8>, images: Vec<Vec<u8>>) -> (r: Vec<
    ContextMessage,
>)
    ensures
        context_views(r@) == spec_context(entries@, user_text@, views_of(images@)),
{
    let mut r: Vec<ContextMessage> = Vec::new();
    let n = entries.len();
    let mut i: usize = 0;
    proof {
        assert(context_views(r@) =~= entries@.map_values(|m: Message| entry_view(m)).take(0));
    }
    while i < n
        invariant
            0 <= i <= n,
            n == entries@.len(),
            context_views(r@) == entries@.map_values(|m: Message| entry_view(m)).take(i as int),
        decreases n - i,
    {
        let ghost before = r@;
        let m = &entries[i];
        let text = slice_to_vec(m.text());
        let images_copy = copy_byte_list(&m.images);
        r.push(ContextMessage { text, role: m.role, images: images_copy });
        proof {
            assert(context_views(r@) =~= context_views(before).push(entry_view(entries@[
                i as int
            ])));
            assert(entries@.map_values(|m: Message| entry_view(m)).take(i + 1)
                =~= entries@.map_values(|m: Message| entry_view(m)).take(i as int).push(
                entry_view(entries@[i as int]),
            ));
        }
        i = i + 1;
    }
    let ghost before_last = r@;
    r.push(ContextMessage { text: user_text, role: Role::User, images });
    proof {
        assert(entries@.map_values(|m: Message| entry_view(m)).take(n as int) =~= entries@
            .map_values(|m: Message| entry_view(m)));
        assert(context_views(r@) =~= context_views(before_last).push(
            (user_text@, Role::User, views_of(images@)),
        ));
        assert(context_views(r@) =~= spec_context(entries@, user_text@, views_of(images@)));
    }
    r
}

/// The image payloads that survive decoding, in order: a broken image
/// is skipped, never an error.
pub open spec fn spec_keep_present(s: Seq<Option<Seq<u8>>>) -> Seq<Seq<u8>>
    decreases s.len(),
{
    if s.len() == 0 {
        Seq::empty()
    } else {
        (match s[0] {
            Some(v) => seq![v],
            None => Seq::empty(),
        }) + spec_keep_present(s.drop_first())
    }
}

/// What a list of optional byte vectors holds.
pub open spec fn opt_views(s: Seq<Option<Vec<u8>>>) -> Seq<Option<Seq<u8>>> {
    s.map_values(
        |o: Option<Vec<u8>>|
            match o {
                Some(v) => Some(v@),
                None => None::<Seq<u8>>,
            },
    )
}

/// Keep the images that opened and decoded; drop the rest silently.
pub fn keep_present(items: Vec<Option<Vec<u8>>>) -> (r: Vec<Vec<u8>>)
    ensures
        views_of(r@) == spec_keep_present(opt_views(items@)),
{
    let mut r: Vec<Vec<u8>> = Vec::new();
    let n = items.len();
    let mut i: usize = 0;
    proof {
        assert(opt_views(items@).skip(0) =~= opt_views(items@));
        assert(views_of(r@) + spec_keep_present(opt_views(items@).skip(0)) =~= spec_keep_present(
            opt_views(items@),
        ));
    }
    while i < n
        invariant
            0 <= i <= n,
            n == items@.len(),
            views_of(r@) + spec_keep_present(opt_views(items@).skip(i as int))
                == spec_keep_present(opt_views(items@)),
        decreases n - i,
    {
        proof {
            assert(opt_views(items@).skip(i as int)[0] == opt_views(items@)[i as int]);
            assert(opt_views(items@).skip(i as int).drop_first() =~= opt_views(items@).skip(
                i + 1,
            ));
        }
        let ghost before = r@;
        match &items[i] {
            Some(v) => {
                r.push(slice_to_vec(v.as_slice()));
                proof {
                    assert(views_of(r@) =~= views_of(before).push(items@[i as int]->Some_0@));
                    assert(views_of(r@) + spec_keep_present(opt_views(items@).skip(i + 1))
                        =~= spec_keep_present(opt_views(items@)));
                }
            },
            None => {
                proof {
                    assert(views_of(r@) + spec_keep_present(opt_views(items@).skip(i + 1))
                        =~= spec_keep_present(opt_views(items@)));
                }
            },
        }
        i = i + 1;
    }
    proof {
        assert(opt_views(items@).skip(n as int) =~= Seq::<Option<Seq<u8>>>::empty());
        assert(views_of(r@) =~= spec_keep_present(opt_views(items@)));
    }
    r
}

/// Index of the last occurrence of `b` in `s`.
pub open spec fn last_index_of(s: Seq<u8>, b: u8) -> Option<int>
    decreases s.len(),
{
    if s.len() == 0 {
        None
    } else if s.last() == b {
        Some(s.len() - 1)
    } else {
        last_index_of(s.drop_last(), b)
    }
}

/// Exec mirror of [`last_index_of`].
pub fn find_last(s: &[u8], b: u8) -> (r: Option<usize>)
    ensures
        match r {
            Some(i) => last_index_of(s@, b) == Some(i as int),
            None => last_index_of(s@, b) is None,
        },
{
    let mut i = s.len();
    proof {
        assert(s@.take(s@.len() as int) =~= s@);
    }
    while i > 0
        invariant
            0 <= i <= s@.len(),
            last_index_of(s@, b) == last_index_of(s@.take(i as int), b),
        decreases i,
    {
        proof {
            assert(s@.take(i as int).last() == s@[i - 1]);
            assert(s@.take(i as int).drop_last() =~= s@.take(i - 1));
        }
        if s[i - 1] == b {
            return Some(i - 1);
        }
        i = i - 1;
    }
    proof {
        assert(s@.take(0).len() == 0);
    }
    None
}

/// The extension of an uploaded filename, as `Path::extension` reads
/// it: the part of the final path component after its last `.`, absent
/// when there is no `.` or the component starts with its only one.
pub open spec fn spec_file_ext(name: Seq<u8>) -> Option<Seq<u8>> {
    let base = match last_index_of(name, 47) {
        Some(i) => name.skip(i + 1),
        None => name,
    };
    match last_index_of(base, 46) {
        None => None,
        Some(i) => if i == 0 {
            None
        } else {
            Some(base.skip(i + 1))
        },
    }
}

/// Exec mirror of [`spec_file_ext`].
pub fn file_ext(name: &[u8]) -> (r: Option<Vec<u8>>)
    ensures
        match r {
            Some(e) => spec_file_ext(name@) == Some(e@),
            None => spec_file_ext(name@) is None,
        },
{
    let n = name.len();
    let base: &[u8] = match find_last(name, 47) {
        Some(i) => {
            proof {
                lemma_last_index_bounds(name@, 47);
            }
            let b = vstd::slice::slice_subrange(name, i + 1, n);
            proof {
                assert(b@ =~= name@.skip(i + 1));
            }
            b
        },
        None => name,
    };
    let bn = base.len();
    match find_last(base, 46) {
        None => None,
        Some(0) => None,
        Some(i) => {
            proof {
                lemma_last_index_bounds(base@, 46);
            }
            let e = slice_to_vec(vstd::slice::slice_subrange(base, i + 1, bn));
            proof {
                assert(e@ =~= base@.skip(i + 1));
            }
            Some(e)
        },
    }
}

/// A found occurrence lies inside the sequence.
pub proof fn lemma_last_index_bounds(s: Seq<u8>, b: u8)
    ensures
        last_index_of(s, b) matches Some(i) ==> 0 <= i < s.len(),
    decreases s.len(),
{
    if s.len() > 0 && s.last() != b {
        lemma_last_index_bounds(s.drop_last(), b);
    }
}

/// The name an uploaded image is saved under: the conversation, the
/// entry count at upload, the image's index, and the upload's
/// extension when it had one.
pub open spec fn spec_image_name(
    conv: Seq<u8>,
    entry_count: int,
    index: int,
    filename: Option<Seq<u8>>,
) -> Seq<u8> {
    let stem = lit_bytes("images/") + conv + seq![45u8]
        + spec_u64_dec(entry_count as nat) + seq![45u8] + spec_u64_dec(index as nat);
    match filename {
        Some(f) => match spec_file_ext(f) {
            Some(e) => stem + seq![46u8] + e,
            None => stem,
        },
        None => stem,
    }
}

/// Exec mirror of [`spec_image_name`].
pub fn image_save_name(
    conv: &[u8],
    entry_count: u64,
    index: u64,
    filename: Option<&Vec<u8>>,
) -> (r: Vec<u8>)
    ensures
        r@ == spec_image_name(
            conv@,
            entry_count as int,
            index as int,
            match filename {
                Some(f) => Some(f@),
                None => None,
            },
        ),
{
    proof {
        reveal_strlit("images/");
    }
    let mut r = ascii_bytes("images/");
    append_bytes(&mut r, conv);
    r.push(45);
    let count_digits = u64_dec(entry_count);
    append_bytes(&mut r, count_digits.as_slice());
    r.push(45);
    let index_digits = u64_dec(index);
    append_bytes(&mut r, index_digits.as_slice());
    if let Some(f) = filename {
        if let Some(e) = file_ext(f.as_slice()) {
            r.push(46);
            append_bytes(&mut r, e.as_slice());
        }
    }
    proof {
        assert(r@ =~= spec_image_name(
            conv@,
            entry_count as int,
            index as int,
            match filename {
                Some(f) => Some(f@),
                None => None::<Seq<u8>>,
            },
        ));
    }
    r
}

/// The name a turn's uploaded audio is saved under.
pub open spec fn spec_voice_name(conv: Seq<u8>, position: int, filename: Option<Seq<u8>>) -> Seq<
    u8,
> {
    let stem = lit_bytes("voice/") + conv + seq![45u8]
        + spec_u64_dec(position as nat);
    match filename {
        Some(f) => match spec_file_ext(f) {
            Some(e) => stem + seq![46u8] + e,
            None => stem,
        },
        None => stem,
    }
}

/// Exec mirror of [`spec_voice_name`].
pub fn voice_save_name(conv: &[u8], position: u64, filename: Option<&Vec<u8>>) -> (r: Vec<u8>)
    ensures
        r@ == spec_voice_name(
            conv@,
            position as int,
            match filename {
                Some(f) => Some(f@),
                None => None,
            },
        ),
{
    proof {
        reveal_strlit("voice/");
    }
    let mut r = ascii_bytes("voice/");
    append_bytes(&mut r, conv);
    r.push(45);
    let pos_digits = u64_dec(position);
    append_bytes(&mut r, pos_digits.as_slice());
    if let Some(f) = filename {
        if let Some(e) = file_ext(f.as_slice()) {
            r.push(46);
            append_bytes(&mut r, e.as_slice());
        }
    }
    proof {
        assert(r@ =~= spec_voice_name(
            conv@,
            position as int,
            match filename {
                Some(f) => Some(f@),
                None => None::<Seq<u8>>,
            },
        ));
    }
    r
}

} // verus!
