//! Small byte-level helpers shared by the pipeline: equality, ASCII
//! classification, UTF-8 character boundaries and decimal formatting.
//!
//! All text handled by the pipeline travels as UTF-8 bytes, exactly as it
//! arrives on the wire; the helpers here give the spec-level vocabulary
//! the other modules state their contracts with.

use vstd::prelude::*;

verus! {

use vstd::string::StrSliceExecFns;

/// ASCII whitespace, the class the sentence and title logic splits on.
pub open spec fn spec_is_ws(b: u8) -> bool {
    b == 32 || b == 9 || b == 10 || b == 13 || b == 12 || b == 11
}

/// Exec test for [`spec_is_ws`].
pub fn is_ws(b: u8) -> (r: bool)
    ensures
        r == spec_is_ws(b),
{
    b == 32 || b == 9 || b == 10 || b == 13 || b == 12 || b == 11
}

/// A UTF-8 continuation byte (`10xxxxxx`); every other byte starts a
/// character, so counting non-continuation bytes counts characters.
pub open spec fn spec_is_cont(b: u8) -> bool {
    b & 0xC0 == 0x80
}

/// Exec test for [`spec_is_cont`].
pub fn is_cont(b: u8) -> (r: bool)
    ensures
        r == spec_is_cont(b),
{
    b & 0xC0 == 0x80
}

/// The byte sequences a list of byte vectors holds, in order.
pub open spec fn views_of(s: Seq<Vec<u8>>) -> Seq<Seq<u8>> {
    s.map_values(|v: Vec<u8>| v@)
}

/// Concatenation of a list of byte sequences, in order.
pub open spec fn concat_seqs(ss: Seq<Seq<u8>>) -> Seq<u8>
    decreases ss.len(),
{
    if ss.len() == 0 {
        Seq::empty()
    } else {
        ss[0] + concat_seqs(ss.drop_first())
    }
}

/// A single-element list concatenates to its element.
pub proof fn lemma_concat_seqs_one(s: Seq<u8>)
    ensures
        concat_seqs(seq![s]) == s,
{
    assert(seq![s].drop_first() =~= Seq::<Seq<u8>>::empty());
    assert(concat_seqs(Seq::<Seq<u8>>::empty()) =~= Seq::<u8>::empty());
    assert(concat_seqs(seq![s]) =~= s);
}

/// Append the bytes of `src` to `dst`.
pub fn append_bytes(dst: &mut Vec<u8>, src: &[u8])
    ensures
        final(dst)@ == old(dst)@ + src@,
{
    let n = src.len();
    let mut i: usize = 0;
    proof {
        assert(dst@ =~= old(dst)@ + src@.take(0));
    }
    while i < n
        invariant
            0 <= i <= n,
            n == src@.len(),
            dst@ == old(dst)@ + src@.take(i as int),
        decreases n - i,
    {
        dst.push(src[i]);
        proof {
            assert(dst@ =~= old(dst)@ + src@.take(i + 1));
        }
        i = i + 1;
    }
    proof {
        assert(dst@ =~= old(dst)@ + src@);
    }
}

/// Concatenation distributes over appending lists.
pub proof fn lemma_concat_seqs_app(a: Seq<Seq<u8>>, b: Seq<Seq<u8>>)
    ensures
        concat_seqs(a + b) == concat_seqs(a) + concat_seqs(b),
    decreases a.len(),
{
    if a.len() == 0 {
        assert(a + b =~= b);
        assert(concat_seqs(a) + concat_seqs(b) =~= concat_seqs(b));
    } else {
        assert((a + b).drop_first() =~= a.drop_first() + b);
        lemma_concat_seqs_app(a.drop_first(), b);
        assert(concat_seqs(a + b) =~= concat_seqs(a) + concat_seqs(b));
    }
}

/// The bytes of an ASCII string, each byte the character's code.
pub open spec fn lit_bytes(s: &str) -> Seq<u8> {
    Seq::new(s@.len(), |i: int| s@[i] as u8)
}

/// Bytes of an ASCII string slice, each byte the character's code.
pub fn ascii_bytes(s: &str) -> (v: Vec<u8>)
    requires
        vstd::string::is_ascii(s),
    ensures
        v@ == lit_bytes(s),
{
    proof {
        vstd::string::is_ascii_spec_bytes(s);
    }
    s.as_bytes_vec()
}

/// Byte-for-byte equality of two slices.
pub fn bytes_eq(a: &[u8], b: &[u8]) -> (r: bool)
    ensures
        r == (a@ == b@),
{
    if a.len() != b.len() {
        proof {
            assert(a@ != b@) by {
                assert(a@.len() != b@.len());
            }
        }
        return false;
    }
    let n = a.len();
    let mut i: usize = 0;
    while i < n
        invariant
            0 <= i <= n,
            n == a@.len() == b@.len(),
            forall|j: int| 0 <= j < i ==> a@[j] == b@[j],
        decreases n - i,
    {
        if a[i] != b[i] {
            return false;
        }
        i = i + 1;
    }
    proof {
        assert(a@ =~= b@);
    }
    true
}

} // verus!
