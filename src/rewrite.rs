//! The content rewrite: every backslash byte becomes a forward slash.
use vstd::prelude::*;

verus! {

/// The backslash byte, `\`.
pub const BACKSLASH: u8 = 0x5C;

/// The forward slash byte, `/`.
pub const SLASH: u8 = 0x2F;

/// What one byte becomes.
pub open spec fn converted_byte(b: u8) -> u8 {
    if b == BACKSLASH {
        SLASH
    } else {
        b
    }
}

/// What a whole content buffer becomes: the same length, byte for byte.
pub open spec fn converted(s: Seq<u8>) -> Seq<u8> {
    Seq::new(s.len(), |i: int| converted_byte(s[i]))
}

/// Whether a content buffer holds no backslash.
pub open spec fn free_of_backslash(s: Seq<u8>) -> bool {
    forall|i: int| 0 <= i < s.len() ==> s[i] != BACKSLASH
}

/// Produces the rewritten content of a file: every backslash byte is replaced
/// by a forward slash, every other byte is kept, and the length is unchanged.
pub fn transform(buf: &[u8]) -> (r: Vec<u8>)
    ensures
        r@ == converted(buf@),
        r@.len() == buf@.len(),
        forall|i: int|
            0 <= i < buf@.len() ==> (#[trigger] r@[i] == if buf@[i] == BACKSLASH {
                SLASH
            } else {
                buf@[i]
            }),
{
    let mut out: Vec<u8> = Vec::with_capacity(buf.len());
    let mut i: usize = 0;
    while i < buf.len()
        invariant
            i <= buf@.len(),
            out@.len() == i,
            forall|j: int| 0 <= j < i ==> out@[j] == converted_byte(buf@[j]),
        decreases buf@.len() - i,
    {
        let b = buf[i];
        if b == BACKSLASH {
            out.push(SLASH);
        } else {
            out.push(b);
        }
        i += 1;
    }
    assert(out@ =~= converted(buf@));
    out
}

/// Rewriting content that holds no backslash gives the same bytes back.
pub proof fn lemma_no_backslash_unchanged(b: Seq<u8>)
    requires
        free_of_backslash(b),
    ensures
        converted(b) == b,
{
    assert(converted(b) =~= b);
}

/// Rewritten content holds no backslash.
pub proof fn lemma_converted_free_of_backslash(b: Seq<u8>)
    ensures
        free_of_backslash(converted(b)),
{
}

/// Rewriting twice is the same as rewriting once.
pub proof fn lemma_transform_idempotent(b: Seq<u8>)
    ensures
        converted(converted(b)) == converted(b),
{
    lemma_converted_free_of_backslash(b);
    lemma_no_backslash_unchanged(converted(b));
}

} // verus!
