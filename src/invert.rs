use vstd::prelude::*;

verus! {

/// The content of a file after every bit of every byte is flipped.
pub open spec fn inverted(content: Seq<u8>) -> Seq<u8> {
    Seq::new(content.len(), |i: int| !content[i])
}

/// Flips every bit of every byte of `content`, keeping its length.
pub fn invert_in_place(content: &mut Vec<u8>)
    ensures
        final(content)@ == inverted(old(content)@),
{
    let n = content.len();
    let mut i: usize = 0;
    while i < n
        invariant
            n == old(content)@.len(),
            content@.len() == n,
            i <= n,
            forall|j: int| 0 <= j < i ==> content@[j] == !old(content)@[j],
            forall|j: int| i <= j < n ==> content@[j] == old(content)@[j],
        decreases n - i,
    {
        let b = content[i];
        content.set(i, !b);
        i = i + 1;
    }
    assert(content@ =~= inverted(old(content)@));
}

/// Returns `content` with every bit of every byte flipped.
pub fn invert_bytes(content: Vec<u8>) -> (r: Vec<u8>)
    ensures
        r@ == inverted(content@),
{
    let mut r = content;
    invert_in_place(&mut r);
    r
}

/// Inverting a content twice gives the content back.
pub proof fn lemma_invert_involution(content: Seq<u8>)
    ensures
        inverted(inverted(content)) == content,
{
    assert forall|i: int| 0 <= i < content.len() implies #[trigger] inverted(
        inverted(content),
    )[i] == content[i] by {
        let b = content[i];
        assert(!(!b) == b) by (bit_vector);
    }
    assert(inverted(inverted(content)) =~= content);
}

/// The permission bits that make a file readable and writable by everyone.
pub const READ_WRITE_ALL: u32 = 0o666;

/// The Unix mode of a file after it is made writable: read and write
/// permission is added for owner, group and others, and no bit is removed.
pub fn widened_mode(mode: u32) -> (r: u32)
    ensures
        r == mode | READ_WRITE_ALL,
        r & mode == mode,
        r & READ_WRITE_ALL == READ_WRITE_ALL,
{
    let r = mode | READ_WRITE_ALL;
    assert(r & mode == mode) by (bit_vector)
        requires
            r == mode | 0o666u32,
    ;
    assert(r & 0o666u32 == 0o666u32) by (bit_vector)
        requires
            r == mode | 0o666u32,
    ;
    r
}

} // verus!
