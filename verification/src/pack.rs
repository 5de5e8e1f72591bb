//! Packing untrusted variable-length text into fixed-width, zero-padded
//! buffers, and trimming it back out. The stored format keeps no separate
//! length: reading trims trailing zero bytes, so text that itself ends in a
//! zero byte cannot be told apart from padding.

use vstd::prelude::*;

verus! {

/// `s` left-aligned in a buffer of `width` bytes, the tail filled with
/// zeros. The library only calls it with `s.len() <= width`.
pub open spec fn pad_zeros(s: Seq<u8>, width: int) -> Seq<u8> {
    Seq::new(width as nat, |i: int| if 0 <= i < s.len() { s[i] } else { 0u8 })
}

/// `s` with every trailing zero byte removed.
pub open spec fn trim_zeros(s: Seq<u8>) -> Seq<u8>
    decreases s.len(),
{
    if s.len() > 0 && s[s.len() - 1] == 0u8 {
        trim_zeros(s.drop_last())
    } else {
        s
    }
}

/// Copy `src` into a fresh buffer of exactly `width` bytes, zero-padded on
/// the right.
pub fn pack_bytes(src: &Vec<u8>, width: usize) -> (r: Vec<u8>)
    requires
        src@.len() <= width,
    ensures
        r@ == pad_zeros(src@, width as int),
{
    let mut r: Vec<u8> = Vec::new();
    let mut i: usize = 0;
    while i < width
        invariant
            i <= width,
            src@.len() <= width,
            r@.len() == i,
            forall|j: int| 0 <= j < i ==> #[trigger] r@[j] == pad_zeros(src@, width as int)[j],
        decreases width - i,
    {
        if i < src.len() {
            r.push(src[i]);
        } else {
            r.push(0u8);
        }
        i = i + 1;
    }
    proof {
        assert(r@ =~= pad_zeros(src@, width as int));
    }
    r
}

/// A fresh copy of a byte buffer: packing at its own width adds nothing.
pub fn copy_bytes(src: &Vec<u8>) -> (r: Vec<u8>)
    ensures
        r@ == src@,
{
    let r = pack_bytes(src, src.len());
    proof {
        assert(pad_zeros(src@, src@.len() as int) =~= src@);
    }
    r
}

/// `base` with every byte of `src` appended.
pub fn concat_bytes(base: Vec<u8>, src: &Vec<u8>) -> (r: Vec<u8>)
    ensures
        r@ == base@ + src@,
{
    let ghost b0 = base@;
    let mut r = base;
    let mut i: usize = 0;
    while i < src.len()
        invariant
            i <= src@.len(),
            r@ == b0 + src@.subrange(0, i as int),
        decreases src@.len() - i,
    {
        r.push(src[i]);
        proof {
            assert(r@ =~= b0 + src@.subrange(0, i + 1));
        }
        i = i + 1;
    }
    proof {
        assert(b0 + src@.subrange(0, src@.len() as int) =~= b0 + src@);
    }
    r
}

/// The logical text inside a fixed-width buffer: the buffer with its
/// trailing zero bytes removed.
pub fn unpack_bytes(buf: &Vec<u8>) -> (r: Vec<u8>)
    ensures
        r@ == trim_zeros(buf@),
{
    let mut end: usize = buf.len();
    proof {
        assert(buf@.subrange(0, buf@.len() as int) =~= buf@);
    }
    while end > 0 && buf[end - 1] == 0u8
        invariant
            end <= buf@.len(),
            trim_zeros(buf@) == trim_zeros(buf@.subrange(0, end as int)),
        decreases end,
    {
        proof {
            assert(buf@.subrange(0, end as int).drop_last() =~= buf@.subrange(0, end - 1));
        }
        end = end - 1;
    }
    proof {
        if end > 0 {
            assert(buf@.subrange(0, end as int)[end - 1] != 0u8);
        }
        assert(trim_zeros(buf@) == buf@.subrange(0, end as int));
    }
    let mut r: Vec<u8> = Vec::new();
    let mut i: usize = 0;
    while i < end
        invariant
            i <= end,
            end <= buf@.len(),
            r@ == buf@.subrange(0, i as int),
        decreases end - i,
    {
        r.push(buf[i]);
        proof {
            assert(r@ =~= buf@.subrange(0, i + 1));
        }
        i = i + 1;
    }
    proof {
        assert(r@ == buf@.subrange(0, end as int));
    }
    r
}

/// Padding then trimming gives the text back, provided the text does not
/// itself end in a zero byte; such text is indistinguishable from padding,
/// and is the one input this round trip cannot serve.
pub proof fn lemma_trim_pad_round_trip(s: Seq<u8>, width: int)
    requires
        s.len() <= width,
        s.len() > 0 ==> s[s.len() - 1] != 0u8,
    ensures
        trim_zeros(pad_zeros(s, width)) == s,
    decreases width,
{
    if s.len() == width {
        assert(pad_zeros(s, width) =~= s);
    } else {
        assert(pad_zeros(s, width)[width - 1] == 0u8);
        assert(pad_zeros(s, width).drop_last() =~= pad_zeros(s, width - 1));
        lemma_trim_pad_round_trip(s, width - 1);
    }
}

/// A text already at the full width packs to itself: nothing added, nothing
/// lost.
pub proof fn lemma_pack_full_width(s: Seq<u8>, width: int)
    requires
        s.len() == width,
    ensures
        pad_zeros(s, width) == s,
{
    assert(pad_zeros(s, width) =~= s);
}

/// An empty text packs to a buffer of zeros alone.
pub proof fn lemma_pack_empty(width: int)
    requires
        0 <= width,
    ensures
        pad_zeros(Seq::<u8>::empty(), width) == Seq::new(width as nat, |i: int| 0u8),
{
    assert(pad_zeros(Seq::<u8>::empty(), width) =~= Seq::new(width as nat, |i: int| 0u8));
}

} // verus!
