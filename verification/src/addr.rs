//! Deterministic address derivation: the single point of truth for where a
//! record lives. An address is the record kind's namespace tag followed by
//! the identifying fields; with the identity fields at fixed width the
//! encoding is injective, so distinct inputs never share an address, and the
//! same inputs always re-derive the same one.

use vstd::prelude::*;

use crate::pack::concat_bytes;

verus! {

/// The proof byte handed out with every derived address. In this derivation
/// every candidate address is acceptable, so the first proof byte tried is
/// always the one that is kept.
pub const ADDRESS_BUMP: u8 = 255;

/// Namespace tag of a poll address: the bytes of "poll" then of the format
/// version tag "v999".
pub open spec fn poll_tag() -> Seq<u8> {
    seq![112u8, 111u8, 108u8, 108u8, 118u8, 57u8, 57u8, 57u8]
}

/// Namespace tag of a vote address: the bytes of "vote".
pub open spec fn vote_tag() -> Seq<u8> {
    seq![118u8, 111u8, 116u8, 101u8]
}

/// Where the poll for this creator and question lives.
pub open spec fn poll_address_of(creator: Seq<u8>, question: Seq<u8>) -> Seq<u8> {
    poll_tag() + creator + question
}

/// Where this voter's vote on this poll lives.
pub open spec fn vote_address_of(poll: Seq<u8>, voter: Seq<u8>) -> Seq<u8> {
    vote_tag() + poll + voter
}

/// The poll namespace tag as a fresh buffer.
fn poll_tag_vec() -> (r: Vec<u8>)
    ensures
        r@ == poll_tag(),
{
    let mut t: Vec<u8> = Vec::new();
    t.push(112u8);
    t.push(111u8);
    t.push(108u8);
    t.push(108u8);
    t.push(118u8);
    t.push(57u8);
    t.push(57u8);
    t.push(57u8);
    proof {
        assert(t@ =~= poll_tag());
    }
    t
}

/// The vote namespace tag as a fresh buffer.
fn vote_tag_vec() -> (r: Vec<u8>)
    ensures
        r@ == vote_tag(),
{
    let mut t: Vec<u8> = Vec::new();
    t.push(118u8);
    t.push(111u8);
    t.push(116u8);
    t.push(101u8);
    proof {
        assert(t@ =~= vote_tag());
    }
    t
}

/// Derive the storage address of a poll, with its proof byte: reproducible
/// by anyone holding the same creator identity and raw question bytes.
pub fn derive_poll_address(creator: &Vec<u8>, question: &Vec<u8>) -> (r: (Vec<u8>, u8))
    ensures
        r.0@ == poll_address_of(creator@, question@),
        r.1 == ADDRESS_BUMP,
{
    let t = poll_tag_vec();
    let with_creator = concat_bytes(t, creator);
    let address = concat_bytes(with_creator, question);
    (address, ADDRESS_BUMP)
}

/// Derive the storage address of a vote, with its proof byte: reproducible
/// by anyone holding the same poll address and voter identity.
pub fn derive_vote_address(poll: &Vec<u8>, voter: &Vec<u8>) -> (r: (Vec<u8>, u8))
    ensures
        r.0@ == vote_address_of(poll@, voter@),
        r.1 == ADDRESS_BUMP,
{
    let t = vote_tag_vec();
    let with_poll = concat_bytes(t, poll);
    let address = concat_bytes(with_poll, voter);
    (address, ADDRESS_BUMP)
}

/// Two poll derivations agree only on identical inputs: with the creator at
/// its fixed width, the address determines the creator and the question.
pub proof fn lemma_poll_address_injective(c1: Seq<u8>, q1: Seq<u8>, c2: Seq<u8>, q2: Seq<u8>)
    requires
        c1.len() == 32,
        c2.len() == 32,
        poll_address_of(c1, q1) == poll_address_of(c2, q2),
    ensures
        c1 == c2,
        q1 == q2,
{
    let a1 = poll_address_of(c1, q1);
    let a2 = poll_address_of(c2, q2);
    assert(a1.len() == 40 + q1.len());
    assert(a2.len() == 40 + q2.len());
    assert(c1 =~= c2) by {
        assert forall|i: int| 0 <= i < 32 implies c1[i] == c2[i] by {
            assert(a1[8 + i] == c1[i]);
            assert(a2[8 + i] == c2[i]);
        }
    }
    assert(q1 =~= q2) by {
        assert forall|i: int| 0 <= i < q1.len() implies q1[i] == q2[i] by {
            assert(a1[40 + i] == q1[i]);
            assert(a2[40 + i] == q2[i]);
        }
    }
}

/// Two vote derivations agree only on identical inputs: with the voter at
/// its fixed width, the address determines the poll and the voter.
pub proof fn lemma_vote_address_injective(p1: Seq<u8>, v1: Seq<u8>, p2: Seq<u8>, v2: Seq<u8>)
    requires
        v1.len() == 32,
        v2.len() == 32,
        vote_address_of(p1, v1) == vote_address_of(p2, v2),
    ensures
        p1 == p2,
        v1 == v2,
{
    let a1 = vote_address_of(p1, v1);
    let a2 = vote_address_of(p2, v2);
    assert(a1.len() == 36 + p1.len());
    assert(a2.len() == 36 + p2.len());
    assert(p1.len() == p2.len());
    assert(p1 =~= p2) by {
        assert forall|i: int| 0 <= i < p1.len() implies p1[i] == p2[i] by {
            assert(a1[4 + i] == p1[i]);
            assert(a2[4 + i] == p2[i]);
        }
    }
    assert(v1 =~= v2) by {
        assert forall|i: int| 0 <= i < 32 implies v1[i] == v2[i] by {
            assert(a1[4 + p1.len() + i] == v1[i]);
            assert(a2[4 + p2.len() + i] == v2[i]);
        }
    }
}

/// A poll address never equals a vote address: the namespace tags differ
/// already in their first byte.
pub proof fn lemma_address_kinds_distinct(c: Seq<u8>, q: Seq<u8>, p: Seq<u8>, v: Seq<u8>)
    ensures
        poll_address_of(c, q) != vote_address_of(p, v),
{
    assert(poll_address_of(c, q)[0] == 112u8);
    assert(vote_address_of(p, v)[0] == 118u8);
}

/// A derived address is longer than any identity, so a derived address can
/// never be mistaken for a signing party.
pub proof fn lemma_address_not_an_identity(c: Seq<u8>, q: Seq<u8>, p: Seq<u8>, v: Seq<u8>)
    requires
        c.len() == 32,
        v.len() == 32,
    ensures
        poll_address_of(c, q).len() > 32,
        vote_address_of(p, v).len() > 32,
{
}

} // verus!
