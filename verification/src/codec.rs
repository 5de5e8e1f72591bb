//! The binary layout of persisted records: the compatibility surface any
//! external reader of the store sees. Field order and width are fixed. A
//! poll is creator, question buffer, the four option buffers, the option
//! count, start and end slot little-endian, and the address proof byte. A
//! vote is poll address, voter, choice index, and the weight little-endian;
//! the poll address is the one variable-width field, recovered from the
//! total length. The fixed-size type discriminator that precedes a record
//! is the store layer's business and is not laid down here.

use vstd::prelude::*;

use vstd::bytes::{
    lemma_auto_spec_u64_to_from_le_bytes, spec_u64_from_le_bytes, spec_u64_to_le_bytes,
    u64_from_le_bytes, u64_to_le_bytes,
};
use vstd::slice::{slice_subrange, slice_to_vec};

use crate::pack::{concat_bytes, copy_bytes};
use crate::records::{Poll, PollV, VoteRecord, VoteV};

verus! {

/// Width of a serialized poll record, in bytes: a 32-byte creator, the
/// 256-byte question, four 64-byte options, the count, two slots and the
/// proof byte.
pub const POLL_BYTES_LEN: usize = 562;

/// Fixed tail of a serialized vote record, in bytes: a 32-byte voter, the
/// choice index, and the 8-byte weight; whatever precedes it is the poll
/// address.
pub const VOTE_TAIL_LEN: usize = 41;

/// The option rows laid end to end.
pub open spec fn rows_bytes(rows: Seq<Seq<u8>>) -> Seq<u8>
    decreases rows.len(),
{
    if rows.len() == 0 {
        Seq::empty()
    } else {
        rows_bytes(rows.drop_last()) + rows.last()
    }
}

/// The serialized form of a poll record.
pub open spec fn poll_bytes(p: PollV) -> Seq<u8> {
    p.creator + p.question + rows_bytes(p.options) + seq![p.num_options] + spec_u64_to_le_bytes(
        p.start_slot,
    ) + spec_u64_to_le_bytes(p.end_slot) + seq![p.bump]
}

/// The serialized form of a vote record.
pub open spec fn vote_bytes(v: VoteV) -> Seq<u8> {
    v.poll + v.voter + seq![v.choice_index] + spec_u64_to_le_bytes(v.weight)
}

/// Four rows laid end to end are their concatenation in order.
proof fn lemma_rows_bytes_four(rows: Seq<Seq<u8>>)
    requires
        rows.len() == 4,
    ensures
        rows_bytes(rows) == rows[0] + rows[1] + rows[2] + rows[3],
{
    let r3 = rows.drop_last();
    let r2 = r3.drop_last();
    let r1 = r2.drop_last();
    let r0 = r1.drop_last();
    assert(r0.len() == 0);
    assert(rows_bytes(r0) == Seq::<u8>::empty());
    assert(rows_bytes(rows) == rows_bytes(r3) + rows[3]);
    assert(rows_bytes(r3) == rows_bytes(r2) + rows[2]);
    assert(rows_bytes(r2) == rows_bytes(r1) + rows[1]);
    assert(rows_bytes(r1) == rows_bytes(r0) + rows[0]);
    assert(Seq::<u8>::empty() + rows[0] =~= rows[0]);
}

/// Where each field of a well-formed poll stands inside its serialized form.
proof fn lemma_poll_bytes_parts(p: PollV)
    requires
        p.wf(),
    ensures
        poll_bytes(p).len() == POLL_BYTES_LEN,
        poll_bytes(p).subrange(0, 32) == p.creator,
        poll_bytes(p).subrange(32, 288) == p.question,
        poll_bytes(p).subrange(288, 352) == p.options[0],
        poll_bytes(p).subrange(352, 416) == p.options[1],
        poll_bytes(p).subrange(416, 480) == p.options[2],
        poll_bytes(p).subrange(480, 544) == p.options[3],
        poll_bytes(p)[544] == p.num_options,
        poll_bytes(p).subrange(545, 553) == spec_u64_to_le_bytes(p.start_slot),
        poll_bytes(p).subrange(553, 561) == spec_u64_to_le_bytes(p.end_slot),
        poll_bytes(p)[561] == p.bump,
{
    lemma_auto_spec_u64_to_from_le_bytes();
    lemma_rows_bytes_four(p.options);
    assert(rows_bytes(p.options).len() == 256);
    assert(poll_bytes(p).subrange(0, 32) =~= p.creator);
    assert(poll_bytes(p).subrange(32, 288) =~= p.question);
    assert(poll_bytes(p).subrange(288, 352) =~= p.options[0]);
    assert(poll_bytes(p).subrange(352, 416) =~= p.options[1]);
    assert(poll_bytes(p).subrange(416, 480) =~= p.options[2]);
    assert(poll_bytes(p).subrange(480, 544) =~= p.options[3]);
    assert(poll_bytes(p).subrange(545, 553) =~= spec_u64_to_le_bytes(p.start_slot));
    assert(poll_bytes(p).subrange(553, 561) =~= spec_u64_to_le_bytes(p.end_slot));
}

/// Where each field of a well-formed vote stands inside its serialized
/// form; the poll address is whatever the fixed tail leaves.
proof fn lemma_vote_bytes_parts(v: VoteV)
    requires
        v.wf(),
    ensures
        vote_bytes(v).len() == v.poll.len() + VOTE_TAIL_LEN,
        vote_bytes(v).subrange(0, v.poll.len() as int) == v.poll,
        vote_bytes(v).subrange(v.poll.len() as int, v.poll.len() as int + 32) == v.voter,
        vote_bytes(v)[v.poll.len() as int + 32] == v.choice_index,
        vote_bytes(v).subrange(v.poll.len() as int + 33, v.poll.len() as int + 41) == spec_u64_to_le_bytes(
            v.weight,
        ),
{
    lemma_auto_spec_u64_to_from_le_bytes();
    assert(vote_bytes(v).subrange(0, v.poll.len() as int) =~= v.poll);
    assert(vote_bytes(v).subrange(v.poll.len() as int, v.poll.len() as int + 32) =~= v.voter);
    assert(vote_bytes(v).subrange(v.poll.len() as int + 33, v.poll.len() as int + 41) =~= spec_u64_to_le_bytes(
        v.weight,
    ));
}

/// Serialization is injective on well-formed polls: the layout pins every
/// field, so equal bytes mean equal records and the round trip loses
/// nothing.
pub proof fn lemma_poll_bytes_injective(p1: PollV, p2: PollV)
    requires
        p1.wf(),
        p2.wf(),
        poll_bytes(p1) == poll_bytes(p2),
    ensures
        p1 == p2,
{
    lemma_auto_spec_u64_to_from_le_bytes();
    lemma_poll_bytes_parts(p1);
    lemma_poll_bytes_parts(p2);
    assert(p1.options =~= p2.options);
    assert(p1 =~= p2);
}

/// Serialization is injective on well-formed votes: every fixed-width field
/// is pinned by its offset from the end, and the poll address is the rest.
pub proof fn lemma_vote_bytes_injective(v1: VoteV, v2: VoteV)
    requires
        v1.wf(),
        v2.wf(),
        vote_bytes(v1) == vote_bytes(v2),
    ensures
        v1 == v2,
{
    lemma_auto_spec_u64_to_from_le_bytes();
    lemma_vote_bytes_parts(v1);
    lemma_vote_bytes_parts(v2);
    assert(v1.poll.len() == v2.poll.len());
    assert(v1 =~= v2);
}

/// Serialize a well-formed poll into its fixed-width layout.
#[verifier::loop_isolation(false)]
pub fn serialize_poll(p: &Poll) -> (r: Vec<u8>)
    requires
        p@.wf(),
    ensures
        r@ == poll_bytes(p@),
{
    let mut out = copy_bytes(&p.creator);
    out = concat_bytes(out, &p.question);
    let mut k: usize = 0;
    while k < 4
        invariant
            k <= 4,
            out@ == p@.creator + p@.question + rows_bytes(p@.options.take(k as int)),
        decreases 4 - k,
    {
        out = concat_bytes(out, &p.options[k]);
        proof {
            assert(p@.options.take(k + 1).drop_last() =~= p@.options.take(k as int));
            assert(p@.options.take(k + 1).last() == p@.options[k as int]);
            assert(out@ =~= p@.creator + p@.question + rows_bytes(p@.options.take(k + 1)));
        }
        k = k + 1;
    }
    proof {
        assert(p@.options.take(4) =~= p@.options);
    }
    out.push(p.num_options);
    let start_bytes = u64_to_le_bytes(p.start_slot);
    out = concat_bytes(out, &start_bytes);
    let end_bytes = u64_to_le_bytes(p.end_slot);
    out = concat_bytes(out, &end_bytes);
    out.push(p.bump);
    proof {
        assert(out@ =~= poll_bytes(p@));
    }
    out
}

/// Serialize a well-formed vote into its layout.
pub fn serialize_vote(v: &VoteRecord) -> (r: Vec<u8>)
    requires
        v@.wf(),
    ensures
        r@ == vote_bytes(v@),
{
    let mut out = copy_bytes(&v.poll);
    out = concat_bytes(out, &v.voter);
    out.push(v.choice_index);
    let weight_bytes = u64_to_le_bytes(v.weight);
    out = concat_bytes(out, &weight_bytes);
    proof {
        assert(out@ =~= vote_bytes(v@));
    }
    out
}

/// Parse a buffer back into a poll record. Refused exactly where no
/// well-formed poll serializes to the buffer: a wrong length, an option
/// count out of range, or an empty activity window.
pub fn deserialize_poll(bytes: &Vec<u8>) -> (r: Option<Poll>)
    ensures
        match r {
            Some(p) => p@.wf() && poll_bytes(p@) == bytes@,
            None => forall|p: PollV| p.wf() ==> poll_bytes(p) != bytes@,
        },
{
    if bytes.len() != POLL_BYTES_LEN {
        proof {
            assert forall|p: PollV| p.wf() implies poll_bytes(p) != bytes@ by {
                lemma_poll_bytes_parts(p);
            }
        }
        return None;
    }
    let num_options: u8 = bytes[544];
    if num_options < 2 || num_options > 4 {
        proof {
            assert forall|p: PollV| p.wf() implies poll_bytes(p) != bytes@ by {
                lemma_poll_bytes_parts(p);
                if poll_bytes(p) == bytes@ {
                    assert(p.num_options == bytes@[544]);
                }
            }
        }
        return None;
    }
    let start_slot = u64_from_le_bytes(slice_subrange(bytes.as_slice(), 545, 553));
    let end_slot = u64_from_le_bytes(slice_subrange(bytes.as_slice(), 553, 561));
    if start_slot >= end_slot {
        proof {
            lemma_auto_spec_u64_to_from_le_bytes();
            assert forall|p: PollV| p.wf() implies poll_bytes(p) != bytes@ by {
                lemma_poll_bytes_parts(p);
                if poll_bytes(p) == bytes@ {
                    assert(spec_u64_to_le_bytes(p.start_slot) == bytes@.subrange(545, 553));
                    assert(spec_u64_to_le_bytes(p.end_slot) == bytes@.subrange(553, 561));
                    assert(p.start_slot == start_slot && p.end_slot == end_slot);
                }
            }
        }
        return None;
    }
    let creator = slice_to_vec(slice_subrange(bytes.as_slice(), 0, 32));
    let question = slice_to_vec(slice_subrange(bytes.as_slice(), 32, 288));
    let mut options: Vec<Vec<u8>> = Vec::new();
    options.push(slice_to_vec(slice_subrange(bytes.as_slice(), 288, 352)));
    options.push(slice_to_vec(slice_subrange(bytes.as_slice(), 352, 416)));
    options.push(slice_to_vec(slice_subrange(bytes.as_slice(), 416, 480)));
    options.push(slice_to_vec(slice_subrange(bytes.as_slice(), 480, 544)));
    let bump: u8 = bytes[561];
    let poll = Poll {
        creator: creator,
        question: question,
        options: options,
        num_options: num_options,
        start_slot: start_slot,
        end_slot: end_slot,
        bump: bump,
    };
    proof {
        lemma_auto_spec_u64_to_from_le_bytes();
        lemma_rows_bytes_four(poll@.options);
        assert(poll@.wf());
        assert(spec_u64_to_le_bytes(spec_u64_from_le_bytes(bytes@.subrange(545, 553)))
            == bytes@.subrange(545, 553));
        assert(spec_u64_to_le_bytes(spec_u64_from_le_bytes(bytes@.subrange(553, 561)))
            == bytes@.subrange(553, 561));
        assert(poll_bytes(poll@) =~= bytes@);
    }
    Some(poll)
}

/// Parse a buffer back into a vote record. Refused exactly where no
/// well-formed vote serializes to the buffer: a buffer shorter than the
/// fixed tail.
pub fn deserialize_vote(bytes: &Vec<u8>) -> (r: Option<VoteRecord>)
    ensures
        match r {
            Some(v) => v@.wf() && vote_bytes(v@) == bytes@,
            None => forall|v: VoteV| v.wf() ==> vote_bytes(v) != bytes@,
        },
{
    if bytes.len() < VOTE_TAIL_LEN {
        proof {
            assert forall|v: VoteV| v.wf() implies vote_bytes(v) != bytes@ by {
                lemma_vote_bytes_parts(v);
            }
        }
        return None;
    }
    let split: usize = bytes.len() - VOTE_TAIL_LEN;
    let poll = slice_to_vec(slice_subrange(bytes.as_slice(), 0, split));
    let voter = slice_to_vec(slice_subrange(bytes.as_slice(), split, split + 32));
    let choice_index: u8 = bytes[split + 32];
    let weight = u64_from_le_bytes(slice_subrange(bytes.as_slice(), split + 33, split + 41));
    let vote = VoteRecord {
        poll: poll,
        voter: voter,
        choice_index: choice_index,
        weight: weight,
    };
    proof {
        lemma_auto_spec_u64_to_from_le_bytes();
        assert(vote@.wf());
        assert(spec_u64_to_le_bytes(spec_u64_from_le_bytes(bytes@.subrange(
            split + 33,
            split + 41,
        ))) == bytes@.subrange(split + 33, split + 41));
        assert(vote_bytes(vote@) =~= bytes@);
    }
    Some(vote)
}

} // verus!
