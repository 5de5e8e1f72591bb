//! The two operations: poll creation and vote casting. Each is pure
//! validation-then-write, decided exactly by the spec functions below; a
//! refused request leaves the ledger untouched.

use vstd::prelude::*;

use crate::addr::{
    derive_poll_address, derive_vote_address, poll_address_of, vote_address_of, vote_tag,
    ADDRESS_BUMP,
};
use crate::errors::{GovError, OpError};
use crate::ledger::{read_of, Ledger};
use crate::pack::{copy_bytes, pack_bytes, pad_zeros};
use crate::records::{
    bytes_rows, Poll, PollV, Record, RecordV, VoteRecord, VoteV, ID_LEN, MAX_OPTIONS,
    MAX_OPTION_LEN, MAX_QUESTION_LEN, MIN_OPTIONS,
};

verus! {

/// The authenticated context of a poll creation: the creator's identity,
/// its signature already checked by the surrounding layer.
pub struct CreatePoll {
    pub creator: Vec<u8>,
}

impl CreatePoll {
    /// The identity has its fixed width.
    pub open spec fn wf(&self) -> bool {
        self.creator@.len() == ID_LEN
    }
}

/// The authenticated context of a vote: the poll's address and the voter's
/// identity, the signature already checked by the surrounding layer.
pub struct CastVote {
    pub poll: Vec<u8>,
    pub voter: Vec<u8>,
}

impl CastVote {
    /// The identity has its fixed width.
    pub open spec fn wf(&self) -> bool {
        self.voter@.len() == ID_LEN
    }
}

/// The first shape rule a proposed poll breaks, if any, in the order the
/// rules are checked.
pub open spec fn poll_input_error(
    question: Seq<u8>,
    options: Seq<Seq<u8>>,
    start_slot: u64,
    end_slot: u64,
) -> Option<GovError> {
    if options.len() < MIN_OPTIONS {
        Some(GovError::NotEnoughOptions)
    } else if options.len() > MAX_OPTIONS {
        Some(GovError::TooManyOptions)
    } else if start_slot >= end_slot {
        Some(GovError::InvalidTimeRange)
    } else if question.len() > MAX_QUESTION_LEN {
        Some(GovError::InvalidQuestionLen)
    } else if exists|i: int|
        0 <= i < options.len() && (#[trigger] options[i]).len() > MAX_OPTION_LEN {
        Some(GovError::InvalidOptionLen)
    } else {
        None
    }
}

/// The record a successful creation stores: every text field left-aligned
/// in its fixed-width buffer, unused option slots all zero.
pub open spec fn packed_poll(
    creator: Seq<u8>,
    question: Seq<u8>,
    options: Seq<Seq<u8>>,
    start_slot: u64,
    end_slot: u64,
    bump: u8,
) -> PollV {
    PollV {
        creator: creator,
        question: pad_zeros(question, MAX_QUESTION_LEN as int),
        options: Seq::new(
            MAX_OPTIONS as nat,
            |i: int|
                if 0 <= i < options.len() {
                    pad_zeros(options[i], MAX_OPTION_LEN as int)
                } else {
                    pad_zeros(Seq::<u8>::empty(), MAX_OPTION_LEN as int)
                },
        ),
        num_options: options.len() as u8,
        start_slot: start_slot,
        end_slot: end_slot,
        bump: bump,
    }
}

/// What a creation request decides: the error it is refused with, or the
/// record it stores at the derived poll address.
pub open spec fn create_decision(
    m: Map<Seq<u8>, RecordV>,
    creator: Seq<u8>,
    question: Seq<u8>,
    options: Seq<Seq<u8>>,
    start_slot: u64,
    end_slot: u64,
) -> Result<PollV, OpError> {
    match poll_input_error(question, options, start_slot, end_slot) {
        Some(e) => Err(OpError::Gov(e)),
        None => if m.contains_key(poll_address_of(creator, question)) {
            Err(OpError::AlreadyExists)
        } else {
            Ok(packed_poll(creator, question, options, start_slot, end_slot, ADDRESS_BUMP))
        },
    }
}

/// What a vote request decides, given the time now: the error it is refused
/// with, or the record it stores at the derived vote address. A missing
/// poll — or a record of another kind at the address — is a missing poll
/// either way; the window is inclusive on both ends; and the choice is
/// measured against the poll's own option count, never the fixed slot
/// capacity.
pub open spec fn vote_decision(
    m: Map<Seq<u8>, RecordV>,
    now: u64,
    poll: Seq<u8>,
    voter: Seq<u8>,
    choice_index: u8,
) -> Result<VoteV, OpError> {
    match read_of(m, poll) {
        Some(RecordV::Poll(p)) => if now < p.start_slot || now > p.end_slot {
            Err(OpError::Gov(GovError::PollNotActive))
        } else if choice_index >= p.num_options {
            Err(OpError::Gov(GovError::InvalidChoice))
        } else if m.contains_key(vote_address_of(poll, voter)) {
            Err(OpError::AlreadyExists)
        } else {
            Ok(VoteV { poll: poll, voter: voter, choice_index: choice_index, weight: 1u64 })
        },
        _ => Err(OpError::PollNotFound),
    }
}

/// Validate a proposed poll, pack its text into fixed buffers, and create
/// the record at its derived address — exactly the decision `create_decision`
/// names, with no partial state on failure.
#[verifier::loop_isolation(false)]
pub fn create_poll(
    ledger: &mut Ledger,
    ctx: &CreatePoll,
    question: &Vec<u8>,
    options: &Vec<Vec<u8>>,
    start_slot: u64,
    end_slot: u64,
) -> (r: Result<(), OpError>)
    requires
        old(ledger).wf(),
        ctx.wf(),
    ensures
        final(ledger).wf(),
        match create_decision(
            old(ledger)@,
            ctx.creator@,
            question@,
            bytes_rows(options@),
            start_slot,
            end_slot,
        ) {
            Ok(p) => r is Ok && final(ledger)@ == old(ledger)@.insert(
                poll_address_of(ctx.creator@, question@),
                RecordV::Poll(p),
            ),
            Err(e) => r == Err::<(), OpError>(e) && final(ledger)@ == old(ledger)@,
        },
{
    if options.len() < MIN_OPTIONS {
        return Err(OpError::Gov(GovError::NotEnoughOptions));
    }
    if options.len() > MAX_OPTIONS {
        return Err(OpError::Gov(GovError::TooManyOptions));
    }
    if start_slot >= end_slot {
        return Err(OpError::Gov(GovError::InvalidTimeRange));
    }
    if question.len() > MAX_QUESTION_LEN {
        return Err(OpError::Gov(GovError::InvalidQuestionLen));
    }
    let mut i: usize = 0;
    while i < options.len()
        invariant
            i <= options@.len(),
            forall|j: int| 0 <= j < i ==> (#[trigger] options@[j])@.len() <= MAX_OPTION_LEN,
        decreases options@.len() - i,
    {
        if options[i].len() > MAX_OPTION_LEN {
            proof {
                assert(bytes_rows(options@)[i as int].len() > MAX_OPTION_LEN);
            }
            return Err(OpError::Gov(GovError::InvalidOptionLen));
        }
        i = i + 1;
    }
    let ghost rows = bytes_rows(options@);
    proof {
        assert(poll_input_error(question@, rows, start_slot, end_slot) is None);
    }
    let question_buf = pack_bytes(question, MAX_QUESTION_LEN);
    let mut options_buf: Vec<Vec<u8>> = Vec::new();
    let mut k: usize = 0;
    while k < MAX_OPTIONS
        invariant
            k <= MAX_OPTIONS,
            options@.len() <= MAX_OPTIONS,
            forall|j: int| 0 <= j < options@.len() ==> (#[trigger] options@[j])@.len()
                <= MAX_OPTION_LEN,
            options_buf@.len() == k,
            rows == bytes_rows(options@),
            forall|j: int|
                0 <= j < k ==> (#[trigger] options_buf@[j])@ == (if j < options@.len() {
                    pad_zeros(rows[j], MAX_OPTION_LEN as int)
                } else {
                    pad_zeros(Seq::<u8>::empty(), MAX_OPTION_LEN as int)
                }),
        decreases MAX_OPTIONS - k,
    {
        if k < options.len() {
            options_buf.push(pack_bytes(&options[k], MAX_OPTION_LEN));
        } else {
            let empty_text: Vec<u8> = Vec::new();
            options_buf.push(pack_bytes(&empty_text, MAX_OPTION_LEN));
        }
        k = k + 1;
    }
    let (address, bump) = derive_poll_address(&ctx.creator, question);
    let creator_copy = copy_bytes(&ctx.creator);
    let num = options.len() as u8;
    let poll = Poll {
        creator: creator_copy,
        question: question_buf,
        options: options_buf,
        num_options: num,
        start_slot: start_slot,
        end_slot: end_slot,
        bump: bump,
    };
    proof {
        assert(poll@.options =~= packed_poll(
            ctx.creator@,
            question@,
            rows,
            start_slot,
            end_slot,
            ADDRESS_BUMP,
        ).options);
        assert(poll@ =~= packed_poll(
            ctx.creator@,
            question@,
            rows,
            start_slot,
            end_slot,
            ADDRESS_BUMP,
        ));
    }
    ledger.create_record(address, Record::Poll(poll))
}

/// Check that the poll exists and is active now and that the choice is in
/// range, then create the vote record at the derived address — exactly the
/// decision `vote_decision` names. The store's collision refusal is the sole
/// double-vote defence; no prior-vote scan exists.
pub fn cast_vote(ledger: &mut Ledger, now: u64, ctx: &CastVote, choice_index: u8) -> (r: Result<
    (),
    OpError,
>)
    requires
        old(ledger).wf(),
        ctx.wf(),
    ensures
        final(ledger).wf(),
        match vote_decision(old(ledger)@, now, ctx.poll@, ctx.voter@, choice_index) {
            Ok(v) => r is Ok && final(ledger)@ == old(ledger)@.insert(
                vote_address_of(ctx.poll@, ctx.voter@),
                RecordV::Vote(v),
            ),
            Err(e) => r == Err::<(), OpError>(e) && final(ledger)@ == old(ledger)@,
        },
{
    let start_slot: u64;
    let end_slot: u64;
    let num_options: u8;
    match ledger.read_record(&ctx.poll) {
        Some(Record::Poll(p)) => {
            start_slot = p.start_slot;
            end_slot = p.end_slot;
            num_options = p.num_options;
        },
        _ => {
            return Err(OpError::PollNotFound);
        },
    }
    if now < start_slot || now > end_slot {
        return Err(OpError::Gov(GovError::PollNotActive));
    }
    if choice_index >= num_options {
        return Err(OpError::Gov(GovError::InvalidChoice));
    }
    let (address, _bump) = derive_vote_address(&ctx.poll, &ctx.voter);
    let vote = VoteRecord {
        poll: copy_bytes(&ctx.poll),
        voter: copy_bytes(&ctx.voter),
        choice_index: choice_index,
        weight: 1u64,
    };
    ledger.create_record(address, Record::Vote(vote))
}

/// A created poll reads back at its re-derived address: after a successful
/// creation the ledger holds, at the address derived from the same creator
/// and question, exactly the record whose fields are the inputs, each text
/// zero-padded to its fixed width.
pub proof fn lemma_create_poll_reads_back(
    m: Map<Seq<u8>, RecordV>,
    creator: Seq<u8>,
    question: Seq<u8>,
    options: Seq<Seq<u8>>,
    start_slot: u64,
    end_slot: u64,
)
    requires
        create_decision(m, creator, question, options, start_slot, end_slot) is Ok,
    ensures
        ({
            let p = create_decision(m, creator, question, options, start_slot, end_slot)->Ok_0;
            let m1 = m.insert(poll_address_of(creator, question), RecordV::Poll(p));
            &&& read_of(m1, poll_address_of(creator, question)) == Some(RecordV::Poll(p))
            &&& p.creator == creator
            &&& p.question == pad_zeros(question, MAX_QUESTION_LEN as int)
            &&& p.num_options == options.len()
            &&& p.start_slot == start_slot
            &&& p.end_slot == end_slot
            &&& forall|i: int|
                0 <= i < options.len() ==> p.options[i] == pad_zeros(
                    options[i],
                    MAX_OPTION_LEN as int,
                )
        }),
{
}

/// One vote per poll and voter: where two casts for the same pair would
/// each be accepted on the same ledger, performing either first makes the
/// other collide at the shared derived address — it is refused with the
/// store's error, and the pair's single record is the one the first cast
/// stored.
pub proof fn lemma_second_vote_collides(
    m: Map<Seq<u8>, RecordV>,
    now1: u64,
    now2: u64,
    poll: Seq<u8>,
    voter: Seq<u8>,
    c1: u8,
    c2: u8,
)
    requires
        vote_decision(m, now1, poll, voter, c1) is Ok,
        vote_decision(m, now2, poll, voter, c2) is Ok,
    ensures
        ({
            let v1 = vote_decision(m, now1, poll, voter, c1)->Ok_0;
            let m1 = m.insert(vote_address_of(poll, voter), RecordV::Vote(v1));
            &&& vote_decision(m1, now2, poll, voter, c2) == Err::<VoteV, OpError>(
                OpError::AlreadyExists,
            )
            &&& read_of(m1, vote_address_of(poll, voter)) == Some(RecordV::Vote(v1))
        }),
{
    assert(vote_tag().len() == 4);
    assert(vote_address_of(poll, voter).len() == 4 + poll.len() + voter.len());
    assert(vote_address_of(poll, voter) != poll);
}

/// Shape violations are refused each with its own error, in the order the
/// rules are checked, and inputs inside every cap are refused by none.
pub proof fn lemma_poll_shape_rules(
    question: Seq<u8>,
    options: Seq<Seq<u8>>,
    start_slot: u64,
    end_slot: u64,
)
    ensures
        options.len() < MIN_OPTIONS ==> poll_input_error(question, options, start_slot, end_slot)
            == Some(GovError::NotEnoughOptions),
        options.len() > MAX_OPTIONS ==> poll_input_error(question, options, start_slot, end_slot)
            == Some(GovError::TooManyOptions),
        MIN_OPTIONS <= options.len() <= MAX_OPTIONS && start_slot >= end_slot ==> poll_input_error(
            question,
            options,
            start_slot,
            end_slot,
        ) == Some(GovError::InvalidTimeRange),
        MIN_OPTIONS <= options.len() <= MAX_OPTIONS && start_slot < end_slot && question.len()
            > MAX_QUESTION_LEN ==> poll_input_error(question, options, start_slot, end_slot)
            == Some(GovError::InvalidQuestionLen),
        MIN_OPTIONS <= options.len() <= MAX_OPTIONS && start_slot < end_slot && question.len()
            <= MAX_QUESTION_LEN && (forall|i: int|
            0 <= i < options.len() ==> (#[trigger] options[i]).len() <= MAX_OPTION_LEN)
            ==> poll_input_error(question, options, start_slot, end_slot) is None,
{
}

} // verus!
