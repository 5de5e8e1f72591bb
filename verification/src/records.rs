//! The two persisted record kinds and their mathematical values. Records
//! are immutable after creation: no edit, cancel or delete operation exists.

use vstd::prelude::*;

verus! {

/// Capacity of the packed question buffer, in bytes.
pub const MAX_QUESTION_LEN: usize = 256;

/// Capacity of each packed option buffer, in bytes.
pub const MAX_OPTION_LEN: usize = 64;

/// Number of option slots a poll record carries; unused slots stay all zero.
pub const MAX_OPTIONS: usize = 4;

/// Fewest options a poll may offer.
pub const MIN_OPTIONS: usize = 2;

/// Width of an identity or address carried inside a record, in bytes.
pub const ID_LEN: usize = 32;

/// A poll as stored: fixed-width zero-padded buffers, the populated option
/// count, the activity window, and the proof byte of its derived address.
pub struct Poll {
    pub creator: Vec<u8>,
    pub question: Vec<u8>,
    pub options: Vec<Vec<u8>>,
    pub num_options: u8,
    pub start_slot: u64,
    pub end_slot: u64,
    pub bump: u8,
}

/// The mathematical value of a stored poll.
#[verifier::ext_equal]
pub ghost struct PollV {
    pub creator: Seq<u8>,
    pub question: Seq<u8>,
    pub options: Seq<Seq<u8>>,
    pub num_options: u8,
    pub start_slot: u64,
    pub end_slot: u64,
    pub bump: u8,
}

/// The rows of a list of byte buffers, each as its sequence of bytes.
pub open spec fn bytes_rows(rows: Seq<Vec<u8>>) -> Seq<Seq<u8>> {
    Seq::new(rows.len(), |i: int| rows[i]@)
}

impl View for Poll {
    type V = PollV;

    open spec fn view(&self) -> PollV {
        PollV {
            creator: self.creator@,
            question: self.question@,
            options: bytes_rows(self.options@),
            num_options: self.num_options,
            start_slot: self.start_slot,
            end_slot: self.end_slot,
            bump: self.bump,
        }
    }
}

impl PollV {
    /// Shape of every stored poll: fixed widths throughout, an option count
    /// in range, and a nonempty activity window.
    pub open spec fn wf(self) -> bool {
        &&& self.creator.len() == ID_LEN
        &&& self.question.len() == MAX_QUESTION_LEN
        &&& self.options.len() == MAX_OPTIONS
        &&& forall|i: int| 0 <= i < self.options.len() ==> (#[trigger] self.options[i]).len() == MAX_OPTION_LEN
        &&& MIN_OPTIONS <= self.num_options <= MAX_OPTIONS
        &&& self.start_slot < self.end_slot
    }
}

/// A vote as stored: the poll it belongs to, the voter, the chosen index,
/// and a constant weight of one.
pub struct VoteRecord {
    pub poll: Vec<u8>,
    pub voter: Vec<u8>,
    pub choice_index: u8,
    pub weight: u64,
}

/// The mathematical value of a stored vote.
#[verifier::ext_equal]
pub ghost struct VoteV {
    pub poll: Seq<u8>,
    pub voter: Seq<u8>,
    pub choice_index: u8,
    pub weight: u64,
}

impl View for VoteRecord {
    type V = VoteV;

    open spec fn view(&self) -> VoteV {
        VoteV {
            poll: self.poll@,
            voter: self.voter@,
            choice_index: self.choice_index,
            weight: self.weight,
        }
    }
}

impl VoteV {
    /// Shape of every stored vote: the voter identity at its fixed width.
    pub open spec fn wf(self) -> bool {
        self.voter.len() == ID_LEN
    }
}

/// What a ledger cell can hold.
pub enum Record {
    Poll(Poll),
    Vote(VoteRecord),
}

/// The mathematical value of a ledger cell.
#[verifier::ext_equal]
pub ghost enum RecordV {
    Poll(PollV),
    Vote(VoteV),
}

impl View for Record {
    type V = RecordV;

    open spec fn view(&self) -> RecordV {
        match self {
            Record::Poll(p) => RecordV::Poll(p@),
            Record::Vote(v) => RecordV::Vote(v@),
        }
    }
}

} // verus!
