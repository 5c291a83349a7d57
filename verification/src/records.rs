//! The three record kinds that the store holds, their mathematical views,
//! and the error kinds that the operations surface.

use vstd::prelude::*;

verus! {

/// A question may occupy at most this many bytes: the backing store
/// pre-allocates a fixed-size slot for the text.
pub const MAX_QUESTION_LEN: usize = 256;

/// Per-creator registry record: the monotonic counter that gates proposal
/// creation ordering. Starts at 0; advanced only by a successful proposal
/// creation; never reused.
pub struct CreatorState {
    pub next_index: u32,
}

/// A proposal record: write-once content plus the two live tallies, the only
/// fields of any record that are ever mutated after creation.
pub struct Proposal {
    pub creator: Vec<u8>,
    pub question: Vec<u8>,
    pub yes_votes: u64,
    pub no_votes: u64,
    pub created_at: i64,
    pub ends_at: i64,
}

/// A vote receipt: its mere existence at the derived address is the
/// "has voted" flag.
pub struct VoteReceipt {
    pub proposal: Vec<u8>,
    pub voter: Vec<u8>,
    pub has_voted: bool,
}

/// A record as the store holds it, one variant per namespace.
pub enum Record {
    Creator(CreatorState),
    Proposal(Proposal),
    Receipt(VoteReceipt),
}

/// Mathematical view of a `CreatorState`.
pub struct CreatorStateV {
    pub next_index: u32,
}

/// Mathematical view of a `Proposal`.
pub struct ProposalV {
    pub creator: Seq<u8>,
    pub question: Seq<u8>,
    pub yes_votes: u64,
    pub no_votes: u64,
    pub created_at: i64,
    pub ends_at: i64,
}

/// Mathematical view of a `VoteReceipt`.
pub struct VoteReceiptV {
    pub proposal: Seq<u8>,
    pub voter: Seq<u8>,
    pub has_voted: bool,
}

/// Mathematical view of a `Record`.
pub enum RecordV {
    Creator(CreatorStateV),
    Proposal(ProposalV),
    Receipt(VoteReceiptV),
}

impl View for CreatorState {
    type V = CreatorStateV;

    open spec fn view(&self) -> CreatorStateV {
        CreatorStateV { next_index: self.next_index }
    }
}

impl View for Proposal {
    type V = ProposalV;

    open spec fn view(&self) -> ProposalV {
        ProposalV {
            creator: self.creator@,
            question: self.question@,
            yes_votes: self.yes_votes,
            no_votes: self.no_votes,
            created_at: self.created_at,
            ends_at: self.ends_at,
        }
    }
}

impl View for VoteReceipt {
    type V = VoteReceiptV;

    open spec fn view(&self) -> VoteReceiptV {
        VoteReceiptV { proposal: self.proposal@, voter: self.voter@, has_voted: self.has_voted }
    }
}

impl View for Record {
    type V = RecordV;

    open spec fn view(&self) -> RecordV {
        match self {
            Record::Creator(st) => RecordV::Creator(st@),
            Record::Proposal(p) => RecordV::Proposal(p@),
            Record::Receipt(r) => RecordV::Receipt(r@),
        }
    }
}

/// The distinct, stable error kinds that an operation can surface.
///
/// The first five are the validation, conflict and resource-limit kinds that
/// external tooling matches on by numeric identifier; `AlreadyExists` is the
/// store's refusal to create a record at an occupied address, and `NotFound`
/// its refusal to read a record that was never created.
#[derive(Clone, Copy, Debug, PartialEq, Eq, Structural)]
pub enum ErrorCode {
    QuestionTooLong,
    AlreadyEnded,
    AlreadyVoted,
    Overflow,
    IndexMismatch,
    AlreadyExists,
    NotFound,
}

impl ErrorCode {
    /// The stable numeric identifier of each error kind.
    pub fn code(&self) -> (c: u32)
        ensures
            c == (match self {
                ErrorCode::QuestionTooLong => 6000u32,
                ErrorCode::AlreadyEnded => 6001u32,
                ErrorCode::AlreadyVoted => 6002u32,
                ErrorCode::Overflow => 6003u32,
                ErrorCode::IndexMismatch => 6004u32,
                ErrorCode::AlreadyExists => 6005u32,
                ErrorCode::NotFound => 6006u32,
            }),
    {
        match self {
            ErrorCode::QuestionTooLong => 6000,
            ErrorCode::AlreadyEnded => 6001,
            ErrorCode::AlreadyVoted => 6002,
            ErrorCode::Overflow => 6003,
            ErrorCode::IndexMismatch => 6004,
            ErrorCode::AlreadyExists => 6005,
            ErrorCode::NotFound => 6006,
        }
    }
}

} // verus!
