//! The laws of the ledger, proved once for every store that satisfies the
//! record-store invariant — that is, for every store reachable from
//! `Ledger::new` through the three operations, whose contracts tie each call
//! to its transition model and preserve the invariant.

use vstd::prelude::*;
use crate::addr::creator_state_addr;
use crate::addr::IDENTITY_LEN;
use crate::addr::proposal_addr;
use crate::addr::vote_addr;
use crate::addr::lemma_vote_addr_injective;
use crate::records::ErrorCode;
use crate::records::MAX_QUESTION_LEN;
use crate::records::RecordV;
use crate::ledger::map_inv;
use crate::ledger::record_ok;
use crate::ledger::receipts_for;
use crate::ledger::init_creator_state_spec;
use crate::ledger::create_proposal_spec;
use crate::ledger::vote_spec;

verus! {

/// The registry of a creator counts its proposals exactly: the proposal at
/// index `i` exists if and only if the registry record exists and its
/// counter has advanced past `i`. In particular, after `n` successful
/// creations the counter reads `n` and proposals exist at indices `0..n`
/// and at no others.
pub proof fn lemma_registry_counts_proposals(m: Map<Seq<u8>, RecordV>, c: Seq<u8>, i: u32)
    requires
        map_inv(m),
        c.len() == IDENTITY_LEN,
    ensures
        m.contains_key(proposal_addr(c, i)) <==> (m.contains_key(creator_state_addr(c)) && (
        m[creator_state_addr(c)] matches RecordV::Creator(st) && i < st.next_index)),
{
}

/// A successful proposal creation advances the creator's counter by exactly
/// one and creates the proposal record at the claimed index, atomically:
/// there is no store in which one of the two effects shows without the other.
pub proof fn lemma_create_proposal_advances(
    m: Map<Seq<u8>, RecordV>,
    c: Seq<u8>,
    q: Seq<u8>,
    ends_at: i64,
    index: u32,
    now: i64,
)
    requires
        map_inv(m),
        c.len() == IDENTITY_LEN,
        create_proposal_spec(m, c, q, ends_at, index, now).0 is Ok,
    ensures
        ({
            let m2 = create_proposal_spec(m, c, q, ends_at, index, now).1;
            &&& index == m[creator_state_addr(c)]->Creator_0.next_index
            &&& m2[creator_state_addr(c)]->Creator_0.next_index == index + 1
            &&& m2.contains_key(proposal_addr(c, index))
            &&& m2[proposal_addr(c, index)]->Proposal_0.yes_votes == 0
            &&& m2[proposal_addr(c, index)]->Proposal_0.no_votes == 0
            &&& m2[proposal_addr(c, index)]->Proposal_0.created_at == now
            &&& m2[proposal_addr(c, index)]->Proposal_0.ends_at == ends_at
        }),
{
    assert(creator_state_addr(c).len() == 45);
    assert(proposal_addr(c, index).len() == 44);
}

/// A creation that claims any index other than the registry's current
/// `next_index` fails with `IndexMismatch` and leaves the store unchanged,
/// provided the question and the deadline themselves are acceptable and the
/// registry exists.
pub proof fn lemma_index_mismatch_rejected(
    m: Map<Seq<u8>, RecordV>,
    c: Seq<u8>,
    q: Seq<u8>,
    ends_at: i64,
    index: u32,
    now: i64,
)
    requires
        q.len() <= MAX_QUESTION_LEN,
        ends_at > now,
        m.contains_key(creator_state_addr(c)),
        m[creator_state_addr(c)] is Creator,
        index != m[creator_state_addr(c)]->Creator_0.next_index,
    ensures
        create_proposal_spec(m, c, q, ends_at, index, now) == (Err::<(), ErrorCode>(
            ErrorCode::IndexMismatch,
        ), m),
{
}

/// Rejections are all-or-nothing: a proposal creation that returns any error
/// leaves the store exactly as it was.
pub proof fn lemma_rejected_create_leaves_store_unchanged(
    m: Map<Seq<u8>, RecordV>,
    c: Seq<u8>,
    q: Seq<u8>,
    ends_at: i64,
    index: u32,
    now: i64,
)
    requires
        create_proposal_spec(m, c, q, ends_at, index, now).0 is Err,
    ensures
        create_proposal_spec(m, c, q, ends_at, index, now).1 == m,
{
}

/// Rejections are all-or-nothing: a vote that returns any error leaves the
/// store exactly as it was.
pub proof fn lemma_rejected_vote_leaves_store_unchanged(
    m: Map<Seq<u8>, RecordV>,
    p: Seq<u8>,
    v: Seq<u8>,
    yes: bool,
    now: i64,
)
    requires
        vote_spec(m, p, v, yes, now).0 is Err,
    ensures
        vote_spec(m, p, v, yes, now).1 == m,
{
}

/// A vote cast after the deadline — strictly after: the deadline instant
/// itself still admits votes — always fails with `AlreadyEnded` and leaves
/// the tallies, and the whole store, unchanged.
pub proof fn lemma_vote_after_deadline_rejected(
    m: Map<Seq<u8>, RecordV>,
    p: Seq<u8>,
    v: Seq<u8>,
    yes: bool,
    now: i64,
)
    requires
        m.contains_key(p),
        m[p] is Proposal,
        now > m[p]->Proposal_0.ends_at,
    ensures
        vote_spec(m, p, v, yes, now) == (Err::<(), ErrorCode>(ErrorCode::AlreadyEnded), m),
{
}

/// A question longer than the fixed slot is rejected with `QuestionTooLong`
/// before any state mutation, whatever else the call carries.
pub proof fn lemma_long_question_rejected(
    m: Map<Seq<u8>, RecordV>,
    c: Seq<u8>,
    q: Seq<u8>,
    ends_at: i64,
    index: u32,
    now: i64,
)
    requires
        q.len() > MAX_QUESTION_LEN,
    ensures
        create_proposal_spec(m, c, q, ends_at, index, now) == (Err::<(), ErrorCode>(
            ErrorCode::QuestionTooLong,
        ), m),
{
}

/// A registry can be created only once: a second initialization for the same
/// creator fails with `AlreadyExists` and leaves the store unchanged.
pub proof fn lemma_reinit_rejected(m: Map<Seq<u8>, RecordV>, c: Seq<u8>)
    requires
        m.contains_key(creator_state_addr(c)),
    ensures
        init_creator_state_spec(m, c) == (Err::<(), ErrorCode>(ErrorCode::AlreadyExists), m),
{
}

/// At most one vote of a given voter on a given proposal ever succeeds:
/// once a vote has gone through, every further attempt by the same voter on
/// the same proposal — whichever choice it carries, and in particular each
/// loser of a race of simultaneous, serialized attempts — fails with
/// `AlreadyVoted` and changes nothing, as long as the deadline has not
/// turned the attempt into `AlreadyEnded` instead.
pub proof fn lemma_vote_at_most_once(
    m: Map<Seq<u8>, RecordV>,
    p: Seq<u8>,
    v: Seq<u8>,
    yes1: bool,
    now1: i64,
    yes2: bool,
    now2: i64,
)
    requires
        map_inv(m),
        v.len() == IDENTITY_LEN,
        vote_spec(m, p, v, yes1, now1).0 is Ok,
        now2 <= m[p]->Proposal_0.ends_at,
    ensures
        ({
            let m1 = vote_spec(m, p, v, yes1, now1).1;
            vote_spec(m1, p, v, yes2, now2) == (Err::<(), ErrorCode>(ErrorCode::AlreadyVoted), m1)
        }),
{
    assert(record_ok(m, p, m[p]));
    assert(p.len() == 44);
    assert(vote_addr(p, v).len() == 4 + p.len() + 32);
}

/// The tallies of a proposal count its vote receipts exactly: `yes_votes +
/// no_votes` equals the number of receipt addresses that exist for it, one
/// per distinct voter who has successfully voted. The sum can therefore
/// never exceed the number of such voters.
pub proof fn lemma_tallies_count_receipts(m: Map<Seq<u8>, RecordV>, p: Seq<u8>)
    requires
        map_inv(m),
        m.contains_key(p),
        m[p] is Proposal,
    ensures
        m[p]->Proposal_0.yes_votes + m[p]->Proposal_0.no_votes == receipts_for(m, p).len(),
{
    assert(record_ok(m, p, m[p]));
}

/// Each receipt address belongs to one voter alone: two voters of the
/// fixed identity width share a receipt address only if they are the same.
pub proof fn lemma_receipt_address_determines_voter(p: Seq<u8>, v1: Seq<u8>, v2: Seq<u8>)
    requires
        v1.len() == IDENTITY_LEN,
        v2.len() == IDENTITY_LEN,
        vote_addr(p, v1) == vote_addr(p, v2),
    ensures
        v1 == v2,
{
    lemma_vote_addr_injective(p, v1, p, v2);
}

/// Votes from two distinct voters never collide: when both succeed, one
/// after the other, both receipts exist afterwards and both increments show
/// in the tallies — no update is lost.
pub proof fn lemma_distinct_voters_both_count(
    m: Map<Seq<u8>, RecordV>,
    p: Seq<u8>,
    v1: Seq<u8>,
    v2: Seq<u8>,
    yes1: bool,
    now1: i64,
    yes2: bool,
    now2: i64,
)
    requires
        map_inv(m),
        v1.len() == IDENTITY_LEN,
        v2.len() == IDENTITY_LEN,
        vote_spec(m, p, v1, yes1, now1).0 is Ok,
        vote_spec(vote_spec(m, p, v1, yes1, now1).1, p, v2, yes2, now2).0 is Ok,
    ensures
        ({
            let m2 = vote_spec(vote_spec(m, p, v1, yes1, now1).1, p, v2, yes2, now2).1;
            &&& m2.contains_key(vote_addr(p, v1))
            &&& m2.contains_key(vote_addr(p, v2))
            &&& m2[p]->Proposal_0.yes_votes + m2[p]->Proposal_0.no_votes == m[
                p
            ]->Proposal_0.yes_votes + m[p]->Proposal_0.no_votes + 2
        }),
{
    assert(record_ok(m, p, m[p]));
    assert(p.len() == 44);
    assert(vote_addr(p, v1).len() == 4 + p.len() + 32);
    assert(vote_addr(p, v2).len() == 4 + p.len() + 32);
}

/// No operation ever deletes a record: whatever any of the three operations
/// does with any arguments, every record that existed before still exists.
pub proof fn lemma_no_operation_deletes_records(
    m: Map<Seq<u8>, RecordV>,
    k: Seq<u8>,
    c: Seq<u8>,
    q: Seq<u8>,
    ends_at: i64,
    index: u32,
    now: i64,
    p: Seq<u8>,
    v: Seq<u8>,
    yes: bool,
)
    requires
        m.contains_key(k),
    ensures
        init_creator_state_spec(m, c).1.contains_key(k),
        create_proposal_spec(m, c, q, ends_at, index, now).1.contains_key(k),
        vote_spec(m, p, v, yes, now).1.contains_key(k),
{
}

/// A successful vote mutates nothing but the two tallies of its proposal:
/// the proposal's write-once fields keep their values, and every other
/// pre-existing record is left exactly as it was.
pub proof fn lemma_vote_mutates_only_tallies(
    m: Map<Seq<u8>, RecordV>,
    p: Seq<u8>,
    v: Seq<u8>,
    yes: bool,
    now: i64,
)
    requires
        vote_spec(m, p, v, yes, now).0 is Ok,
    ensures
        ({
            let m2 = vote_spec(m, p, v, yes, now).1;
            &&& m2[p]->Proposal_0.creator == m[p]->Proposal_0.creator
            &&& m2[p]->Proposal_0.question == m[p]->Proposal_0.question
            &&& m2[p]->Proposal_0.created_at == m[p]->Proposal_0.created_at
            &&& m2[p]->Proposal_0.ends_at == m[p]->Proposal_0.ends_at
            &&& forall|k: Seq<u8>|
                #[trigger] m.contains_key(k) && k != p ==> m2.contains_key(k) && m2[k] == m[k]
        }),
{
}

/// A successful proposal creation touches nothing but the new proposal
/// record and its creator's registry: every other pre-existing record is
/// left exactly as it was. In particular no other creator's counter moves,
/// and no counter ever decreases.
pub proof fn lemma_create_touches_only_its_creator(
    m: Map<Seq<u8>, RecordV>,
    c: Seq<u8>,
    q: Seq<u8>,
    ends_at: i64,
    index: u32,
    now: i64,
)
    requires
        create_proposal_spec(m, c, q, ends_at, index, now).0 is Ok,
    ensures
        ({
            let m2 = create_proposal_spec(m, c, q, ends_at, index, now).1;
            forall|k: Seq<u8>|
                #[trigger] m.contains_key(k) && k != creator_state_addr(c) ==> m2.contains_key(k)
                    && m2[k] == m[k]
        }),
{
}

/// Under the invariant, the occupancy check at proposal creation is
/// provably redundant: when the claimed index equals the registry's counter,
/// the proposal address cannot already be occupied, so `create_proposal`
/// never returns `AlreadyExists`.
pub proof fn lemma_create_never_already_exists(
    m: Map<Seq<u8>, RecordV>,
    c: Seq<u8>,
    q: Seq<u8>,
    ends_at: i64,
    index: u32,
    now: i64,
)
    requires
        map_inv(m),
        c.len() == IDENTITY_LEN,
    ensures
        create_proposal_spec(m, c, q, ends_at, index, now).0 != Err::<(), ErrorCode>(
            ErrorCode::AlreadyExists,
        ),
{
    lemma_registry_counts_proposals(m, c, index);
}

} // verus!
