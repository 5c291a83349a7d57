//! The record store and the three transactional operations over it.
//!
//! A `Ledger` holds every record at the address derived from its logical key
//! and refuses to create a second record at an occupied address. Its
//! mathematical view is a map from addresses to record views, and each
//! operation's contract states exactly which map the operation leaves behind
//! and which error it returns on which inputs.

use vstd::prelude::*;
use crate::addr::creator_state_addr;
use crate::addr::IDENTITY_LEN;
use crate::addr::proposal_addr;
use crate::addr::vote_addr;
use crate::addr::derive_creator_state_addr;
use crate::addr::derive_proposal_addr;
use crate::addr::derive_vote_addr;
use crate::addr::lemma_creator_state_addr_injective;
use crate::addr::lemma_proposal_addr_injective;
use crate::addr::lemma_vote_addr_injective;
use crate::records::CreatorState;
use crate::records::CreatorStateV;
use crate::records::Proposal;
use crate::records::ProposalV;
use crate::records::VoteReceipt;
use crate::records::VoteReceiptV;
use crate::records::Record;
use crate::records::RecordV;
use crate::records::ErrorCode;
use crate::records::MAX_QUESTION_LEN;

verus! {

/// One slot of the store: a record together with the address derived from
/// its logical key.
struct Entry {
    addr: Vec<u8>,
    rec: Record,
}

/// No two slots share an address: the well-formedness that create-if-absent
/// maintains and that makes the map view faithful.
spec fn unique_addrs(s: Seq<Entry>) -> bool {
    forall|i: int, j: int| 0 <= i < j < s.len() ==> s[i].addr@ != s[j].addr@
}

/// The map that a sequence of slots denotes.
spec fn map_of(s: Seq<Entry>) -> Map<Seq<u8>, RecordV>
    decreases s.len(),
{
    if s.len() == 0 {
        Map::empty()
    } else {
        map_of(s.drop_last()).insert(s.last().addr@, s.last().rec@)
    }
}

proof fn lemma_map_of_contains(s: Seq<Entry>, k: Seq<u8>)
    ensures
        map_of(s).contains_key(k) <==> exists|j: int| 0 <= j < s.len() && s[j].addr@ == k,
    decreases s.len(),
{
    if s.len() > 0 {
        lemma_map_of_contains(s.drop_last(), k);
        if s.last().addr@ == k {
            assert(s[s.len() - 1].addr@ == k);
        } else if map_of(s).contains_key(k) {
            let j = choose|j: int| 0 <= j < s.drop_last().len() && s.drop_last()[j].addr@ == k;
            assert(s[j].addr@ == k);
        } else if exists|j: int| 0 <= j < s.len() && s[j].addr@ == k {
            let j = choose|j: int| 0 <= j < s.len() && s[j].addr@ == k;
            assert(s.drop_last()[j].addr@ == k);
        }
    }
}

proof fn lemma_map_of_index(s: Seq<Entry>, j: int)
    requires
        unique_addrs(s),
        0 <= j < s.len(),
    ensures
        map_of(s).contains_key(s[j].addr@),
        map_of(s)[s[j].addr@] == s[j].rec@,
    decreases s.len(),
{
    if j == s.len() - 1 {
        assert(map_of(s).contains_key(s[j].addr@));
    } else {
        assert(unique_addrs(s.drop_last())) by {
            assert(forall|a: int, b: int|
                0 <= a < b < s.drop_last().len() ==> s.drop_last()[a].addr@ == s[a].addr@
                    && s.drop_last()[b].addr@ == s[b].addr@);
        }
        lemma_map_of_index(s.drop_last(), j);
        assert(s[j].addr@ != s.last().addr@);
    }
}

proof fn lemma_map_of_push(s: Seq<Entry>, e: Entry)
    requires
        unique_addrs(s),
        !map_of(s).contains_key(e.addr@),
    ensures
        unique_addrs(s.push(e)),
        map_of(s.push(e)) == map_of(s).insert(e.addr@, e.rec@),
{
    lemma_map_of_contains(s, e.addr@);
    assert(forall|j: int| 0 <= j < s.len() ==> s[j].addr@ != e.addr@);
    assert(forall|j: int| 0 <= j < s.len() ==> s.push(e)[j] == s[j]);
    assert(s.push(e)[s.len() as int] == e);
    assert(s.push(e).drop_last() =~= s);
    assert(s.push(e).last() == e);
}

proof fn lemma_map_of_update(s: Seq<Entry>, i: int, e: Entry)
    requires
        unique_addrs(s),
        0 <= i < s.len(),
        e.addr@ == s[i].addr@,
    ensures
        unique_addrs(s.update(i, e)),
        map_of(s.update(i, e)) == map_of(s).insert(e.addr@, e.rec@),
    decreases s.len(),
{
    let s2 = s.update(i, e);
    assert(forall|j: int| 0 <= j < s.len() && j != i ==> s2[j] == s[j]);
    assert(s2[i] == e);
    if i == s.len() - 1 {
        assert(s2.drop_last() =~= s.drop_last());
        assert(map_of(s).insert(e.addr@, e.rec@) =~= map_of(s.drop_last()).insert(
            s.last().addr@,
            s.last().rec@,
        ).insert(e.addr@, e.rec@));
        assert(map_of(s2) == map_of(s2.drop_last()).insert(s2.last().addr@, s2.last().rec@));
        assert(map_of(s.drop_last()).insert(s.last().addr@, s.last().rec@).insert(e.addr@, e.rec@)
            =~= map_of(s.drop_last()).insert(e.addr@, e.rec@));
    } else {
        assert(unique_addrs(s.drop_last())) by {
            assert(forall|a: int, b: int|
                0 <= a < b < s.drop_last().len() ==> s.drop_last()[a].addr@ == s[a].addr@
                    && s.drop_last()[b].addr@ == s[b].addr@);
        }
        assert(s2.drop_last() =~= s.drop_last().update(i, e));
        lemma_map_of_update(s.drop_last(), i, e);
        assert(s2.last() == s.last());
        assert(s[i].addr@ != s.last().addr@);
        assert(map_of(s2) == map_of(s.drop_last()).insert(e.addr@, e.rec@).insert(
            s.last().addr@,
            s.last().rec@,
        ));
        assert(map_of(s.drop_last()).insert(e.addr@, e.rec@).insert(s.last().addr@, s.last().rec@)
            =~= map_of(s.drop_last()).insert(s.last().addr@, s.last().rec@).insert(
            e.addr@,
            e.rec@,
        ));
    }
}

/// A byte-for-byte copy.
fn clone_bytes(src: &Vec<u8>) -> (r: Vec<u8>)
    ensures
        r@ == src@,
{
    let mut v: Vec<u8> = Vec::new();
    let mut i: usize = 0;
    while i < src.len()
        invariant
            i <= src.len(),
            v@ == src@.subrange(0, i as int),
        decreases src.len() - i,
    {
        v.push(src[i]);
        assert(src@.subrange(0, i as int).push(src@[i as int]) =~= src@.subrange(0, i + 1));
        i = i + 1;
    }
    assert(src@.subrange(0, src@.len() as int) =~= src@);
    v
}

/// Byte-for-byte equality of two addresses or identities.
fn bytes_eq(a: &Vec<u8>, b: &Vec<u8>) -> (r: bool)
    ensures
        r <==> a@ == b@,
{
    if a.len() != b.len() {
        assert(a@ != b@) by {
            assert(a@.len() != b@.len());
        }
        return false;
    }
    let mut i: usize = 0;
    while i < a.len()
        invariant
            i <= a.len(),
            a@.len() == b@.len(),
            forall|j: int| 0 <= j < i ==> a@[j] == b@[j],
        decreases a.len() - i,
    {
        if a[i] != b[i] {
            return false;
        }
        i = i + 1;
    }
    assert(a@ =~= b@);
    true
}

/// The record store: the shared state that the three operations run against.
pub struct Ledger {
    entries: Vec<Entry>,
}

impl View for Ledger {
    type V = Map<Seq<u8>, RecordV>;

    closed spec fn view(&self) -> Map<Seq<u8>, RecordV> {
        map_of(self.entries@)
    }
}

impl Ledger {
    /// Internal well-formedness: slot addresses are unique and the map view
    /// satisfies the record-store invariant.
    pub closed spec fn inv(&self) -> bool {
        unique_addrs(self.entries@) && map_inv(self@)
    }

    /// An empty store.
    pub fn new() -> (l: Ledger)
        ensures
            l.inv(),
            l@ == Map::<Seq<u8>, RecordV>::empty(),
    {
        let l = Ledger { entries: Vec::new() };
        proof {
            lemma_empty_map_inv();
        }
        l
    }

    /// Index of the slot at address `a`, if the address is occupied.
    fn find(&self, a: &Vec<u8>) -> (r: Option<usize>)
        ensures
            match r {
                Some(i) => i < self.entries@.len() && self.entries@[i as int].addr@ == a@
                    && self@.contains_key(a@),
                None => !self@.contains_key(a@),
            },
    {
        proof {
            lemma_map_of_contains(self.entries@, a@);
        }
        let mut i: usize = 0;
        while i < self.entries.len()
            invariant
                i <= self.entries@.len(),
                forall|j: int| 0 <= j < i ==> self.entries@[j].addr@ != a@,
                self@.contains_key(a@) <==> exists|j: int|
                    0 <= j < self.entries@.len() && self.entries@[j].addr@ == a@,
            decreases self.entries@.len() - i,
        {
            if bytes_eq(&self.entries[i].addr, a) {
                return Some(i);
            }
            i = i + 1;
        }
        None
    }
}

proof fn lemma_empty_map_inv()
    ensures
        map_inv(Map::<Seq<u8>, RecordV>::empty()),
{
    assert(Map::<Seq<u8>, RecordV>::empty().dom() =~= Set::<Seq<u8>>::empty());
}

/// Operation context for `init_creator_state`: the platform-verified
/// assertion that `creator` authorized the call.
pub struct InitCreatorState {
    pub creator: Vec<u8>,
}

/// Operation context for `create_proposal`: the platform-verified assertion
/// that `creator` authorized the call.
pub struct CreateProposal {
    pub creator: Vec<u8>,
}

/// Operation context for `vote`: the proposal address the vote is for, and
/// the platform-verified assertion that `voter` authorized the call.
pub struct Vote {
    pub proposal: Vec<u8>,
    pub voter: Vec<u8>,
}

impl Ledger {
    /// Creates the registry record of a creator, once: a second call for the
    /// same creator finds the address occupied and fails with
    /// `AlreadyExists`, leaving the store unchanged.
    pub fn init_creator_state(&mut self, ctx: InitCreatorState) -> (r: Result<(), ErrorCode>)
        requires
            old(self).inv(),
            ctx.creator@.len() == IDENTITY_LEN,
        ensures
            final(self).inv(),
            (r, final(self)@) == init_creator_state_spec(old(self)@, ctx.creator@),
    {
        let kc = derive_creator_state_addr(&ctx.creator);
        match self.find(&kc) {
            Some(_) => Err(ErrorCode::AlreadyExists),
            None => {
                let ghost s0 = self.entries@;
                let e = Entry { addr: kc, rec: Record::Creator(CreatorState { next_index: 0 }) };
                let ghost eg = e;
                self.entries.push(e);
                proof {
                    lemma_map_of_push(s0, eg);
                    lemma_init_preserves_inv(old(self)@, ctx.creator@);
                }
                Ok(())
            },
        }
    }

    /// Creates the proposal of `ctx.creator` at `index` and advances the
    /// registry counter, as one atomic unit. The question must fit the
    /// fixed slot, the deadline must lie after `now` (the time oracle's
    /// value), and `index` must equal the registry's current `next_index`.
    pub fn create_proposal(
        &mut self,
        ctx: CreateProposal,
        question: Vec<u8>,
        ends_at: i64,
        index: u32,
        now: i64,
    ) -> (r: Result<(), ErrorCode>)
        requires
            old(self).inv(),
            ctx.creator@.len() == IDENTITY_LEN,
        ensures
            final(self).inv(),
            (r, final(self)@) == create_proposal_spec(
                old(self)@,
                ctx.creator@,
                question@,
                ends_at,
                index,
                now,
            ),
    {
        if question.len() > MAX_QUESTION_LEN {
            return Err(ErrorCode::QuestionTooLong);
        }
        if ends_at <= now {
            return Err(ErrorCode::AlreadyEnded);
        }
        let kc = derive_creator_state_addr(&ctx.creator);
        let i = match self.find(&kc) {
            Some(i) => i,
            None => {
                return Err(ErrorCode::NotFound);
            },
        };
        proof {
            lemma_map_of_index(self.entries@, i as int);
        }
        let next = match &self.entries[i].rec {
            Record::Creator(st) => st.next_index,
            _ => {
                return Err(ErrorCode::NotFound);
            },
        };
        if index != next {
            return Err(ErrorCode::IndexMismatch);
        }
        let next2 = match next.checked_add(1) {
            Some(n) => n,
            None => {
                return Err(ErrorCode::Overflow);
            },
        };
        let kp = derive_proposal_addr(&ctx.creator, index);
        match self.find(&kp) {
            Some(_) => {
                return Err(ErrorCode::AlreadyExists);
            },
            None => {},
        };
        let ghost m0 = self@;
        let ghost s0 = self.entries@;
        let e = Entry {
            addr: kp,
            rec: Record::Proposal(Proposal {
                creator: ctx.creator,
                question,
                yes_votes: 0,
                no_votes: 0,
                created_at: now,
                ends_at,
            }),
        };
        let ghost eg = e;
        self.entries.push(e);
        proof {
            lemma_map_of_push(s0, eg);
        }
        let ghost s1 = self.entries@;
        let mut ent = self.entries.remove(i);
        ent.rec = Record::Creator(CreatorState { next_index: next2 });
        let ghost eg2 = ent;
        self.entries.insert(i, ent);
        proof {
            assert(self.entries@ =~= s1.update(i as int, eg2));
            lemma_map_of_update(s1, i as int, eg2);
            lemma_create_preserves_inv(m0, ctx.creator@, question@, ends_at, index, now);
        }
        Ok(())
    }

    /// Casts the one vote of `ctx.voter` on the proposal stored at
    /// `ctx.proposal`: creates the vote receipt at its derived address and
    /// increments the chosen tally, as one atomic unit. An occupied receipt
    /// address means the voter has already voted; a `now` past the deadline
    /// means the proposal can no longer be mutated.
    pub fn vote(&mut self, ctx: Vote, yes: bool, now: i64) -> (r: Result<(), ErrorCode>)
        requires
            old(self).inv(),
            ctx.voter@.len() == IDENTITY_LEN,
        ensures
            final(self).inv(),
            (r, final(self)@) == vote_spec(old(self)@, ctx.proposal@, ctx.voter@, yes, now),
    {
        let i = match self.find(&ctx.proposal) {
            Some(i) => i,
            None => {
                return Err(ErrorCode::NotFound);
            },
        };
        proof {
            lemma_map_of_index(self.entries@, i as int);
        }
        let (p_ends, p_yes, p_no) = match &self.entries[i].rec {
            Record::Proposal(p) => (p.ends_at, p.yes_votes, p.no_votes),
            _ => {
                return Err(ErrorCode::NotFound);
            },
        };
        if now > p_ends {
            return Err(ErrorCode::AlreadyEnded);
        }
        let kv = derive_vote_addr(&ctx.proposal, &ctx.voter);
        match self.find(&kv) {
            Some(_) => {
                return Err(ErrorCode::AlreadyVoted);
            },
            None => {},
        };
        let tally = if yes {
            p_yes
        } else {
            p_no
        };
        let new_tally = match tally.checked_add(1) {
            Some(t) => t,
            None => {
                return Err(ErrorCode::Overflow);
            },
        };
        let ghost m0 = self@;
        let ghost s0 = self.entries@;
        let e = Entry {
            addr: kv,
            rec: Record::Receipt(VoteReceipt {
                proposal: ctx.proposal,
                voter: ctx.voter,
                has_voted: true,
            }),
        };
        let ghost eg = e;
        self.entries.push(e);
        proof {
            lemma_map_of_push(s0, eg);
        }
        let ghost s1 = self.entries@;
        let mut ent = self.entries.remove(i);
        match &mut ent.rec {
            Record::Proposal(p) => {
                if yes {
                    p.yes_votes = new_tally;
                } else {
                    p.no_votes = new_tally;
                }
            },
            _ => {},
        }
        let ghost eg2 = ent;
        self.entries.insert(i, ent);
        proof {
            assert(self.entries@ =~= s1.update(i as int, eg2));
            lemma_map_of_update(s1, i as int, eg2);
            lemma_vote_preserves_inv(m0, eg2.addr@, ctx.voter@, yes, now);
        }
        Ok(())
    }
}

impl Ledger {
    /// The registry counter of a creator, or `None` while no registry record
    /// exists for it.
    pub fn next_index_of(&self, creator: &Vec<u8>) -> (r: Option<u32>)
        requires
            self.inv(),
            creator@.len() == IDENTITY_LEN,
        ensures
            match r {
                Some(n) => self@.contains_key(creator_state_addr(creator@))
                    && self@[creator_state_addr(creator@)] == RecordV::Creator(
                    CreatorStateV { next_index: n },
                ),
                None => !self@.contains_key(creator_state_addr(creator@)),
            },
    {
        let kc = derive_creator_state_addr(creator);
        match self.find(&kc) {
            None => None,
            Some(i) => {
                proof {
                    lemma_map_of_index(self.entries@, i as int);
                    assert(kc@.len() == 45);
                    assert(record_ok(self@, kc@, self@[kc@]));
                }
                match &self.entries[i].rec {
                    Record::Creator(st) => Some(st.next_index),
                    _ => {
                        proof {
                            assert(false);
                        }
                        vstd::pervasive::unreached()
                    },
                }
            },
        }
    }

    /// The yes and no tallies of the proposal stored at `proposal`, or
    /// `None` if no proposal record lives at that address.
    pub fn proposal_tallies(&self, proposal: &Vec<u8>) -> (r: Option<(u64, u64)>)
        requires
            self.inv(),
        ensures
            match r {
                Some(t) => self@.contains_key(proposal@) && self@[proposal@] is Proposal
                    && t.0 == self@[proposal@]->Proposal_0.yes_votes && t.1 == self@[
                    proposal@
                ]->Proposal_0.no_votes,
                None => !(self@.contains_key(proposal@) && self@[proposal@] is Proposal),
            },
    {
        match self.find(proposal) {
            None => None,
            Some(i) => {
                proof {
                    lemma_map_of_index(self.entries@, i as int);
                }
                match &self.entries[i].rec {
                    Record::Proposal(p) => Some((p.yes_votes, p.no_votes)),
                    _ => None,
                }
            },
        }
    }

    /// The write-once content of the proposal stored at `proposal`: its
    /// question and its two timestamps, or `None` if no proposal record
    /// lives at that address.
    pub fn proposal_content(&self, proposal: &Vec<u8>) -> (r: Option<(Vec<u8>, i64, i64)>)
        requires
            self.inv(),
        ensures
            match r {
                Some(t) => self@.contains_key(proposal@) && self@[proposal@] is Proposal
                    && t.0@ == self@[proposal@]->Proposal_0.question && t.1 == self@[
                    proposal@
                ]->Proposal_0.created_at && t.2 == self@[proposal@]->Proposal_0.ends_at,
                None => !(self@.contains_key(proposal@) && self@[proposal@] is Proposal),
            },
    {
        match self.find(proposal) {
            None => None,
            Some(i) => {
                proof {
                    lemma_map_of_index(self.entries@, i as int);
                }
                match &self.entries[i].rec {
                    Record::Proposal(p) => Some((clone_bytes(&p.question), p.created_at, p.ends_at)),
                    _ => None,
                }
            },
        }
    }

    /// Whether a vote receipt of `voter` exists on the proposal stored at
    /// `proposal`: the "has voted" flag is the record's existence.
    pub fn has_voted(&self, proposal: &Vec<u8>, voter: &Vec<u8>) -> (r: bool)
        requires
            self.inv(),
        ensures
            r == self@.contains_key(vote_addr(proposal@, voter@)),
    {
        let kv = derive_vote_addr(proposal, voter);
        match self.find(&kv) {
            Some(_) => true,
            None => false,
        }
    }
}

/// `a` is the receipt address of some voter on the proposal stored at `k`.
pub open spec fn is_vote_key_for(a: Seq<u8>, k: Seq<u8>) -> bool {
    a.len() == 4 + k.len() + 32 && a == vote_addr(k, a.subrange(4 + k.len() as int, a.len() as int))
}

/// The receipt addresses that exist in `m` for the proposal stored at `k`:
/// one per distinct voter who has successfully voted on it.
pub open spec fn receipts_for(m: Map<Seq<u8>, RecordV>, k: Seq<u8>) -> Set<Seq<u8>> {
    m.dom().filter(|a: Seq<u8>| is_vote_key_for(a, k))
}

/// What must hold of the record `r` stored at address `k` of `m`.
///
/// Identities are 32 bytes wide, so the three namespaces produce addresses
/// of three distinct lengths: 13 + 32 = 45 for a registry record,
/// 8 + 32 + 4 = 44 for a proposal, and 4 + 44 + 32 = 80 for a receipt
/// (whose middle field is a proposal address). The kind of the record at an
/// address is therefore determined by the address alone.
pub open spec fn record_ok(m: Map<Seq<u8>, RecordV>, k: Seq<u8>, r: RecordV) -> bool {
    match r {
        RecordV::Creator(st) => k.len() == 45,
        RecordV::Proposal(p) => {
            &&& k.len() == 44
            &&& p.creator.len() == 32
            &&& (exists|i: u32| k == proposal_addr(p.creator, i))
            &&& p.question.len() <= 256
            &&& p.created_at < p.ends_at
            &&& p.yes_votes + p.no_votes == receipts_for(m, k).len()
        },
        RecordV::Receipt(rc) => {
            &&& k.len() == 80
            &&& rc.has_voted
            &&& rc.proposal.len() == 44
            &&& rc.voter.len() == 32
            &&& k == vote_addr(rc.proposal, rc.voter)
            &&& m.contains_key(rc.proposal)
            &&& m[rc.proposal] is Proposal
        },
    }
}

/// The registry of each creator counts its proposals exactly: the proposal
/// at index `i` exists if and only if the registry exists and has advanced
/// past `i`.
pub open spec fn registry_complete(m: Map<Seq<u8>, RecordV>) -> bool {
    forall|c: Seq<u8>, i: u32|
        c.len() == 32 ==> (#[trigger] m.contains_key(proposal_addr(c, i)) <==> (
        m.contains_key(creator_state_addr(c)) && (m[creator_state_addr(c)] matches
            RecordV::Creator(st) && i < st.next_index)))
}

/// The record-store invariant: established by `Ledger::new` and preserved by
/// every operation.
pub open spec fn map_inv(m: Map<Seq<u8>, RecordV>) -> bool {
    &&& m.dom().finite()
    &&& forall|k: Seq<u8>| #[trigger] m.contains_key(k) ==> record_ok(m, k, m[k])
    &&& registry_complete(m)
}

/// The receipt address of `voter` on `proposal` is a vote key for `proposal`.
pub proof fn lemma_vote_addr_is_vote_key(p: Seq<u8>, v: Seq<u8>)
    requires
        v.len() == 32,
    ensures
        is_vote_key_for(vote_addr(p, v), p),
        vote_addr(p, v).subrange(4 + p.len() as int, vote_addr(p, v).len() as int) == v,
{
    let a = vote_addr(p, v);
    assert(a.len() == 4 + p.len() + 32);
    let s = a.subrange(4 + p.len() as int, a.len() as int);
    assert forall|i: int| 0 <= i < 32 implies s[i] == v[i] by {
        assert(a[4 + p.len() + i] == v[i]);
    }
    assert(s =~= v);
}

/// A vote key determines the proposal it refers to: the same receipt address
/// cannot count for two distinct proposals.
pub proof fn lemma_vote_key_determines(a: Seq<u8>, k: Seq<u8>, p: Seq<u8>, v: Seq<u8>)
    requires
        is_vote_key_for(a, k),
        a == vote_addr(p, v),
        v.len() == 32,
    ensures
        k == p,
        a.subrange(4 + k.len() as int, a.len() as int) == v,
{
    assert(a.len() == 4 + p.len() + v.len());
    assert(k.len() == p.len());
    let s = a.subrange(4 + k.len() as int, a.len() as int);
    assert(s.len() == 32);
    lemma_vote_addr_injective(k, s, p, v);
}

/// The transition that `Ledger::init_creator_state` makes: the result it
/// returns and the map it leaves behind.
pub open spec fn init_creator_state_spec(m: Map<Seq<u8>, RecordV>, creator: Seq<u8>) -> (Result<
    (),
    ErrorCode,
>, Map<Seq<u8>, RecordV>) {
    let kc = creator_state_addr(creator);
    if m.contains_key(kc) {
        (Err(ErrorCode::AlreadyExists), m)
    } else {
        (Ok(()), m.insert(kc, RecordV::Creator(CreatorStateV { next_index: 0 })))
    }
}

/// The transition that `Ledger::create_proposal` makes.
pub open spec fn create_proposal_spec(
    m: Map<Seq<u8>, RecordV>,
    creator: Seq<u8>,
    question: Seq<u8>,
    ends_at: i64,
    index: u32,
    now: i64,
) -> (Result<(), ErrorCode>, Map<Seq<u8>, RecordV>) {
    let kc = creator_state_addr(creator);
    let kp = proposal_addr(creator, index);
    if question.len() > MAX_QUESTION_LEN {
        (Err(ErrorCode::QuestionTooLong), m)
    } else if ends_at <= now {
        (Err(ErrorCode::AlreadyEnded), m)
    } else if !(m.contains_key(kc) && m[kc] is Creator) {
        (Err(ErrorCode::NotFound), m)
    } else if index != m[kc]->Creator_0.next_index {
        (Err(ErrorCode::IndexMismatch), m)
    } else if m[kc]->Creator_0.next_index == 0xffff_ffffu32 {
        (Err(ErrorCode::Overflow), m)
    } else if m.contains_key(kp) {
        (Err(ErrorCode::AlreadyExists), m)
    } else {
        (Ok(()), m.insert(
            kp,
            RecordV::Proposal(ProposalV {
                creator,
                question,
                yes_votes: 0,
                no_votes: 0,
                created_at: now,
                ends_at,
            }),
        ).insert(
            kc,
            RecordV::Creator(CreatorStateV { next_index: (m[kc]->Creator_0.next_index + 1) as u32 }),
        ))
    }
}

/// The transition that `Ledger::vote` makes.
pub open spec fn vote_spec(
    m: Map<Seq<u8>, RecordV>,
    proposal: Seq<u8>,
    voter: Seq<u8>,
    yes: bool,
    now: i64,
) -> (Result<(), ErrorCode>, Map<Seq<u8>, RecordV>) {
    let kv = vote_addr(proposal, voter);
    if !(m.contains_key(proposal) && m[proposal] is Proposal) {
        (Err(ErrorCode::NotFound), m)
    } else if now > m[proposal]->Proposal_0.ends_at {
        (Err(ErrorCode::AlreadyEnded), m)
    } else if m.contains_key(kv) {
        (Err(ErrorCode::AlreadyVoted), m)
    } else if (if yes {
        m[proposal]->Proposal_0.yes_votes
    } else {
        m[proposal]->Proposal_0.no_votes
    }) == 0xffff_ffff_ffff_ffffu64 {
        (Err(ErrorCode::Overflow), m)
    } else {
        let p = m[proposal]->Proposal_0;
        (Ok(()), m.insert(
            kv,
            RecordV::Receipt(VoteReceiptV { proposal, voter, has_voted: true }),
        ).insert(
            proposal,
            RecordV::Proposal(ProposalV {
                creator: p.creator,
                question: p.question,
                yes_votes: if yes {
                    (p.yes_votes + 1) as u64
                } else {
                    p.yes_votes
                },
                no_votes: if yes {
                    p.no_votes
                } else {
                    (p.no_votes + 1) as u64
                },
                created_at: p.created_at,
                ends_at: p.ends_at,
            }),
        ))
    }
}

/// Creating a registry record preserves the record-store invariant.
pub proof fn lemma_init_preserves_inv(m: Map<Seq<u8>, RecordV>, c: Seq<u8>)
    requires
        map_inv(m),
        c.len() == 32,
    ensures
        map_inv(init_creator_state_spec(m, c).1),
{
    let kc = creator_state_addr(c);
    assert(kc.len() == 45);
    if !m.contains_key(kc) {
        let m2 = init_creator_state_spec(m, c).1;
        assert(m2.dom() =~= m.dom().insert(kc));
        assert forall|k: Seq<u8>| #[trigger] m2.contains_key(k) implies record_ok(m2, k, m2[k]) by {
            if k != kc {
                assert(m.contains_key(k));
                assert(record_ok(m, k, m[k]));
                match m[k] {
                    RecordV::Creator(st) => {},
                    RecordV::Proposal(p) => {
                        assert(receipts_for(m2, k) =~= receipts_for(m, k));
                    },
                    RecordV::Receipt(rc) => {
                        assert(rc.proposal.len() == 44);
                        assert(m2[rc.proposal] == m[rc.proposal]);
                    },
                }
            }
        }
        assert forall|c2: Seq<u8>, i: u32| c2.len() == 32 implies (#[trigger] m2.contains_key(
            proposal_addr(c2, i),
        ) <==> (m2.contains_key(creator_state_addr(c2)) && (m2[creator_state_addr(c2)] matches
            RecordV::Creator(st) && i < st.next_index))) by {
            let kp2 = proposal_addr(c2, i);
            assert(kp2.len() == 8 + c2.len() + 4);
            assert(m2.contains_key(kp2) == m.contains_key(kp2));
            if creator_state_addr(c2) == kc {
                lemma_creator_state_addr_injective(c2, c);
                assert(!m.contains_key(creator_state_addr(c2)));
                assert(!m.contains_key(kp2));
                assert(m2[kc]->Creator_0.next_index == 0);
            }
        }
        assert(registry_complete(m2));
    }
}

/// Creating a proposal preserves the record-store invariant.
pub proof fn lemma_create_preserves_inv(
    m: Map<Seq<u8>, RecordV>,
    c: Seq<u8>,
    q: Seq<u8>,
    ends_at: i64,
    index: u32,
    now: i64,
)
    requires
        map_inv(m),
        c.len() == 32,
    ensures
        map_inv(create_proposal_spec(m, c, q, ends_at, index, now).1),
{
    let kc = creator_state_addr(c);
    let kp = proposal_addr(c, index);
    assert(kc.len() == 45);
    assert(kp.len() == 44);
    let r = create_proposal_spec(m, c, q, ends_at, index, now);
    if r.0 is Ok {
        let st = m[kc]->Creator_0;
        let m2 = r.1;
        assert(m2.dom() =~= m.dom().insert(kp));
        assert forall|k: Seq<u8>| #[trigger] m2.contains_key(k) implies record_ok(m2, k, m2[k]) by {
            if k == kp {
                assert(proposal_addr(c, index) == kp);
                assert(receipts_for(m2, kp) =~= Set::<Seq<u8>>::empty()) by {
                    assert forall|a: Seq<u8>| !(m2.dom().contains(a) && is_vote_key_for(a, kp)) by {
                        if m2.dom().contains(a) && is_vote_key_for(a, kp) {
                            assert(a.len() == 80);
                            assert(m.contains_key(a));
                            assert(record_ok(m, a, m[a]));
                            match m[a] {
                                RecordV::Creator(st2) => {
                                    assert(false);
                                },
                                RecordV::Proposal(p2) => {
                                    assert(false);
                                },
                                RecordV::Receipt(rc) => {
                                    lemma_vote_key_determines(a, kp, rc.proposal, rc.voter);
                                    assert(m.contains_key(kp));
                                    assert(false);
                                },
                            }
                        }
                    }
                }
                assert(receipts_for(m2, kp).len() == 0);
            } else if k != kc {
                assert(m.contains_key(k));
                assert(record_ok(m, k, m[k]));
                match m[k] {
                    RecordV::Creator(st2) => {},
                    RecordV::Proposal(p2) => {
                        assert(m2[k] == m[k]);
                        assert(receipts_for(m2, k) =~= receipts_for(m, k));
                    },
                    RecordV::Receipt(rc) => {
                        assert(rc.proposal.len() == 44);
                        assert(m.contains_key(rc.proposal));
                        assert(rc.proposal != kp);
                        assert(m2[rc.proposal] == m[rc.proposal]);
                    },
                }
            }
        }
        assert forall|c2: Seq<u8>, i2: u32| c2.len() == 32 implies (#[trigger] m2.contains_key(
            proposal_addr(c2, i2),
        ) <==> (m2.contains_key(creator_state_addr(c2)) && (m2[creator_state_addr(c2)] matches
            RecordV::Creator(st2) && i2 < st2.next_index))) by {
            let kp2 = proposal_addr(c2, i2);
            let kc2 = creator_state_addr(c2);
            assert(kp2.len() == 44);
            assert(kc2.len() == 45);
            if c2 == c {
                assert(kc2 == kc);
                assert(m2[kc]->Creator_0.next_index == st.next_index + 1);
                if i2 == index {
                    assert(m2.contains_key(kp2));
                } else {
                    if kp2 == kp {
                        lemma_proposal_addr_injective(c2, i2, c, index);
                        assert(false);
                    }
                    assert(m2.contains_key(kp2) == m.contains_key(kp2));
                    assert(m.contains_key(kp2) <==> i2 < st.next_index);
                }
            } else {
                if kc2 == kc {
                    lemma_creator_state_addr_injective(c2, c);
                    assert(false);
                }
                if kp2 == kp {
                    lemma_proposal_addr_injective(c2, i2, c, index);
                    assert(false);
                }
                assert(m2.contains_key(kp2) == m.contains_key(kp2));
                assert(m2.contains_key(kc2) == m.contains_key(kc2));
                if m.contains_key(kc2) {
                    assert(m2[kc2] == m[kc2]);
                }
            }
        }
        assert(registry_complete(m2));
    }
}

/// Casting a vote preserves the record-store invariant.
pub proof fn lemma_vote_preserves_inv(
    m: Map<Seq<u8>, RecordV>,
    p: Seq<u8>,
    v: Seq<u8>,
    yes: bool,
    now: i64,
)
    requires
        map_inv(m),
        v.len() == 32,
    ensures
        map_inv(vote_spec(m, p, v, yes, now).1),
{
    let kv = vote_addr(p, v);
    let r = vote_spec(m, p, v, yes, now);
    if r.0 is Ok {
        let pr = m[p]->Proposal_0;
        let m2 = r.1;
        assert(record_ok(m, p, m[p]));
        assert(p.len() == 44);
        assert(kv.len() == 4 + p.len() + 32);
        assert(m2.dom() =~= m.dom().insert(kv));
        lemma_vote_addr_is_vote_key(p, v);
        assert forall|k: Seq<u8>| #[trigger] m2.contains_key(k) implies record_ok(m2, k, m2[k]) by {
            if k == kv {
                assert(m2[kv] is Receipt);
                assert(m2.contains_key(p));
                assert(m2[p] is Proposal);
            } else if k == p {
                let pr2 = m2[p]->Proposal_0;
                let i0 = choose|i: u32| p == proposal_addr(pr.creator, i);
                assert(p == proposal_addr(pr2.creator, i0));
                assert(receipts_for(m2, p) =~= receipts_for(m, p).insert(kv));
                m.dom().lemma_len_filter(|a: Seq<u8>| is_vote_key_for(a, p));
                vstd::set::axiom_set_insert_len::<Seq<u8>>(receipts_for(m, p), kv);
                assert(!receipts_for(m, p).contains(kv));
                assert(receipts_for(m2, p).len() == receipts_for(m, p).len() + 1);
                assert(pr2.yes_votes + pr2.no_votes == pr.yes_votes + pr.no_votes + 1);
            } else {
                assert(m.contains_key(k));
                assert(record_ok(m, k, m[k]));
                match m[k] {
                    RecordV::Creator(st2) => {},
                    RecordV::Proposal(p2) => {
                        assert(m2[k] == m[k]);
                        assert(receipts_for(m2, k) =~= receipts_for(m, k)) by {
                            if is_vote_key_for(kv, k) {
                                lemma_vote_key_determines(kv, k, p, v);
                                assert(false);
                            }
                        }
                    },
                    RecordV::Receipt(rc) => {
                        assert(m2.contains_key(rc.proposal));
                        if rc.proposal == p {
                            assert(m2[rc.proposal] is Proposal);
                        } else {
                            assert(m2[rc.proposal] == m[rc.proposal]);
                        }
                    },
                }
            }
        }
        assert forall|c2: Seq<u8>, i2: u32| c2.len() == 32 implies (#[trigger] m2.contains_key(
            proposal_addr(c2, i2),
        ) <==> (m2.contains_key(creator_state_addr(c2)) && (m2[creator_state_addr(c2)] matches
            RecordV::Creator(st2) && i2 < st2.next_index))) by {
            let kp2 = proposal_addr(c2, i2);
            let kc2 = creator_state_addr(c2);
            assert(kp2.len() == 44);
            assert(kc2.len() == 45);
            assert(m2.contains_key(kp2) == m.contains_key(kp2));
            assert(m2.contains_key(kc2) == m.contains_key(kc2));
            if m.contains_key(kc2) {
                assert(m2[kc2] == m[kc2]);
            }
        }
        assert(registry_complete(m2));
    }
}

} // verus!
