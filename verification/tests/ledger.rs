use cbs_dao::ledger::CreateProposal;
use cbs_dao::ledger::InitCreatorState;
use cbs_dao::ledger::Ledger;
use cbs_dao::ledger::Vote;
use cbs_dao::records::ErrorCode;

fn id32(b: u8) -> Vec<u8> {
    vec![b; 32]
}

fn init(l: &mut Ledger, creator: u8) -> Result<(), ErrorCode> {
    l.init_creator_state(InitCreatorState { creator: id32(creator) })
}

fn create(
    l: &mut Ledger,
    creator: u8,
    question: &str,
    ends_at: i64,
    index: u32,
    now: i64,
) -> Result<(), ErrorCode> {
    l.create_proposal(
        CreateProposal { creator: id32(creator) },
        question.as_bytes().to_vec(),
        ends_at,
        index,
        now,
    )
}

fn cast(l: &mut Ledger, proposal: &Vec<u8>, voter: u8, yes: bool, now: i64) -> Result<(), ErrorCode> {
    l.vote(Vote { proposal: proposal.clone(), voter: id32(voter) }, yes, now)
}

#[test]
fn full_scenario() {
    let t: i64 = 1_700_000_000;
    let mut l = Ledger::new();

    assert_eq!(init(&mut l, 7), Ok(()));
    assert_eq!(l.next_index_of(&id32(7)), Some(0));

    assert_eq!(create(&mut l, 7, "Adopt proposal X?", t + 3600, 0, t), Ok(()));
    assert_eq!(l.next_index_of(&id32(7)), Some(1));

    let p = cbs_dao::addr::derive_proposal_addr(&id32(7), 0);
    assert_eq!(l.proposal_tallies(&p), Some((0, 0)));

    assert_eq!(cast(&mut l, &p, 21, true, t + 10), Ok(()));
    assert_eq!(l.proposal_tallies(&p), Some((1, 0)));
    assert!(l.has_voted(&p, &id32(21)));

    assert_eq!(cast(&mut l, &p, 21, true, t + 20), Err(ErrorCode::AlreadyVoted));
    assert_eq!(l.proposal_tallies(&p), Some((1, 0)));

    assert_eq!(cast(&mut l, &p, 22, false, t + 3601), Err(ErrorCode::AlreadyEnded));
    assert_eq!(l.proposal_tallies(&p), Some((1, 0)));
    assert!(!l.has_voted(&p, &id32(22)));

    // Past the deadline the proposal is closed even to a voter with a
    // receipt: the deadline check comes first.
    assert_eq!(cast(&mut l, &p, 21, false, t + 3601), Err(ErrorCode::AlreadyEnded));
}

#[test]
fn proposal_content_is_stored_as_given_and_never_mutated() {
    let mut l = Ledger::new();
    assert_eq!(init(&mut l, 17), Ok(()));
    assert_eq!(create(&mut l, 17, "Keep the content?", 900, 0, 100), Ok(()));
    let p = cbs_dao::addr::derive_proposal_addr(&id32(17), 0);
    let want = (b"Keep the content?".to_vec(), 100i64, 900i64);
    assert_eq!(l.proposal_content(&p), Some(want.clone()));
    assert_eq!(cast(&mut l, &p, 71, true, 200), Ok(()));
    assert_eq!(cast(&mut l, &p, 72, false, 300), Ok(()));
    assert_eq!(l.proposal_content(&p), Some(want));
    assert_eq!(l.proposal_tallies(&p), Some((1, 1)));
}

#[test]
fn question_of_257_bytes_is_rejected_before_any_mutation() {
    let mut l = Ledger::new();
    assert_eq!(init(&mut l, 1), Ok(()));
    let long = "q".repeat(257);
    assert_eq!(create(&mut l, 1, &long, 1000, 0, 10), Err(ErrorCode::QuestionTooLong));
    assert_eq!(l.next_index_of(&id32(1)), Some(0));
    let p = cbs_dao::addr::derive_proposal_addr(&id32(1), 0);
    assert_eq!(l.proposal_tallies(&p), None);
}

#[test]
fn question_of_256_bytes_is_accepted() {
    let mut l = Ledger::new();
    assert_eq!(init(&mut l, 1), Ok(()));
    let exact = "q".repeat(256);
    assert_eq!(create(&mut l, 1, &exact, 1000, 0, 10), Ok(()));
    assert_eq!(l.next_index_of(&id32(1)), Some(1));
}

#[test]
fn stale_index_is_rejected_and_state_unchanged() {
    let mut l = Ledger::new();
    assert_eq!(init(&mut l, 3), Ok(()));
    assert_eq!(create(&mut l, 3, "first?", 1000, 1, 10), Err(ErrorCode::IndexMismatch));
    assert_eq!(l.next_index_of(&id32(3)), Some(0));
    assert_eq!(create(&mut l, 3, "first?", 1000, 0, 10), Ok(()));
    assert_eq!(create(&mut l, 3, "again at zero?", 1000, 0, 10), Err(ErrorCode::IndexMismatch));
    assert_eq!(l.next_index_of(&id32(3)), Some(1));
}

#[test]
fn second_initialization_is_rejected() {
    let mut l = Ledger::new();
    assert_eq!(init(&mut l, 5), Ok(()));
    assert_eq!(init(&mut l, 5), Err(ErrorCode::AlreadyExists));
    assert_eq!(l.next_index_of(&id32(5)), Some(0));
    assert_eq!(init(&mut l, 6), Ok(()));
}

#[test]
fn creation_without_registry_is_rejected() {
    let mut l = Ledger::new();
    assert_eq!(create(&mut l, 9, "no registry yet?", 1000, 0, 10), Err(ErrorCode::NotFound));
    assert_eq!(l.next_index_of(&id32(9)), None);
}

#[test]
fn deadline_must_lie_after_creation_time() {
    let mut l = Ledger::new();
    assert_eq!(init(&mut l, 2), Ok(()));
    assert_eq!(create(&mut l, 2, "ends now?", 500, 0, 500), Err(ErrorCode::AlreadyEnded));
    assert_eq!(create(&mut l, 2, "ended already?", 400, 0, 500), Err(ErrorCode::AlreadyEnded));
    assert_eq!(l.next_index_of(&id32(2)), Some(0));
}

#[test]
fn voting_on_missing_proposal_is_rejected() {
    let mut l = Ledger::new();
    let p = cbs_dao::addr::derive_proposal_addr(&id32(8), 0);
    assert_eq!(cast(&mut l, &p, 30, true, 10), Err(ErrorCode::NotFound));
    // A registry address never holds a proposal either.
    assert_eq!(init(&mut l, 8), Ok(()));
    let kc = cbs_dao::addr::derive_creator_state_addr(&id32(8));
    assert_eq!(cast(&mut l, &kc, 30, true, 10), Err(ErrorCode::NotFound));
}

#[test]
fn voting_exactly_at_the_deadline_is_permitted() {
    let mut l = Ledger::new();
    assert_eq!(init(&mut l, 4), Ok(()));
    assert_eq!(create(&mut l, 4, "boundary?", 1000, 0, 10), Ok(()));
    let p = cbs_dao::addr::derive_proposal_addr(&id32(4), 0);
    assert_eq!(cast(&mut l, &p, 40, true, 1000), Ok(()));
    assert_eq!(l.proposal_tallies(&p), Some((1, 0)));
    assert_eq!(cast(&mut l, &p, 41, true, 1001), Err(ErrorCode::AlreadyEnded));
}

#[test]
fn registry_counts_proposals_exactly() {
    let mut l = Ledger::new();
    assert_eq!(init(&mut l, 11), Ok(()));
    assert_eq!(create(&mut l, 11, "a?", 1000, 0, 10), Ok(()));
    assert_eq!(create(&mut l, 11, "b?", 1000, 1, 10), Ok(()));
    assert_eq!(create(&mut l, 11, "c?", 1000, 2, 10), Ok(()));
    assert_eq!(l.next_index_of(&id32(11)), Some(3));
    for i in 0..3u32 {
        let p = cbs_dao::addr::derive_proposal_addr(&id32(11), i);
        assert_eq!(l.proposal_tallies(&p), Some((0, 0)));
    }
    let beyond = cbs_dao::addr::derive_proposal_addr(&id32(11), 3);
    assert_eq!(l.proposal_tallies(&beyond), None);
    // Another creator's registry is untouched.
    assert_eq!(l.next_index_of(&id32(12)), None);
}

#[test]
fn distinct_voters_both_count() {
    let mut l = Ledger::new();
    assert_eq!(init(&mut l, 13), Ok(()));
    assert_eq!(create(&mut l, 13, "both?", 1000, 0, 10), Ok(()));
    let p = cbs_dao::addr::derive_proposal_addr(&id32(13), 0);
    assert_eq!(cast(&mut l, &p, 51, true, 20), Ok(()));
    assert_eq!(cast(&mut l, &p, 52, false, 30), Ok(()));
    assert_eq!(cast(&mut l, &p, 53, false, 40), Ok(()));
    assert_eq!(l.proposal_tallies(&p), Some((1, 2)));
    assert!(l.has_voted(&p, &id32(51)));
    assert!(l.has_voted(&p, &id32(52)));
    assert!(l.has_voted(&p, &id32(53)));
    assert!(!l.has_voted(&p, &id32(54)));
}

#[test]
fn tallies_are_kept_per_proposal() {
    let mut l = Ledger::new();
    assert_eq!(init(&mut l, 14), Ok(()));
    assert_eq!(create(&mut l, 14, "first?", 1000, 0, 10), Ok(()));
    assert_eq!(create(&mut l, 14, "second?", 1000, 1, 10), Ok(()));
    let p0 = cbs_dao::addr::derive_proposal_addr(&id32(14), 0);
    let p1 = cbs_dao::addr::derive_proposal_addr(&id32(14), 1);
    assert_eq!(cast(&mut l, &p0, 61, true, 20), Ok(()));
    assert_eq!(cast(&mut l, &p1, 61, false, 20), Ok(()));
    assert_eq!(l.proposal_tallies(&p0), Some((1, 0)));
    assert_eq!(l.proposal_tallies(&p1), Some((0, 1)));
}

#[test]
fn error_codes_are_stable() {
    assert_eq!(ErrorCode::QuestionTooLong.code(), 6000);
    assert_eq!(ErrorCode::AlreadyEnded.code(), 6001);
    assert_eq!(ErrorCode::AlreadyVoted.code(), 6002);
    assert_eq!(ErrorCode::Overflow.code(), 6003);
    assert_eq!(ErrorCode::IndexMismatch.code(), 6004);
    assert_eq!(ErrorCode::AlreadyExists.code(), 6005);
    assert_eq!(ErrorCode::NotFound.code(), 6006);
}
