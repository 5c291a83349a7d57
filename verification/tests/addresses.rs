use cbs_dao::addr::derive_creator_state_addr;
use cbs_dao::addr::derive_proposal_addr;
use cbs_dao::addr::derive_vote_addr;

fn id32(b: u8) -> Vec<u8> {
    vec![b; 32]
}

#[test]
fn derivation_is_deterministic() {
    assert_eq!(derive_creator_state_addr(&id32(1)), derive_creator_state_addr(&id32(1)));
    assert_eq!(derive_proposal_addr(&id32(1), 4), derive_proposal_addr(&id32(1), 4));
    let p = derive_proposal_addr(&id32(1), 4);
    assert_eq!(derive_vote_addr(&p, &id32(2)), derive_vote_addr(&p, &id32(2)));
}

#[test]
fn distinct_keys_get_distinct_addresses() {
    assert_ne!(derive_creator_state_addr(&id32(1)), derive_creator_state_addr(&id32(2)));
    assert_ne!(derive_proposal_addr(&id32(1), 0), derive_proposal_addr(&id32(1), 1));
    assert_ne!(derive_proposal_addr(&id32(1), 0), derive_proposal_addr(&id32(2), 0));
    let p = derive_proposal_addr(&id32(1), 0);
    assert_ne!(derive_vote_addr(&p, &id32(3)), derive_vote_addr(&p, &id32(4)));
    let q = derive_proposal_addr(&id32(1), 1);
    assert_ne!(derive_vote_addr(&p, &id32(3)), derive_vote_addr(&q, &id32(3)));
}

#[test]
fn namespaces_never_collide() {
    let c = id32(1);
    let kc = derive_creator_state_addr(&c);
    let kp = derive_proposal_addr(&c, 0);
    let kv = derive_vote_addr(&kp, &id32(2));
    assert_ne!(kc, kp);
    assert_ne!(kc, kv);
    assert_ne!(kp, kv);
}

#[test]
fn addresses_have_their_documented_layout() {
    let c = id32(9);
    let kc = derive_creator_state_addr(&c);
    assert_eq!(kc.len(), 13 + 32);
    assert_eq!(&kc[..13], b"creator_state");
    assert_eq!(&kc[13..], &c[..]);

    let kp = derive_proposal_addr(&c, 0x0403_0201);
    assert_eq!(kp.len(), 8 + 32 + 4);
    assert_eq!(&kp[..8], b"proposal");
    assert_eq!(&kp[8..40], &c[..]);
    assert_eq!(&kp[40..], &[0x01, 0x02, 0x03, 0x04]);

    let v = id32(7);
    let kv = derive_vote_addr(&kp, &v);
    assert_eq!(kv.len(), 4 + 44 + 32);
    assert_eq!(&kv[..4], b"vote");
    assert_eq!(&kv[4..48], &kp[..]);
    assert_eq!(&kv[48..], &v[..]);
}
