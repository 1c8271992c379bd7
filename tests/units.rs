use tendermint::ext::{Block, OpaqueBlock, BlockNumber, Round};
use tendermint::fee::Fee;
use tendermint::machine::{prevote_decision, should_jump};
use tendermint::message::{commit_msg, Data, Message, Step, TendermintError};
use tendermint::message_log::MessageLog;
use tendermint::time::{RoundData, Timing};
use tendermint::weights::{ValidatorWeights, Weights};

fn blk(id: &[u8]) -> OpaqueBlock {
    let mut encoding = vec![id.len() as u8];
    encoding.extend_from_slice(id);
    OpaqueBlock { id: id.to_vec(), encoding }
}

fn weights(w: Vec<u64>) -> ValidatorWeights {
    ValidatorWeights::new(w).unwrap()
}

fn msg(sender: u16, round: u16, data: Data<OpaqueBlock>) -> Message<OpaqueBlock> {
    Message { sender, number: BlockNumber(1), round: Round(round), data }
}

#[test]
fn thresholds_of_four_equal_validators() {
    let w = weights(vec![1, 1, 1, 1]);
    assert_eq!(w.total_weight(), 4);
    assert_eq!(w.threshold(), 3);
    assert_eq!(w.fault_threshold(), 2);
}

#[test]
fn thresholds_of_seven_equal_validators() {
    let w = weights(vec![1; 7]);
    assert_eq!(w.threshold(), 5);
    assert_eq!(w.fault_threshold(), 3);
}

#[test]
fn thresholds_of_uneven_weights() {
    let w = weights(vec![5, 3, 2]);
    assert_eq!(w.total_weight(), 10);
    assert_eq!(w.threshold(), 7);
    assert_eq!(w.fault_threshold(), 4);
    assert_eq!(w.weight(1), 3);
    assert_eq!(w.weight(9), 0);
}

#[test]
fn weights_refused_when_empty_zero_or_too_large() {
    assert!(ValidatorWeights::new(vec![]).is_none());
    assert!(ValidatorWeights::new(vec![0, 0]).is_none());
    assert!(ValidatorWeights::new(vec![u64::MAX / 2, 1]).is_none());
    assert!(ValidatorWeights::new(vec![u64::MAX / 2]).is_some());
    assert!(ValidatorWeights::new(vec![0, 1]).is_some());
}

#[test]
fn proposer_is_weighted_round_robin() {
    let w = weights(vec![2, 1, 1]);
    // Slots 0 and 1 belong to validator 0, slot 2 to validator 1, slot 3 to validator 2.
    assert_eq!(w.proposer(BlockNumber(0), Round(0)), 0);
    assert_eq!(w.proposer(BlockNumber(1), Round(0)), 0);
    assert_eq!(w.proposer(BlockNumber(2), Round(0)), 1);
    assert_eq!(w.proposer(BlockNumber(3), Round(0)), 2);
    assert_eq!(w.proposer(BlockNumber(3), Round(1)), 0);
    assert_eq!(w.proposer(BlockNumber(1), Round(2)), 2);
}

#[test]
fn proposer_is_the_same_on_every_call() {
    let a = weights(vec![3, 1, 4, 1, 5]);
    let b = weights(vec![3, 1, 4, 1, 5]);
    for n in 0..20u32 {
        for r in 0..5u16 {
            assert_eq!(a.proposer(BlockNumber(n), Round(r)), b.proposer(BlockNumber(n), Round(r)));
        }
    }
}

#[test]
fn round_ends_grow_by_round_length() {
    let mut t = Timing::new(100, 6);
    assert_eq!(t.get(Round(0)), Some(108));
    assert_eq!(t.get(Round(1)), None);
    t.populate(Round(2));
    assert_eq!(t.end_time, vec![108, 118, 130]);
    assert_eq!(t.start(Round(2)), 118);
    for r in 1..t.end_time.len() {
        assert_eq!(t.end_time[r], t.end_time[r - 1] + 6 + 2 * (r as u64 + 1));
    }
}

#[test]
fn round_ending_at_finds_the_round() {
    let t = Timing::new(100, 6);
    assert_eq!(t.round_ending_at(130), Some(Round(2)));
    assert_eq!(t.round_ending_at(108), Some(Round(0)));
    assert_eq!(t.round_ending_at(129), None);
    assert_eq!(t.round_ending_at(50), None);
}

#[test]
fn step_deadlines_within_round() {
    let mut r = RoundData::new(Round(1), 108, 6);
    assert_eq!(r.timeout(Step::Propose), 110);
    assert_eq!(r.timeout(Step::Prevote), 112);
    assert_eq!(r.timeout(Step::Precommit), 118);
    assert_eq!(r.end_time(), 118);
    assert_eq!(r.next_timeout(), None);
    r.set_timeout(Step::Precommit);
    r.set_timeout(Step::Prevote);
    assert_eq!(r.next_timeout(), Some((Step::Prevote, 112)));
    r.remove_timeout(Step::Prevote);
    assert_eq!(r.next_timeout(), Some((Step::Precommit, 118)));
    // A tie goes to the earlier step.
    let mut tie = RoundData::new(Round(0), 100, 0);
    tie.set_timeout(Step::Precommit);
    tie.set_timeout(Step::Prevote);
    assert_eq!(tie.timeout(Step::Prevote), tie.timeout(Step::Precommit));
    assert_eq!(tie.next_timeout(), Some((Step::Prevote, 102)));
}

#[test]
fn commit_msg_is_end_time_then_id() {
    assert_eq!(commit_msg(1, &vec![0xaa, 0xbb]), vec![1, 0, 0, 0, 0, 0, 0, 0, 0xaa, 0xbb]);
    assert_eq!(
        commit_msg(0x0102030405060708, &vec![]),
        vec![8, 7, 6, 5, 4, 3, 2, 1]
    );
}

#[test]
fn message_encoding_is_exact() {
    let m = Message::<OpaqueBlock> {
        sender: 0x0102,
        number: BlockNumber(0x03040506),
        round: Round(7),
        data: Data::Prevote(Some(vec![0xee])),
    };
    assert_eq!(
        m.encode(),
        vec![2, 1, 6, 5, 4, 3, 7, 0, 1, 1, 1, 0, 0, 0, 0, 0, 0, 0, 0xee]
    );
    let p = Message {
        sender: 1,
        number: BlockNumber(2),
        round: Round(3),
        data: Data::Proposal(Some(Round(1)), blk(&[9, 8])),
    };
    assert_eq!(
        p.encode(),
        vec![
            1, 0, 2, 0, 0, 0, 3, 0, 0, 1, 1, 0, // header, proposal tag, valid round 1
            2, 0, 0, 0, 0, 0, 0, 0, 9, 8, // framed id
            3, 0, 0, 0, 0, 0, 0, 0, 2, 9, 8, // framed host encoding
        ]
    );
    let c = Message::<OpaqueBlock> {
        sender: 0,
        number: BlockNumber(1),
        round: Round(0),
        data: Data::Precommit(None),
    };
    assert_eq!(c.encode(), vec![0, 0, 1, 0, 0, 0, 0, 0, 2, 0]);
}

#[test]
fn precommit_encoding_separates_id_from_signature() {
    let a = Message::<OpaqueBlock> {
        sender: 0,
        number: BlockNumber(1),
        round: Round(0),
        data: Data::Precommit(Some((vec![1], vec![2, 3]))),
    };
    let b = Message::<OpaqueBlock> {
        sender: 0,
        number: BlockNumber(1),
        round: Round(0),
        data: Data::Precommit(Some((vec![1, 2], vec![3]))),
    };
    assert_ne!(a.encode(), b.encode());
    assert_eq!(
        a.encode(),
        vec![0, 0, 1, 0, 0, 0, 0, 0, 2, 1, 1, 0, 0, 0, 0, 0, 0, 0, 1, 2, 0, 0, 0, 0, 0, 0, 0, 2, 3]
    );
}

#[test]
fn data_equality_ignores_precommit_signature() {
    let a: Data<OpaqueBlock> = Data::Precommit(Some((vec![1], vec![10])));
    let b: Data<OpaqueBlock> = Data::Precommit(Some((vec![1], vec![20])));
    let c: Data<OpaqueBlock> = Data::Precommit(Some((vec![2], vec![10])));
    assert!(a.agrees_with(&b));
    assert!(!a.agrees_with(&c));
    assert!(!a.agrees_with(&Data::Prevote(Some(vec![1]))));
    assert_eq!(a.step(), Step::Precommit);
}

#[test]
fn log_replay_is_idempotent() {
    let mut log = MessageLog::<OpaqueBlock>::new();
    assert_eq!(log.log(msg(1, 0, Data::Prevote(Some(vec![1])))), Ok(true));
    assert_eq!(log.log(msg(1, 0, Data::Prevote(Some(vec![1])))), Ok(false));
    assert_eq!(log.entries.len(), 1);
}

#[test]
fn log_detects_equivocation_in_a_step() {
    let mut log = MessageLog::<OpaqueBlock>::new();
    assert_eq!(log.log(msg(2, 0, Data::Prevote(Some(vec![1])))), Ok(true));
    assert_eq!(log.log(msg(2, 0, Data::Prevote(None))), Err(TendermintError::Malicious(2)));
    assert_eq!(log.entries.len(), 1);
}

#[test]
fn log_detects_conflicting_precommits_across_rounds() {
    let mut log = MessageLog::<OpaqueBlock>::new();
    assert_eq!(log.log(msg(2, 0, Data::Precommit(Some((vec![1], vec![7]))))), Ok(true));
    assert_eq!(log.log(msg(2, 1, Data::Precommit(Some((vec![1], vec![8]))))), Ok(true));
    assert_eq!(
        log.log(msg(2, 2, Data::Precommit(Some((vec![3], vec![9]))))),
        Err(TendermintError::Malicious(2))
    );
    assert_eq!(log.log(msg(2, 2, Data::Precommit(None))), Ok(true));
}

#[test]
fn log_weights_and_consensus() {
    let w = weights(vec![1, 1, 1, 1]);
    let mut log = MessageLog::<OpaqueBlock>::new();
    log.log(msg(0, 0, Data::Prevote(Some(vec![1])))).unwrap();
    log.log(msg(1, 0, Data::Prevote(Some(vec![1])))).unwrap();
    log.log(msg(2, 0, Data::Prevote(None))).unwrap();
    log.log(msg(3, 0, Data::Precommit(None))).unwrap();
    let yes: Data<OpaqueBlock> = Data::Prevote(Some(vec![1]));
    assert_eq!(log.message_instances(&w, Round(0), &yes), (3, 2));
    assert_eq!(log.round_participation(&w, Round(0)), 4);
    assert_eq!(log.round_participation(&w, Round(1)), 0);
    assert!(!log.has_consensus(&w, Round(0), &yes));
    log.log(msg(3, 0, Data::Prevote(Some(vec![1])))).unwrap();
    assert!(log.has_consensus(&w, Round(0), &yes));
    assert!(log.has_participation(&w, Round(0), Step::Prevote));
    assert!(!log.has_participation(&w, Round(0), Step::Precommit));
    assert!(matches!(log.get(Round(0), 2, Step::Prevote), Some(Data::Prevote(None))));
    assert!(log.get(Round(0), 2, Step::Precommit).is_none());
}

#[test]
fn jump_needs_more_than_fault_threshold() {
    assert!(!should_jump(3, 3));
    assert!(should_jump(4, 3));
    assert!(!should_jump(0, 0));
}

#[test]
fn prevote_unlocks_on_newer_valid_round() {
    let x = vec![0xa];
    let y = vec![0xb];
    let locked = Some((Round(0), x.clone()));
    // Locked on X at round 0; Y has a prevote quorum at round 1, proposed with valid round 1.
    assert_eq!(prevote_decision(true, &y, &locked, Some(Round(1)), true), Some(Some(y.clone())));
    // Without the quorum witness no prevote is cast.
    assert_eq!(prevote_decision(true, &y, &locked, Some(Round(1)), false), None);
    // A lock newer than the valid round holds.
    let newer = Some((Round(2), x.clone()));
    assert_eq!(prevote_decision(true, &y, &newer, Some(Round(1)), true), Some(None));
    // Without a valid round, a lock on another block yields a nil prevote.
    assert_eq!(prevote_decision(true, &y, &locked, None, false), Some(None));
    // The locked block itself is prevoted.
    assert_eq!(prevote_decision(true, &x, &locked, None, false), Some(Some(x.clone())));
    // An invalid block is prevoted nil.
    assert_eq!(prevote_decision(false, &y, &None, None, false), Some(None));
}

#[test]
fn fee_is_rate_times_weight_less_one() {
    assert_eq!(Fee { per_weight: 10 }.calculate(3), 29);
    assert_eq!(Fee { per_weight: 1 }.calculate(1), 0);
}

#[test]
fn round_ends_fit_at_the_largest_start() {
    let mut t = Timing::new(tendermint::time::MAX_START_TIME, u32::MAX);
    t.populate(Round(u16::MAX));
    assert_eq!(t.end_time.len(), 65536);
    assert!(t.end_time.windows(2).all(|w| w[0] < w[1]));
}
