use tendermint::ext::{Block, OpaqueBlock, BlockError, BlockNumber, Network, Round};
use tendermint::machine::TendermintMachine;
use tendermint::message::{commit_msg, Commit, Data, Message, SignedMessage, Step, TendermintError};
use tendermint::weights::{ValidatorWeights, Weights};

fn blk(id: &[u8]) -> OpaqueBlock {
    let mut encoding = vec![id.len() as u8];
    encoding.extend_from_slice(id);
    OpaqueBlock { id: id.to_vec(), encoding }
}

/// A signature scheme for tests: a signature is the signer's index followed by the message.
fn sig_of(v: u16, msg: &[u8]) -> Vec<u8> {
    let mut s = v.to_le_bytes().to_vec();
    s.extend_from_slice(msg);
    s
}

struct TestNetwork {
    me: u16,
    verdict: Result<(), BlockError>,
    slashed: Vec<u16>,
    added: Vec<(OpaqueBlock, Commit)>,
}

impl TestNetwork {
    fn new(me: u16) -> TestNetwork {
        TestNetwork { me, verdict: Ok(()), slashed: vec![], added: vec![] }
    }
}

impl Network<OpaqueBlock> for TestNetwork {
    fn verify(&self, validator: u16, msg: &Vec<u8>, sig: &Vec<u8>) -> bool {
        *sig == sig_of(validator, msg)
    }

    fn validate(&mut self, _block: &OpaqueBlock) -> Result<(), BlockError> {
        self.verdict
    }

    fn sign(&mut self, msg: &Vec<u8>) -> Vec<u8> {
        sig_of(self.me, msg)
    }

    fn aggregate(&self, sigs: &Vec<Vec<u8>>) -> Vec<u8> {
        sigs.concat()
    }

    fn broadcast(&mut self, _msg: SignedMessage<OpaqueBlock>) {}

    fn slash(&mut self, validator: u16) {
        self.slashed.push(validator);
    }

    fn verify_commit(&self, id: &Vec<u8>, commit: &Commit) -> bool {
        let msg = commit_msg(commit.end_time, id);
        let sigs: Vec<Vec<u8>> = commit.validators.iter().map(|v| sig_of(*v, &msg)).collect();
        commit.signature == sigs.concat()
    }

    fn add_block(&mut self, block: OpaqueBlock, commit: Commit) -> OpaqueBlock {
        self.added.push((block, commit));
        blk(&[0x77])
    }
}

type Outcome = Result<Option<OpaqueBlock>, TendermintError>;

const A: u16 = 1;
const B: u16 = 2;
const C: u16 = 3;
const D: u16 = 0;

fn x() -> OpaqueBlock {
    blk(&[0x58])
}

fn y() -> OpaqueBlock {
    blk(&[0x59])
}

fn machine_of(n: usize, me: Option<u16>) -> TendermintMachine<OpaqueBlock> {
    let weights = ValidatorWeights::new(vec![1; n]).unwrap();
    TendermintMachine::new(weights, 6, (BlockNumber(0), 0), blk(&[0x50]), me)
}

fn send(
    m: &mut TendermintMachine<OpaqueBlock>,
    net: &mut TestNetwork,
    sender: u16,
    round: u16,
    data: Data<OpaqueBlock>,
) -> Outcome {
    m.message(net, Message { sender, number: BlockNumber(1), round: Round(round), data })
}

fn precommit(sender: u16, end_time: u64, block: &OpaqueBlock) -> Data<OpaqueBlock> {
    let id = block.id();
    let sig = sig_of(sender, &commit_msg(end_time, &id));
    Data::Precommit(Some((id, sig)))
}

/// Processes the local validator's queued messages, as the driver does before sending them.
fn run_own(m: &mut TendermintMachine<OpaqueBlock>, net: &mut TestNetwork) -> Vec<Outcome> {
    let mut out = vec![];
    while let Some(msg) = m.pop_queued() {
        out.push(m.message(net, msg));
    }
    out
}

fn last_queued(m: &TendermintMachine<OpaqueBlock>) -> &Message<OpaqueBlock> {
    m.queue.last().unwrap()
}

#[test]
fn happy_path_four_validators() {
    let mut m = machine_of(4, Some(B));
    let mut net = TestNetwork::new(B);
    assert_eq!(m.weights.proposer(BlockNumber(1), Round(0)), A);
    assert_eq!(m.weights.threshold(), 3);
    assert!(m.queue.is_empty());

    assert_eq!(send(&mut m, &mut net, A, 0, Data::Proposal(None, x())), Ok(None));
    assert!(matches!(&last_queued(&m).data, Data::Prevote(Some(id)) if *id == x().id()));
    assert_eq!(run_own(&mut m, &mut net), vec![Ok(None)]);

    assert_eq!(send(&mut m, &mut net, A, 0, Data::Prevote(Some(x().id()))), Ok(None));
    assert!(m.queue.is_empty());
    assert_eq!(send(&mut m, &mut net, C, 0, Data::Prevote(Some(x().id()))), Ok(None));
    assert_eq!(m.block.locked, Some((Round(0), x().id())));
    assert!(matches!(&last_queued(&m).data, Data::Precommit(Some((id, _))) if *id == x().id()));
    assert_eq!(m.block.round.step, Step::Precommit);
    assert_eq!(run_own(&mut m, &mut net), vec![Ok(None)]);

    let end = m.block.timing.end_time[0];
    assert_eq!(end, 8);
    assert_eq!(send(&mut m, &mut net, A, 0, precommit(A, end, &x())), Ok(None));
    assert_eq!(send(&mut m, &mut net, C, 0, precommit(C, end, &x())), Ok(Some(x())));

    let commit = m.build_commit(&net, Round(0), &x().id());
    assert_eq!(commit.end_time, 8);
    assert_eq!(commit.validators, vec![A, B, C]);
    assert!(net.verify_commit(&x().id(), &commit));
    let next = net.add_block(x(), commit);
    assert_eq!(net.added[0].0, x());
    m.reset(Round(0), next, Some(B));
    assert_eq!(m.block.number, BlockNumber(2));
    assert_eq!(m.block.timing.start_time, 8);
}

#[test]
fn happy_path_commit_lists_every_precommit() {
    let mut m = machine_of(4, None);
    let mut net = TestNetwork::new(99);
    let end = m.block.timing.end_time[0];
    for v in [A, B, C, D] {
        assert_eq!(send(&mut m, &mut net, v, 0, precommit(v, end, &x())), Ok(None));
    }
    assert_eq!(send(&mut m, &mut net, A, 0, Data::Proposal(None, x())), Ok(Some(x())));
    let commit = m.build_commit(&net, Round(0), &x().id());
    assert_eq!(commit.validators, vec![D, A, B, C]);
    assert_eq!(commit.end_time, 8);
    assert!(net.verify_commit(&x().id(), &commit));
    assert!(m.queue.is_empty());
}

#[test]
fn nil_prevote_timeout() {
    let mut m = machine_of(4, Some(B));
    let mut net = TestNetwork::new(B);
    assert_eq!(m.next_timeout(), Some((Step::Propose, 1)));
    m.on_timeout(Step::Propose);
    assert_eq!(m.take_slashes(), vec![A]);
    assert!(matches!(last_queued(&m).data, Data::Prevote(None)));
    assert_eq!(run_own(&mut m, &mut net), vec![Ok(None)]);

    assert_eq!(send(&mut m, &mut net, C, 0, Data::Prevote(None)), Ok(None));
    assert!(m.queue.is_empty());
    assert_eq!(send(&mut m, &mut net, D, 0, Data::Prevote(None)), Ok(None));
    assert!(matches!(last_queued(&m).data, Data::Precommit(None)));
    assert_eq!(m.block.round.step, Step::Precommit);
    assert_eq!(run_own(&mut m, &mut net), vec![Ok(None)]);

    assert_eq!(send(&mut m, &mut net, C, 0, Data::Precommit(None)), Ok(None));
    assert_eq!(send(&mut m, &mut net, D, 0, Data::Precommit(None)), Ok(None));
    assert_eq!(m.block.round.precommit_timeout, Some(8));
    // The prevote timeout fires first but the round has moved past that step.
    assert_eq!(m.next_timeout(), Some((Step::Prevote, 2)));
    m.on_timeout(Step::Prevote);
    assert!(m.queue.is_empty());
    assert_eq!(m.next_timeout(), Some((Step::Precommit, 8)));
    m.on_timeout(Step::Precommit);
    assert_eq!(m.block.round.number, Round(1));
    assert_eq!(m.block.round.step, Step::Propose);
    assert_eq!(m.block.round.start_time, 8);
    // B proposes round 1 of height 1.
    assert!(matches!(last_queued(&m).data, Data::Proposal(None, _)));
}

#[test]
fn equivocating_precommit() {
    let mut m = machine_of(4, Some(B));
    let mut net = TestNetwork::new(B);
    let end = m.block.timing.end_time[0];
    let id2 = blk(&[0x32]);
    assert_eq!(send(&mut m, &mut net, C, 0, precommit(C, end, &x())), Ok(None));
    let second = send(&mut m, &mut net, C, 0, precommit(C, end, &id2));
    assert_eq!(second, Err(TendermintError::Malicious(C)));
    m.slash(C);
    m.slash(C);
    assert_eq!(m.take_slashes(), vec![C]);
    assert_eq!(m.block.slashes, vec![C]);
}

#[test]
fn round_skip_on_future_messages() {
    let mut m = machine_of(7, Some(6));
    let mut net = TestNetwork::new(6);
    assert_eq!(m.weights.threshold(), 5);
    assert_eq!(m.weights.fault_threshold(), 3);
    for v in [0u16, 1, 2] {
        assert_eq!(send(&mut m, &mut net, v, 2, Data::Prevote(None)), Ok(None));
    }
    // Participation equal to the fault threshold does not move the round.
    assert_eq!(m.block.round.number, Round(0));
    assert_eq!(send(&mut m, &mut net, 4, 2, Data::Prevote(None)), Ok(None));
    assert_eq!(m.block.round.number, Round(2));
    assert_eq!(m.block.timing.end_time, vec![8, 18, 30]);
    assert_eq!(m.block.round.start_time, 18);
}

#[test]
fn lock_and_unlock_by_valid_round() {
    let mut m = machine_of(4, Some(B));
    let mut net = TestNetwork::new(B);
    // Round 0: B locks on X.
    send(&mut m, &mut net, A, 0, Data::Proposal(None, x())).unwrap();
    run_own(&mut m, &mut net);
    send(&mut m, &mut net, A, 0, Data::Prevote(Some(x().id()))).unwrap();
    send(&mut m, &mut net, C, 0, Data::Prevote(Some(x().id()))).unwrap();
    assert_eq!(m.block.locked, Some((Round(0), x().id())));
    run_own(&mut m, &mut net);
    send(&mut m, &mut net, A, 0, Data::Precommit(None)).unwrap();
    send(&mut m, &mut net, C, 0, Data::Precommit(None)).unwrap();
    m.on_timeout(Step::Precommit);
    assert_eq!(m.block.round.number, Round(1));

    // Round 1: B proposes its valid block X; the others prevote Y.
    assert!(matches!(&last_queued(&m).data, Data::Proposal(Some(Round(0)), b) if *b == x()));
    let own = m.pop_queued().unwrap();
    assert_eq!(m.message(&mut net, own), Ok(None));
    assert!(matches!(&last_queued(&m).data, Data::Prevote(Some(id)) if *id == x().id()));
    run_own(&mut m, &mut net);
    for v in [A, C, D] {
        send(&mut m, &mut net, v, 1, Data::Prevote(Some(y().id()))).unwrap();
    }
    m.on_timeout(Step::Prevote);
    run_own(&mut m, &mut net);
    send(&mut m, &mut net, A, 1, Data::Precommit(None)).unwrap();
    send(&mut m, &mut net, C, 1, Data::Precommit(None)).unwrap();
    m.on_timeout(Step::Precommit);
    assert_eq!(m.block.round.number, Round(2));
    assert_eq!(m.block.locked, Some((Round(0), x().id())));

    // Round 2: C proposes Y with valid round 1; the lock of round 0 gives way.
    assert_eq!(m.weights.proposer(BlockNumber(1), Round(2)), C);
    assert_eq!(send(&mut m, &mut net, C, 2, Data::Proposal(Some(Round(1)), y())), Ok(None));
    let last = last_queued(&m);
    assert_eq!(last.round, Round(2));
    assert!(matches!(&last.data, Data::Prevote(Some(id)) if *id == y().id()));
}

#[test]
fn external_finalization() {
    let mut m = machine_of(4, Some(B));
    m.on_timeout(Step::Propose);
    assert!(!m.queue.is_empty());
    let end3 = m.end_of_round(Round(3));
    assert_eq!(end3, 44);
    m.reset_by_commit(end3, blk(&[0x60]), Some(B));
    assert_eq!(m.block.number, BlockNumber(2));
    assert_eq!(m.block.round.number, Round(0));
    assert_eq!(m.block.timing.start_time, 44);
    assert_eq!(m.block.timing.end_time, vec![52]);
    assert!(m.block.log.entries.is_empty());
    assert!(m.block.locked.is_none());
    assert!(m.queue.iter().all(|msg| msg.number == BlockNumber(2)));
    // B proposes round 0 of height 2.
    assert_eq!(m.queue.len(), 1);
}

#[test]
fn commit_reset_matches_local_reset() {
    let mut by_commit = machine_of(4, Some(B));
    let mut local = machine_of(4, Some(B));
    let end = by_commit.end_of_round(Round(3));
    by_commit.reset_by_commit(end, blk(&[1]), Some(B));
    local.reset(Round(3), blk(&[1]), Some(B));
    assert_eq!(by_commit.block.number, local.block.number);
    assert_eq!(by_commit.block.timing.end_time, local.block.timing.end_time);
    assert_eq!(by_commit.block.round.start_time, local.block.round.start_time);
    assert_eq!(by_commit.block.round.propose_timeout, local.block.round.propose_timeout);
    assert_eq!(by_commit.queue.len(), local.queue.len());
}

#[test]
fn replayed_message_changes_nothing() {
    let mut m = machine_of(4, Some(B));
    let mut net = TestNetwork::new(B);
    assert_eq!(send(&mut m, &mut net, A, 0, Data::Proposal(None, x())), Ok(None));
    let queued = m.queue.len();
    let logged = m.block.log.entries.len();
    assert_eq!(send(&mut m, &mut net, A, 0, Data::Proposal(None, x())), Ok(None));
    assert_eq!(m.queue.len(), queued);
    assert_eq!(m.block.log.entries.len(), logged);
}

#[test]
fn proposal_with_current_valid_round_is_malicious() {
    let mut m = machine_of(4, Some(B));
    let mut net = TestNetwork::new(B);
    let r = send(&mut m, &mut net, A, 0, Data::Proposal(Some(Round(0)), x()));
    assert_eq!(r, Err(TendermintError::Malicious(A)));
    assert!(m.queue.is_empty());
}

#[test]
fn proposal_from_another_validator_is_malicious() {
    let mut m = machine_of(4, Some(B));
    let mut net = TestNetwork::new(B);
    let r = send(&mut m, &mut net, C, 0, Data::Proposal(None, x()));
    assert_eq!(r, Err(TendermintError::Malicious(C)));
    assert!(m.block.log.entries.is_empty());
}

#[test]
fn message_of_another_height_is_temporal() {
    let mut m = machine_of(4, Some(B));
    let mut net = TestNetwork::new(B);
    let msg = Message { sender: A, number: BlockNumber(5), round: Round(0), data: Data::Prevote(None) };
    assert_eq!(m.message(&mut net, msg), Err(TendermintError::Temporal));
    assert!(m.block.log.entries.is_empty());
}

#[test]
fn fatally_invalid_proposal_prevotes_nil_and_reports_proposer() {
    let mut m = machine_of(4, Some(B));
    let mut net = TestNetwork::new(B);
    net.verdict = Err(BlockError::Fatal);
    let r = send(&mut m, &mut net, A, 0, Data::Proposal(None, x()));
    assert_eq!(r, Err(TendermintError::Malicious(A)));
    assert!(matches!(last_queued(&m).data, Data::Prevote(None)));
}

#[test]
fn temporally_invalid_proposal_prevotes_nil() {
    let mut m = machine_of(4, Some(B));
    let mut net = TestNetwork::new(B);
    net.verdict = Err(BlockError::Temporal);
    assert_eq!(send(&mut m, &mut net, A, 0, Data::Proposal(None, x())), Ok(None));
    assert!(matches!(last_queued(&m).data, Data::Prevote(None)));
}

#[test]
fn bad_precommit_signature_with_known_end_is_malicious() {
    let mut m = machine_of(4, Some(B));
    let mut net = TestNetwork::new(B);
    let bad = Data::Precommit(Some((x().id(), vec![0])));
    assert_eq!(send(&mut m, &mut net, C, 0, bad), Err(TendermintError::Malicious(C)));
}

#[test]
fn future_precommit_checked_on_jump() {
    let mut m = machine_of(4, Some(B));
    let mut net = TestNetwork::new(B);
    assert_eq!(m.weights.fault_threshold(), 2);
    let bad = Data::Precommit(Some((x().id(), vec![0])));
    assert_eq!(send(&mut m, &mut net, C, 2, bad), Ok(None));
    assert!(m.block.slashes.is_empty());
    assert_eq!(send(&mut m, &mut net, D, 2, Data::Prevote(None)), Ok(None));
    assert_eq!(m.block.round.number, Round(0));
    assert_eq!(send(&mut m, &mut net, A, 2, Data::Prevote(None)), Ok(None));
    assert_eq!(m.block.round.number, Round(2));
    assert_eq!(m.take_slashes(), vec![C]);
}

#[test]
fn signed_message_signature_covers_encoding() {
    let net = TestNetwork::new(B);
    let msg = Message::<OpaqueBlock> {
        sender: A,
        number: BlockNumber(1),
        round: Round(0),
        data: Data::Prevote(None),
    };
    let sig = sig_of(A, &msg.encode());
    let signed = SignedMessage { msg, sig };
    assert_eq!(signed.number(), BlockNumber(1));
    assert!(signed.verify_signature(&net));
    let forged = SignedMessage { msg: signed.msg.duplicate(), sig: sig_of(C, &signed.msg.encode()) };
    assert!(!forged.verify_signature(&net));
}

#[test]
fn last_round_has_no_successor() {
    let mut m = machine_of(4, Some(B));
    let mut net = TestNetwork::new(B);
    for v in [A, C, D] {
        assert_eq!(send(&mut m, &mut net, v, u16::MAX, Data::Prevote(None)), Ok(None));
    }
    assert_eq!(m.block.round.number, Round(u16::MAX));
    assert_eq!(m.block.timing.end_time.len(), 65536);
    m.on_timeout(Step::Propose);
    m.on_timeout(Step::Prevote);
    assert_eq!(m.block.round.step, Step::Precommit);
    m.on_timeout(Step::Precommit);
    assert_eq!(m.block.round.number, Round(u16::MAX));
}

#[test]
fn observer_sends_nothing() {
    let mut m = machine_of(4, None);
    let mut net = TestNetwork::new(99);
    assert_eq!(send(&mut m, &mut net, A, 0, Data::Proposal(None, x())), Ok(None));
    m.on_timeout(Step::Propose);
    assert!(m.queue.is_empty());
}

/// Delivers every queued message of every node to every node until no node has
/// anything left to send; a node that finalizes adds the block and stops there.
/// Returns the messages sent, in order.
fn gossip(
    nodes: &mut Vec<(TendermintMachine<OpaqueBlock>, TestNetwork)>,
) -> Vec<Message<OpaqueBlock>> {
    let mut sent = vec![];
    let mut done = vec![false; nodes.len()];
    loop {
        let mut progressed = false;
        for i in 0..nodes.len() {
            while !done[i] {
                let Some(msg) = nodes[i].0.pop_queued() else { break };
                progressed = true;
                let round = msg.round;
                let copy = msg.duplicate();
                let (m, net) = &mut nodes[i];
                match m.message(net, msg) {
                    Ok(Some(block)) => {
                        let commit = m.build_commit(net, round, &block.id());
                        net.add_block(block, commit);
                        done[i] = true;
                    }
                    Ok(None) => {}
                    Err(e) => panic!("own message refused: {:?}", e),
                }
                for j in 0..nodes.len() {
                    if j != i && !done[j] {
                        let (other, other_net) = &mut nodes[j];
                        if let Ok(Some(block)) = other.message(other_net, copy.duplicate()) {
                            let commit = other.build_commit(other_net, round, &block.id());
                            other_net.add_block(block, commit);
                            done[j] = true;
                        }
                    }
                }
                sent.push(copy);
            }
        }
        if !progressed {
            return sent;
        }
    }
}

#[test]
fn happy_path_all_nodes_finalize() {
    let mut nodes: Vec<(TendermintMachine<OpaqueBlock>, TestNetwork)> = vec![];
    for v in [D, A, B, C] {
        let weights = ValidatorWeights::new(vec![1; 4]).unwrap();
        let proposal = if v == A { x() } else { blk(&[0x40 + v as u8]) };
        let m = TendermintMachine::new(weights, 6, (BlockNumber(0), 0), proposal, Some(v));
        nodes.push((m, TestNetwork::new(v)));
    }
    let sent = gossip(&mut nodes);
    assert!(matches!(&sent[0].data, Data::Proposal(None, b) if *b == x()));
    assert_eq!(sent[0].sender, A);
    for msg in &sent {
        match &msg.data {
            Data::Prevote(v) => assert_eq!(v.as_ref(), Some(&x().id())),
            Data::Precommit(p) => assert_eq!(p.as_ref().map(|p| p.0.clone()), Some(x().id())),
            Data::Proposal(..) => assert_eq!(msg.sender, A),
        }
    }
    for (_, net) in &nodes {
        assert_eq!(net.added.len(), 1);
        assert_eq!(net.added[0].0, x());
        assert_eq!(net.added[0].1.end_time, 8);
        assert!(net.added[0].1.validators.len() >= 3);
        assert!(net.verify_commit(&x().id(), &net.added[0].1));
        assert!(net.slashed.is_empty());
    }
}

#[test]
fn replayed_signed_precommit_is_accepted() {
    let mut m = machine_of(4, Some(B));
    let mut net = TestNetwork::new(B);
    let end = m.block.timing.end_time[0];
    assert_eq!(send(&mut m, &mut net, C, 0, precommit(C, end, &x())), Ok(None));
    let logged = m.block.log.entries.len();
    assert_eq!(send(&mut m, &mut net, C, 0, precommit(C, end, &x())), Ok(None));
    assert_eq!(m.block.log.entries.len(), logged);
    assert!(m.take_slashes().is_empty());
}

#[test]
fn failed_signature_verdict_is_malicious() {
    let mut m = machine_of(4, Some(B));
    let mut net = TestNetwork::new(B);
    let end = m.block.timing.end_time[0];
    let msg = Message { sender: C, number: BlockNumber(1), round: Round(0), data: precommit(C, end, &x()) };
    assert_eq!(m.handle_message(&mut net, msg, false), Err(TendermintError::Malicious(C)));
    assert!(m.block.log.entries.is_empty());
    // A message with no signature to check ignores the verdict.
    let prevote = Message { sender: C, number: BlockNumber(1), round: Round(0), data: Data::Prevote(None) };
    assert_eq!(m.handle_message(&mut net, prevote, false), Ok(None));
}

#[test]
fn no_jump_keeps_round_end_table() {
    let mut m = machine_of(4, Some(B));
    let mut net = TestNetwork::new(B);
    let table = m.block.timing.end_time.clone();
    assert_eq!(send(&mut m, &mut net, C, 1, Data::Prevote(None)), Ok(None));
    assert_eq!(send(&mut m, &mut net, D, 1, Data::Prevote(None)), Ok(None));
    assert_eq!(m.block.round.number, Round(0));
    assert_eq!(m.block.timing.end_time, table);
    assert_eq!(send(&mut m, &mut net, A, 1, Data::Prevote(None)), Ok(None));
    assert_eq!(m.block.round.number, Round(1));
    assert_eq!(m.block.timing.end_time, vec![8, 18]);
}

#[test]
fn later_message_reports_malformed_proposer() {
    let mut m = machine_of(4, Some(B));
    let mut net = TestNetwork::new(B);
    let r = send(&mut m, &mut net, A, 0, Data::Proposal(Some(Round(0)), x()));
    assert_eq!(r, Err(TendermintError::Malicious(A)));
    assert_eq!(send(&mut m, &mut net, C, 0, Data::Precommit(None)), Err(TendermintError::Malicious(A)));
    assert!(m.queue.is_empty());
}
