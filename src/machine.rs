use vstd::prelude::*;

use crate::bytes::{bytes_eq, copy_bytes};
use crate::ext::{Block, BlockError, BlockNumber, Network, Round, ValidatorIndex};
use crate::message::{commit_msg, Commit, Data, Message, Step, TendermintError};
use crate::message_log::{LogEntry, MessageLog};
use crate::time::{step_rank, RoundData, Timing, MAX_START_TIME};
use crate::weights::{
    fault_threshold_of, lemma_weight_where_ext, sum_weights, threshold_of, weight_where,
    ValidatorWeights, Weights,
};

verus! {

/// Everything the machine knows about the height it is deciding.
#[derive(Debug)]
pub struct BlockData<B> {
    pub number: BlockNumber,
    pub validator_id: Option<ValidatorIndex>,
    pub proposal: B,
    pub log: MessageLog<B>,
    pub slashes: Vec<ValidatorIndex>,
    pub timing: Timing,
    pub round: RoundData,
    pub locked: Option<(Round, Vec<u8>)>,
    pub valid: Option<(Round, B)>,
}

/// A machine executing the Tendermint protocol for one validator, or for an
/// observer when it has no validator id.
///
/// Messages it sends wait in `queue`, and validators to slash in `pending_slashes`,
/// until whoever drives the machine hands them to the network.
#[derive(Debug)]
pub struct TendermintMachine<B> {
    pub weights: ValidatorWeights,
    pub queue: Vec<Message<B>>,
    pub pending_slashes: Vec<ValidatorIndex>,
    pub block: BlockData<B>,
}

/// The round of a lock or of a valid block, with `-1` standing for none.
pub open spec fn lock_round<T>(x: Option<(Round, T)>) -> int {
    match x {
        Some(p) => p.0.0 as int,
        None => -1,
    }
}

/// The prevote of the first vote of a round (lines 22 to 33 of the paper), or `None`
/// where no prevote is cast. `valid` is the host's verdict on the proposed block,
/// `vr` the proposal's valid round and `vr_consensus` whether that round saw a
/// prevote quorum for the block.
pub open spec fn spec_prevote(
    valid: bool,
    id: Seq<u8>,
    locked: Option<(Round, Seq<u8>)>,
    vr: Option<Round>,
    vr_consensus: bool,
) -> Option<Option<Seq<u8>>> {
    let raw = if valid {
        Some(id)
    } else {
        None::<Seq<u8>>
    };
    let locked_ok = match locked {
        Some(l) => l.1 == id,
        None => true,
    };
    let vote = if locked_ok {
        raw
    } else {
        None
    };
    match vr {
        None => Some(vote),
        Some(v) => if vr_consensus {
            Some(
                match locked {
                    Some(l) => if vote.is_none() && l.0.0 <= v.0 {
                        raw
                    } else {
                        vote
                    },
                    None => vote,
                },
            )
        } else {
            None
        },
    }
}

pub open spec fn opt_view(x: Option<Vec<u8>>) -> Option<Seq<u8>> {
    match x {
        Some(v) => Some(v@),
        None => None,
    }
}

pub open spec fn lock_view(x: Option<(Round, Vec<u8>)>) -> Option<(Round, Seq<u8>)> {
    match x {
        Some(p) => Some((p.0, p.1@)),
        None => None,
    }
}

/// The first prevote of a round: see `spec_prevote`.
pub fn prevote_decision(
    valid: bool,
    id: &Vec<u8>,
    locked: &Option<(Round, Vec<u8>)>,
    vr: Option<Round>,
    vr_consensus: bool,
) -> (r: Option<Option<Vec<u8>>>)
    ensures
        match r {
            Some(v) => spec_prevote(valid, id@, lock_view(*locked), vr, vr_consensus) == Some(
                opt_view(v),
            ),
            None => spec_prevote(valid, id@, lock_view(*locked), vr, vr_consensus).is_none(),
        },
{
    let locked_ok = match locked {
        Some(l) => bytes_eq(&l.1, id),
        None => true,
    };
    let vote: Option<Vec<u8>> = if valid && locked_ok {
        Some(copy_bytes(id))
    } else {
        None
    };
    match vr {
        None => Some(vote),
        Some(v) => {
            if vr_consensus {
                match locked {
                    Some(l) => {
                        if vote.is_none() && l.0.0 <= v.0 && valid {
                            Some(Some(copy_bytes(id)))
                        } else {
                            Some(vote)
                        }
                    },
                    None => Some(vote),
                }
            } else {
                None
            }
        },
    }
}

/// Whether a round more than one behind us may be jumped to: its participation
/// exceeds the fault threshold, so an honest validator is in it.
pub fn should_jump(participation: u64, fault_threshold: u64) -> (r: bool)
    ensures
        r == (participation > fault_threshold),
{
    participation > fault_threshold
}

proof fn lemma_push_contains(s: Seq<ValidatorIndex>, x: ValidatorIndex, v: ValidatorIndex)
    ensures
        s.contains(v) ==> s.push(x).contains(v),
        s.push(x).contains(v) <==> s.contains(v) || v == x,
{
    if s.contains(v) {
        let k = choose|k: int| 0 <= k < s.len() && s[k] == v;
        assert(s.push(x)[k] == v);
    }
    if v == x {
        assert(s.push(x)[s.len() as int] == x);
    }
    if s.push(x).contains(v) && v != x {
        let k = choose|k: int| 0 <= k < s.push(x).len() && s.push(x)[k] == v;
        assert(k < s.len());
        assert(s[k] == v);
    }
}

fn contains_validator(list: &Vec<ValidatorIndex>, v: ValidatorIndex) -> (r: bool)
    ensures
        r == list@.contains(v),
{
    let mut i: usize = 0;
    while i < list.len()
        invariant
            i <= list@.len(),
            forall|j: int| 0 <= j < i ==> list@[j] != v,
        decreases list@.len() - i,
    {
        if list[i] == v {
            return true;
        }
        i = i + 1;
    }
    false
}

impl<B: Block> TendermintMachine<B> {
    pub open spec fn wf(&self) -> bool {
        &&& self.weights.wf()
        &&& self.block.log.wf()
        &&& self.block.timing.wf()
        &&& self.block.round.wf()
        &&& (self.block.round.number.0 as nat) < self.block.timing.end_time@.len()
        &&& self.block.round.block_time == self.block.timing.block_time
        &&& self.block.round.start_time == self.block.timing.start_of(
            self.block.round.number.0 as nat,
        )
        &&& lock_round(self.block.locked) <= self.block.round.number.0
        &&& lock_round(self.block.valid) <= self.block.round.number.0
        &&& forall|i: int|
            0 <= i < self.queue@.len() ==> (#[trigger] self.queue@[i]).number == self.block.number
    }

    /// The proposer of a round of the current height.
    pub open spec fn proposer_at(&self, round: Round) -> ValidatorIndex {
        self.weights.spec_proposer(self.block.number, round)
    }

    /// What broadcasting `data` does: for a validator, the current step becomes the
    /// data's step and the message joins the queue; an observer stays silent.
    pub open spec fn broadcasts(old: &Self, new: &Self, data: Data<B>) -> bool {
        match old.block.validator_id {
            Some(v) => {
                &&& new.queue@ == old.queue@.push(
                    Message { sender: v, number: old.block.number, round: old.block.round.number, data },
                )
                &&& new.block.round.step == data.spec_step()
            },
            None => {
                &&& new.queue@ == old.queue@
                &&& new.block.round.step == old.block.round.step
            },
        }
    }

    /// The validator has been slashed in this height.
    pub open spec fn slashed(&self, v: ValidatorIndex) -> bool {
        self.block.slashes@.contains(v)
    }

    /// Queues a message of the local validator for the current round.
    fn broadcast(&mut self, data: Data<B>)
        requires
            old(self).wf(),
        ensures
            final(self).wf(),
            Self::advances(old(self), final(self)),
            Self::broadcasts(old(self), final(self), data),
            final(self).weights == old(self).weights,
            final(self).pending_slashes == old(self).pending_slashes,
            final(self).block.number == old(self).block.number,
            final(self).block.validator_id == old(self).block.validator_id,
            final(self).block.proposal == old(self).block.proposal,
            final(self).block.log == old(self).block.log,
            final(self).block.slashes == old(self).block.slashes,
            final(self).block.timing == old(self).block.timing,
            final(self).block.round.number == old(self).block.round.number,
            final(self).block.round.start_time == old(self).block.round.start_time,
            final(self).block.round.block_time == old(self).block.round.block_time,
            final(self).block.round.propose_timeout == old(self).block.round.propose_timeout,
            final(self).block.round.prevote_timeout == old(self).block.round.prevote_timeout,
            final(self).block.round.precommit_timeout == old(self).block.round.precommit_timeout,
            final(self).block.locked == old(self).block.locked,
            final(self).block.valid == old(self).block.valid,
    {
        proof {
            Self::lemma_advances_refl(self);
        }
        let ghost q = self.queue@;
        if let Some(validator_id) = self.block.validator_id {
            self.block.round.step = data.step();
            let msg = Message {
                sender: validator_id,
                number: self.block.number,
                round: self.block.round.number,
                data,
            };
            self.queue.push(msg);
            assert forall|i: int| 0 <= i < self.queue@.len() implies (#[trigger] self.queue@[i]).number
                == self.block.number by {
                if i < q.len() {
                    assert(self.queue@[i] == q[i]);
                }
            }
            assert(self.queue@.subrange(0, q.len() as int) =~= q);
        }
    }

    /// Slashes a validator once per height: the first call adds it to the slash set
    /// and to the pending slashes, later ones do nothing.
    pub fn slash(&mut self, validator: ValidatorIndex)
        requires
            old(self).wf(),
        ensures
            final(self).wf(),
            Self::advances(old(self), final(self)),
            final(self).slashed(validator),
            old(self).slashed(validator) ==> final(self).block.slashes@ == old(self).block.slashes@
                && final(self).pending_slashes@ == old(self).pending_slashes@,
            !old(self).slashed(validator) ==> final(self).block.slashes@ == old(
                self,
            ).block.slashes@.push(validator) && final(self).pending_slashes@ == old(
                self,
            ).pending_slashes@.push(validator),
            final(self).weights == old(self).weights,
            final(self).queue == old(self).queue,
            final(self).block.number == old(self).block.number,
            final(self).block.validator_id == old(self).block.validator_id,
            final(self).block.proposal == old(self).block.proposal,
            final(self).block.log == old(self).block.log,
            final(self).block.timing == old(self).block.timing,
            final(self).block.round == old(self).block.round,
            final(self).block.locked == old(self).block.locked,
            final(self).block.valid == old(self).block.valid,
    {
        proof {
            Self::lemma_advances_refl(self);
        }
        if contains_validator(&self.block.slashes, validator) {
            return;
        }
        let ghost before = *self;
        self.block.slashes.push(validator);
        self.pending_slashes.push(validator);
        assert(self.block.slashes@[self.block.slashes@.len() - 1] == validator);
        assert(self.pending_slashes@.subrange(0, before.pending_slashes@.len() as int)
            =~= before.pending_slashes@);
        assert(self.queue@.subrange(0, before.queue@.len() as int) =~= before.queue@);
        assert forall|v: ValidatorIndex| before.slashed(v) implies #[trigger] self.slashed(v) by {
            let k = choose|k: int| 0 <= k < before.block.slashes@.len() && before.block.slashes@[k] == v;
            assert(self.block.slashes@[k] == v);
        }
    }

    /// Whether the queue gained exactly the proposal of `round`: the valid block with
    /// its round if there is one, else the local proposal.
    pub open spec fn proposes(old: &Self, new: &Self, round: Round) -> bool {
        &&& new.queue@.len() == old.queue@.len() + 1
        &&& new.queue@.drop_last() == old.queue@
        &&& new.queue@.last().sender == old.block.validator_id.unwrap()
        &&& new.queue@.last().number == old.block.number
        &&& new.queue@.last().round == round
        &&& match new.queue@.last().data {
            Data::Proposal(vr, b) => match old.block.valid {
                Some(v) => vr == Some(v.0) && b.spec_id() == v.1.spec_id(),
                None => vr.is_none() && b.spec_id() == old.block.proposal.spec_id(),
            },
            _ => false,
        }
    }

    /// Enters `round` (lines 11 to 21 of the paper): makes its end known, resets the
    /// round state, and either proposes, when the local validator is the round's
    /// proposer, or arms the propose timeout. Returns whether it proposed.
    fn start_round(&mut self, round: Round) -> (r: bool)
        requires
            old(self).wf(),
            round.0 >= old(self).block.round.number.0,
        ensures
            final(self).wf(),
            Self::advances(old(self), final(self)),
            r == (old(self).block.validator_id == Some(old(self).proposer_at(round))),
            final(self).block.round.number == round,
            final(self).block.round.start_time == old(self).block.timing.start_of(round.0 as nat),
            final(self).block.round.step == Step::Propose,
            final(self).block.round.prevote_timeout.is_none(),
            final(self).block.round.precommit_timeout.is_none(),
            r ==> Self::proposes(old(self), final(self), round)
                && final(self).block.round.propose_timeout.is_none(),
            !r ==> final(self).queue == old(self).queue
                && final(self).block.round.propose_timeout == Some(
                final(self).block.round.deadline(Step::Propose) as u64,
            ),
            final(self).block.timing.start_time == old(self).block.timing.start_time,
            final(self).block.timing.block_time == old(self).block.timing.block_time,
            final(self).block.timing.end_time@.len() == if old(self).block.timing.end_time@.len()
                > round.0 as nat {
                old(self).block.timing.end_time@.len()
            } else {
                round.0 as nat + 1
            },
            final(self).weights == old(self).weights,
            final(self).pending_slashes == old(self).pending_slashes,
            final(self).block.number == old(self).block.number,
            final(self).block.validator_id == old(self).block.validator_id,
            final(self).block.proposal == old(self).block.proposal,
            final(self).block.log == old(self).block.log,
            final(self).block.slashes == old(self).block.slashes,
            final(self).block.locked == old(self).block.locked,
            final(self).block.valid == old(self).block.valid,
    {
        self.block.timing.populate(round);
        let start = self.block.timing.start(round);
        assert(self.block.timing.end_time@[round.0 as int] == self.block.timing.end_of(
            round.0 as nat,
        ));
        self.block.round = RoundData::new(round, start, self.block.timing.block_time);
        let proposer = self.weights.proposer(self.block.number, round);
        let is_proposer = match self.block.validator_id {
            Some(v) => v == proposer,
            None => false,
        };
        if is_proposer {
            let data = match &self.block.valid {
                Some(v) => Data::Proposal(Some(v.0), v.1.duplicate()),
                None => Data::Proposal(None, self.block.proposal.duplicate()),
            };
            let ghost q = self.queue@;
            let ghost mid = *self;
            self.broadcast(data);
            assert(self.queue@.drop_last() =~= q);
            assert(self.queue@.subrange(0, q.len() as int) =~= q);
            true
        } else {
            self.block.round.set_timeout(Step::Propose);
            assert(self.block.round.armed(Step::Prevote) == None::<u64>);
            assert(self.block.round.armed(Step::Precommit) == None::<u64>);
            assert(self.queue@.subrange(0, self.queue@.len() as int) =~= self.queue@);
            assert(self.pending_slashes@.subrange(0, self.pending_slashes@.len() as int)
                =~= self.pending_slashes@);
            false
        }
    }

    /// Whether `data` is a precommit for a block whose signature can be checked
    /// now: the end of its round is known.
    pub open spec fn checks_signature(&self, round: Round, data: Data<B>) -> bool {
        data matches Data::Precommit(Some(_)) && (round.0 as nat)
            < self.block.timing.end_time@.len()
    }

    /// Checks a precommit's signature against the commit message of its round, when
    /// the round's end is known.
    pub fn verify_precommit_signature<N: Network<B>>(
        &self,
        net: &N,
        sender: ValidatorIndex,
        round: Round,
        data: &Data<B>,
    ) -> (r: Result<(), TendermintError>)
        requires
            self.wf(),
        ensures
            !self.checks_signature(round, *data) ==> r == Ok::<(), TendermintError>(()),
            r.is_err() ==> r == Err::<(), TendermintError>(TendermintError::Malicious(sender)),
    {
        if let Data::Precommit(Some(p)) = data {
            if let Some(end_time) = self.block.timing.get(round) {
                if !net.verify(sender, &commit_msg(end_time, &p.0), &p.1) {
                    return Err(TendermintError::Malicious(sender));
                }
            }
        }
        Ok(())
    }

    /// A machine for the height after `last`, a block number and its canonical end
    /// time, proposing `proposal`, as validator `validator_id` or as an observer. It
    /// enters round 0 at once, starting at `last`'s end time.
    pub fn new(
        weights: ValidatorWeights,
        block_time: u32,
        last: (BlockNumber, u64),
        proposal: B,
        validator_id: Option<ValidatorIndex>,
    ) -> (r: TendermintMachine<B>)
        requires
            weights.wf(),
            last.0.0 < u32::MAX,
            last.1 <= MAX_START_TIME,
        ensures
            r.wf(),
            r.block.number.0 == last.0.0 + 1,
            r.block.validator_id == validator_id,
            r.block.proposal == proposal,
            r.block.timing.start_time == last.1,
            r.block.timing.block_time == block_time,
            r.block.round.number.0 == 0,
            r.block.round.step == Step::Propose,
            r.block.locked.is_none(),
            r.block.valid.is_none(),
            r.block.slashes@.len() == 0,
            r.pending_slashes@.len() == 0,
            r.block.log.entries@.len() == 0,
            r.block.log.precommitted@.len() == 0,
            r.weights == weights,
            r.block.validator_id == Some(r.proposer_at(Round(0))) ==> r.queue@.len() == 1
                && r.queue@[0].sender == validator_id.unwrap() && r.queue@[0].round == Round(0)
                && match r.queue@[0].data {
                Data::Proposal(vr, b) => vr.is_none() && b.spec_id() == proposal.spec_id(),
                _ => false,
            },
            r.block.validator_id != Some(r.proposer_at(Round(0))) ==> r.queue@.len() == 0
                && r.block.round.propose_timeout == Some(
                r.block.round.deadline(Step::Propose) as u64,
            ),
    {
        let timing = Timing::new(last.1, block_time);
        let start = timing.start(Round(0));
        let mut machine = TendermintMachine {
            weights,
            queue: Vec::new(),
            pending_slashes: Vec::new(),
            block: BlockData {
                number: BlockNumber(last.0.0 + 1),
                validator_id,
                proposal,
                log: MessageLog::new(),
                slashes: Vec::new(),
                timing,
                round: RoundData::new(Round(0), start, block_time),
                locked: None,
                valid: None,
            },
        };
        machine.start_round(Round(0));
        machine
    }

    /// What every step of the machine keeps within a height: the height, its timing
    /// and its validator stay; rounds, locks and valid blocks never go back; the queue
    /// and the pending slashes only grow at their ends; slashes are never forgotten.
    pub open spec fn advances(old: &Self, new: &Self) -> bool {
        &&& new.wf()
        &&& new.weights == old.weights
        &&& new.block.number == old.block.number
        &&& new.block.validator_id == old.block.validator_id
        &&& new.block.proposal == old.block.proposal
        &&& new.block.timing.start_time == old.block.timing.start_time
        &&& new.block.timing.block_time == old.block.timing.block_time
        &&& old.block.round.number.0 <= new.block.round.number.0
        &&& lock_round(old.block.locked) <= lock_round(new.block.locked)
        &&& lock_round(old.block.valid) <= lock_round(new.block.valid)
        &&& old.queue@.len() <= new.queue@.len()
        &&& new.queue@.subrange(0, old.queue@.len() as int) == old.queue@
        &&& old.pending_slashes@.len() <= new.pending_slashes@.len()
        &&& new.pending_slashes@.subrange(0, old.pending_slashes@.len() as int)
            == old.pending_slashes@
        &&& forall|v: ValidatorIndex| old.slashed(v) ==> #[trigger] new.slashed(v)
    }

    pub proof fn lemma_advances_refl(a: &Self)
        requires
            a.wf(),
        ensures
            Self::advances(a, a),
    {
        assert(a.queue@.subrange(0, a.queue@.len() as int) =~= a.queue@);
        assert(a.pending_slashes@.subrange(0, a.pending_slashes@.len() as int)
            =~= a.pending_slashes@);
    }

    pub proof fn lemma_advances_trans(a: &Self, b: &Self, c: &Self)
        requires
            Self::advances(a, b),
            Self::advances(b, c),
        ensures
            Self::advances(a, c),
    {
        assert(c.queue@.subrange(0, a.queue@.len() as int) =~= c.queue@.subrange(
            0,
            b.queue@.len() as int,
        ).subrange(0, a.queue@.len() as int));
        assert(c.pending_slashes@.subrange(0, a.pending_slashes@.len() as int)
            =~= c.pending_slashes@.subrange(0, b.pending_slashes@.len() as int).subrange(
            0,
            a.pending_slashes@.len() as int,
        ));
    }

    /// The block the proposer of `round` proposed, if it did.
    pub open spec fn proposed_block(&self, round: Round) -> Option<B> {
        match self.block.log.entry(round.0, self.proposer_at(round), Step::Propose) {
            Some(Data::Proposal(_, b)) => Some(b),
            _ => None,
        }
    }

    /// Whether the proposal of `round` gathered a precommit quorum (lines 49 to 52).
    pub open spec fn is_committed(&self, round: Round) -> bool {
        match self.proposed_block(round) {
            Some(b) => self.block.log.spec_has_consensus(
                self.weights@,
                round.0,
                Step::Precommit,
                Some(b.spec_id()),
            ),
            None => false,
        }
    }

    /// The proposal of `round`, when it gathered a precommit quorum.
    pub fn committed_block(&self, round: Round) -> (r: Option<B>)
        requires
            self.wf(),
        ensures
            r.is_some() == self.is_committed(round),
            r.is_some() ==> r.unwrap().spec_id() == self.proposed_block(round).unwrap().spec_id(),
    {
        let proposer = self.weights.proposer(self.block.number, round);
        match self.block.log.get(round, proposer, Step::Propose) {
            Some(Data::Proposal(_, block)) => {
                let data: Data<B> = Data::Precommit(Some((block.id(), Vec::new())));
                if self.block.log.has_consensus(&self.weights, round, &data) {
                    Some(block.duplicate())
                } else {
                    None
                }
            },
            _ => None,
        }
    }

    /// Whether `v` sent a precommit for a block in `round` whose entry's verdict in
    /// `verdicts` (one per log entry) failed.
    pub open spec fn fails_recheck(&self, round: Round, verdicts: Seq<bool>, v: ValidatorIndex) -> bool {
        exists|i: int|
            0 <= i < self.block.log.entries@.len() && i < verdicts.len() && (
            #[trigger] self.block.log.entries@[i]).round == round && self.block.log.entries@[i].sender
                == v && (self.block.log.entries@[i].data matches Data::Precommit(Some(_)))
                && !verdicts[i]
    }

    /// Whether exactly the validators already slashed and those that fail the
    /// re-check of `round` under `verdicts` are slashed in `new`.
    pub open spec fn rechecked(old: &Self, new: &Self, round: Round, verdicts: Seq<bool>) -> bool {
        forall|v: ValidatorIndex| #[trigger]
            new.slashed(v) <==> old.slashed(v) || new.fails_recheck(round, verdicts, v)
    }

    pub proof fn lemma_rechecked_frame(old: &Self, a: &Self, b: &Self, round: Round, verdicts: Seq<bool>)
        requires
            Self::rechecked(old, a, round, verdicts),
            b.block.slashes == a.block.slashes,
            b.block.log == a.block.log,
        ensures
            Self::rechecked(old, b, round, verdicts),
    {
        assert forall|v: ValidatorIndex| #[trigger] b.slashed(v) <==> old.slashed(v)
            || b.fails_recheck(round, verdicts, v) by {
            assert(a.slashed(v) <==> old.slashed(v) || a.fails_recheck(round, verdicts, v));
        }
    }

    /// Slashes the senders of the precommits of `round` whose signatures failed
    /// the scheme's check, `verdicts` holding the scheme's verdict for each log
    /// entry in order.
    pub fn recheck_precommits(&mut self, round: Round, verdicts: &Vec<bool>)
        requires
            old(self).wf(),
            verdicts@.len() == old(self).block.log.entries@.len(),
        ensures
            Self::advances(old(self), final(self)),
            final(self).block.log == old(self).block.log,
            final(self).block.timing == old(self).block.timing,
            final(self).block.round == old(self).block.round,
            final(self).queue == old(self).queue,
            final(self).block.locked == old(self).block.locked,
            final(self).block.valid == old(self).block.valid,
            Self::rechecked(old(self), final(self), round, verdicts@),
    {
        proof {
            Self::lemma_advances_refl(self);
        }
        let mut i: usize = 0;
        while i < self.block.log.entries.len()
            invariant
                Self::advances(old(self), self),
                self.block.log == old(self).block.log,
                self.block.timing == old(self).block.timing,
                self.block.round == old(self).block.round,
                self.queue == old(self).queue,
                self.block.locked == old(self).block.locked,
                self.block.valid == old(self).block.valid,
                verdicts@.len() == self.block.log.entries@.len(),
                i <= self.block.log.entries@.len(),
                forall|v: ValidatorIndex| #[trigger]
                    self.slashed(v) <==> old(self).slashed(v) || exists|j: int|
                        0 <= j < i && (#[trigger] self.block.log.entries@[j]).round == round
                            && self.block.log.entries@[j].sender == v
                            && (self.block.log.entries@[j].data matches Data::Precommit(Some(_)))
                            && !verdicts@[j],
            decreases self.block.log.entries@.len() - i,
        {
            let sender = self.block.log.entries[i].sender;
            let failed = self.block.log.entries[i].round.0 == round.0 && match &self.block.log.entries[i].data {
                Data::Precommit(Some(_)) => !verdicts[i],
                _ => false,
            };
            let ghost before = *self;
            if failed {
                self.slash(sender);
                proof {
                    Self::lemma_advances_trans(old(self), &before, self);
                }
            }
            proof {
                assert forall|v: ValidatorIndex| #[trigger]
                    self.slashed(v) <==> old(self).slashed(v) || exists|j: int|
                        0 <= j < i + 1 && (#[trigger] self.block.log.entries@[j]).round == round
                            && self.block.log.entries@[j].sender == v
                            && (self.block.log.entries@[j].data matches Data::Precommit(Some(_)))
                            && !verdicts@[j] by {
                    assert(before.slashed(v) <==> old(self).slashed(v) || exists|j: int|
                        0 <= j < i && (#[trigger] self.block.log.entries@[j]).round == round
                            && self.block.log.entries@[j].sender == v
                            && (self.block.log.entries@[j].data matches Data::Precommit(Some(_)))
                            && !verdicts@[j]);
                    if failed {
                        lemma_push_contains(before.block.slashes@, sender, v);
                        assert(self.slashed(v) <==> before.slashed(v) || v == sender);
                        assert(self.block.log.entries@[i as int].round == round);
                    } else {
                        assert(self.slashed(v) == before.slashed(v));
                    }
                }
            }
            i = i + 1;
        }
    }

    /// Checks again, once the round's end is known, the precommits of `round` whose
    /// signatures could not be checked when they arrived, and slashes their senders
    /// where a signature fails.
    fn reverify_round<N: Network<B>>(&mut self, net: &N, round: Round)
        requires
            old(self).wf(),
            (round.0 as nat) < old(self).block.timing.end_time@.len(),
        ensures
            Self::advances(old(self), final(self)),
            final(self).block.log == old(self).block.log,
            final(self).block.timing == old(self).block.timing,
            final(self).block.round == old(self).block.round,
            final(self).queue == old(self).queue,
            final(self).block.locked == old(self).block.locked,
            final(self).block.valid == old(self).block.valid,
            exists|verdicts: Seq<bool>| #[trigger] Self::rechecked(old(self), final(self), round, verdicts),
    {
        let mut verdicts: Vec<bool> = Vec::new();
        let mut i: usize = 0;
        while i < self.block.log.entries.len()
            invariant
                self.wf(),
                i <= self.block.log.entries@.len(),
                verdicts@.len() == i,
            decreases self.block.log.entries@.len() - i,
        {
            let verdict = self.block.log.entries[i].round.0 != round.0
                || self.verify_precommit_signature(
                net,
                self.block.log.entries[i].sender,
                round,
                &self.block.log.entries[i].data,
            ).is_ok();
            verdicts.push(verdict);
            i = i + 1;
        }
        self.recheck_precommits(round, &verdicts);
        assert(Self::rechecked(old(self), self, round, verdicts@));
    }

    /// Whether the lock moved only to a block with a prevote quorum in the current
    /// round (lines 36 to 43).
    pub open spec fn locks_on_quorum(old: &Self, new: &Self) -> bool {
        lock_view(new.block.locked) != lock_view(old.block.locked) ==> match new.block.locked {
            Some(l) => l.0 == new.block.round.number && new.block.log.spec_has_consensus(
                new.weights@,
                l.0.0,
                Step::Prevote,
                Some(l.1@),
            ),
            None => false,
        }
    }

    /// Whether every prevote the machine queued respects its lock: a prevote for a
    /// block other than the locked one needs a valid round at or after the lock,
    /// with a prevote quorum for that block (lines 22 to 33).
    pub open spec fn prevotes_respect_lock(old: &Self, new: &Self) -> bool {
        forall|i: int|
            old.queue@.len() <= i < new.queue@.len() ==> match (#[trigger] new.queue@[i]).data {
                Data::Prevote(Some(id)) => match old.block.locked {
                    Some(l) => l.1@ == id@ || exists|vr: u16|
                        l.0.0 <= vr && #[trigger] new.block.log.spec_has_consensus(
                            new.weights@,
                            vr,
                            Step::Prevote,
                            Some(id@),
                        ),
                    None => true,
                },
                _ => true,
            }
    }

    /// Whether the queue gained exactly one prevote of the local validator for the
    /// current round, voting for `vote`, and the step moved to prevote; an observer
    /// queues nothing.
    pub open spec fn prevotes(old: &Self, new: &Self, vote: Option<Seq<u8>>) -> bool {
        match old.block.validator_id {
            Some(me) => {
                &&& new.queue@.len() == old.queue@.len() + 1
                &&& new.queue@.drop_last() == old.queue@
                &&& new.queue@.last().sender == me
                &&& new.queue@.last().number == old.block.number
                &&& new.queue@.last().round == old.block.round.number
                &&& match new.queue@.last().data {
                    Data::Prevote(x) => opt_view(x) == vote,
                    _ => false,
                }
                &&& new.block.round.step == Step::Prevote
            },
            None => new.queue@ == old.queue@ && new.block.round.step == old.block.round.step,
        }
    }

    /// Whether the queue gained exactly one precommit of the local validator for the
    /// current round, for the block `id`, and the step moved to precommit; an observer
    /// queues nothing.
    pub open spec fn precommits(old: &Self, new: &Self, id: Seq<u8>) -> bool {
        match old.block.validator_id {
            Some(me) => {
                &&& new.queue@.len() == old.queue@.len() + 1
                &&& new.queue@.drop_last() == old.queue@
                &&& new.queue@.last().sender == me
                &&& new.queue@.last().number == old.block.number
                &&& new.queue@.last().round == old.block.round.number
                &&& match new.queue@.last().data {
                    Data::Precommit(Some(p)) => p.0@ == id,
                    _ => false,
                }
                &&& new.block.round.step == Step::Precommit
            },
            None => new.queue@ == old.queue@ && new.block.round.step == old.block.round.step,
        }
    }

    /// The quorum weight of the validator set.
    pub open spec fn quorum(&self) -> nat {
        threshold_of(sum_weights(self.weights@, self.weights@.len() as int))
    }

    /// Whether `log` holds a prevote quorum for `id` in the valid round `vr`, if any.
    pub open spec fn valid_round_quorum(
        &self,
        log: MessageLog<B>,
        vr: Option<Round>,
        id: Seq<u8>,
    ) -> bool {
        match vr {
            Some(v) => log.spec_has_consensus(self.weights@, v.0, Step::Prevote, Some(id)),
            None => false,
        }
    }

    /// Whether queue, step, lock and valid block are as they were.
    pub open spec fn votes_unchanged(old: &Self, new: &Self) -> bool {
        &&& new.queue == old.queue
        &&& new.block.round.step == old.block.round.step
        &&& new.block.locked == old.block.locked
        &&& new.block.valid == old.block.valid
    }

    /// Whether the timeouts of the round are as they were.
    pub open spec fn timeouts_unchanged(old: &Self, new: &Self) -> bool {
        &&& new.block.round.propose_timeout == old.block.round.propose_timeout
        &&& new.block.round.prevote_timeout == old.block.round.prevote_timeout
        &&& new.block.round.precommit_timeout == old.block.round.precommit_timeout
    }

    /// The first prevote of a round on the proposal `b` with valid round `vr`, for
    /// some verdict of the host on `b` (lines 22 to 33): the prevote that
    /// `spec_prevote` gives is queued, or nothing when it gives none.
    pub open spec fn casts_first_prevote(
        old: &Self,
        new: &Self,
        vr: Option<Round>,
        b: B,
    ) -> bool {
        exists|valid: bool|
            match #[trigger] spec_prevote(
                valid,
                b.spec_id(),
                lock_view(old.block.locked),
                vr,
                old.valid_round_quorum(new.block.log, vr, b.spec_id()),
            ) {
                Some(vote) => Self::prevotes(old, new, vote),
                None => new.queue == old.queue && new.block.round.step == old.block.round.step,
            }
    }

    /// Setting the valid block, and the lock and precommit at the prevote step, on a
    /// proposal `b` with a prevote quorum in the current round (lines 36 to 43); or
    /// nothing but an error naming the proposer, when the host finds `b` fatally
    /// invalid.
    pub open spec fn locks_on(old: &Self, new: &Self, b: B, r: Result<Option<B>, TendermintError>) -> bool {
        let cur = old.block.round.number;
        ||| r == Err::<Option<B>, TendermintError>(TendermintError::Malicious(old.proposer_at(cur)))
            && Self::votes_unchanged(old, new)
        ||| {
            &&& r == Ok::<Option<B>, TendermintError>(None)
            &&& new.block.valid matches Some(x) && x.0 == cur && x.1.spec_id() == b.spec_id()
            &&& if old.block.round.step == Step::Prevote {
                &&& lock_view(new.block.locked) == Some((cur, b.spec_id()))
                &&& Self::precommits(old, new, b.spec_id())
            } else {
                &&& new.queue == old.queue
                &&& new.block.round.step == old.block.round.step
                &&& new.block.locked == old.block.locked
            }
        }
    }

    /// What the rules of the current round (lines 22 to 48) do once a new message at
    /// `step` of it is logged in `new`'s log, everything else being as in `old`.
    pub open spec fn round_rules(
        old: &Self,
        new: &Self,
        step: Step,
        r: Result<Option<B>, TendermintError>,
    ) -> bool {
        let cur = old.block.round.number;
        let log = new.block.log;
        let w = old.weights@;
        let n = w.len() as int;
        let at_prevote = old.block.round.step == Step::Prevote && step == Step::Prevote;
        let nil_quorum = at_prevote && log.matching_weight(w, cur.0, Step::Prevote, None, n)
            >= old.quorum();
        &&& r.is_err() ==> r == Err::<Option<B>, TendermintError>(
            TendermintError::Malicious(old.proposer_at(cur)),
        )
        // 34-35
        &&& at_prevote && log.step_weight(w, cur.0, Step::Prevote, n) >= old.quorum()
            ==> new.block.round.prevote_timeout == Some(old.block.round.deadline(Step::Prevote) as u64)
        // 47-48
        &&& step == Step::Precommit && log.step_weight(w, cur.0, Step::Precommit, n) >= old.quorum()
            ==> new.block.round.precommit_timeout == Some(
            old.block.round.deadline(Step::Precommit) as u64,
        )
        // 44-46
        &&& nil_quorum ==> Self::broadcasts(old, new, Data::Precommit(None)) && r == Ok::<
            Option<B>,
            TendermintError,
        >(None) && new.block.locked == old.block.locked && new.block.valid == old.block.valid
        &&& !nil_quorum ==> match log.entry(cur.0, old.proposer_at(cur), Step::Propose) {
            Some(Data::Proposal(vr, b)) => if old.block.round.step == Step::Propose {
                if vr matches Some(v) && v.0 >= cur.0 {
                    r == Err::<Option<B>, TendermintError>(
                        TendermintError::Malicious(old.proposer_at(cur)),
                    ) && Self::votes_unchanged(old, new)
                } else {
                    &&& Self::casts_first_prevote(old, new, vr, b)
                    &&& new.block.locked == old.block.locked
                    &&& new.block.valid == old.block.valid
                }
            } else if (old.block.valid matches Some(x) && x.0 == cur)
                || !log.spec_has_consensus(w, cur.0, Step::Prevote, Some(b.spec_id())) {
                r == Ok::<Option<B>, TendermintError>(None) && Self::votes_unchanged(old, new)
            } else {
                Self::locks_on(old, new, b, r)
            },
            _ => r == Ok::<Option<B>, TendermintError>(None) && Self::votes_unchanged(old, new),
        }
    }

    /// The first vote of a round on the proposal `block` of `proposer`, with valid
    /// round `vr` (lines 22 to 33). A valid round at or after the current round is
    /// malformed; a proposal the host finds fatally invalid is prevoted nil, and its
    /// proposer reported.
    fn first_vote<N: Network<B>>(
        &mut self,
        net: &mut N,
        proposer: ValidatorIndex,
        vr: Option<Round>,
        block: B,
    ) -> (r: Result<Option<B>, TendermintError>)
        requires
            old(self).wf(),
        ensures
            final(self).block.slashes == old(self).block.slashes,
            Self::advances(old(self), final(self)),
            final(self).block.log == old(self).block.log,
            final(self).block.round.number == old(self).block.round.number,
            final(self).block.locked == old(self).block.locked,
            Self::prevotes_respect_lock(old(self), final(self)),
            r.is_ok() ==> r == Ok::<Option<B>, TendermintError>(None),
            r.is_err() ==> r == Err::<Option<B>, TendermintError>(
                TendermintError::Malicious(proposer),
            ),
            final(self).block.valid == old(self).block.valid,
            Self::timeouts_unchanged(old(self), final(self)),
            vr matches Some(v) && v.0 >= old(self).block.round.number.0 ==> r == Err::<
                Option<B>,
                TendermintError,
            >(TendermintError::Malicious(proposer)) && Self::votes_unchanged(old(self), final(self)),
            !(vr matches Some(v) && v.0 >= old(self).block.round.number.0)
                ==> Self::casts_first_prevote(old(self), final(self), vr, block),
    {
        proof {
            Self::lemma_advances_refl(self);
        }
        let current = self.block.round.number;
        let (valid, err) = match net.validate(&block) {
            Ok(()) => (true, Ok(None)),
            Err(BlockError::Temporal) => (false, Ok(None)),
            Err(BlockError::Fatal) => (false, Err(TendermintError::Malicious(proposer))),
        };
        let id = block.id();
        let mut vr_consensus = false;
        if let Some(v) = vr {
            if v.0 >= current.0 {
                return Err(TendermintError::Malicious(proposer));
            }
            let prevote: Data<B> = Data::Prevote(Some(copy_bytes(&id)));
            vr_consensus = self.block.log.has_consensus(&self.weights, v, &prevote);
        }
        let ghost start = *self;
        assert(vr_consensus == self.valid_round_quorum(self.block.log, vr, block.spec_id()));
        match prevote_decision(valid, &id, &self.block.locked, vr, vr_consensus) {
            Some(vote) => {
                let ghost before = *self;
                let ghost vote_view = opt_view(vote);
                self.broadcast(Data::Prevote(vote));
                proof {
                    Self::lemma_advances_trans(old(self), &before, self);
                    if before.block.validator_id.is_some() {
                        assert(self.queue@.drop_last() =~= before.queue@);
                    }
                    assert(Self::prevotes(old(self), self, vote_view));
                    assert(match spec_prevote(
                        valid,
                        block.spec_id(),
                        lock_view(old(self).block.locked),
                        vr,
                        old(self).valid_round_quorum(self.block.log, vr, block.spec_id()),
                    ) {
                        Some(v) => Self::prevotes(old(self), self, v),
                        None => self.queue == old(self).queue && self.block.round.step
                            == old(self).block.round.step,
                    });
                }
                err
            },
            None => {
                proof {
                    assert(match spec_prevote(
                        valid,
                        block.spec_id(),
                        lock_view(old(self).block.locked),
                        vr,
                        old(self).valid_round_quorum(self.block.log, vr, block.spec_id()),
                    ) {
                        Some(v) => Self::prevotes(old(self), self, v),
                        None => self.queue == old(self).queue && self.block.round.step
                            == old(self).block.round.step,
                    });
                }
                Ok(None)
            },
        }
    }

    /// Sets the valid block, and locks and precommits on it when still at the
    /// prevote step, once the proposal `block` has a prevote quorum in the current
    /// round (lines 36 to 43). Runs once per round.
    fn lock_and_precommit<N: Network<B>>(&mut self, net: &mut N, proposer: ValidatorIndex, block: B) -> (r:
        Result<Option<B>, TendermintError>)
        requires
            old(self).wf(),
        ensures
            final(self).block.slashes == old(self).block.slashes,
            Self::advances(old(self), final(self)),
            final(self).block.log == old(self).block.log,
            final(self).block.round.number == old(self).block.round.number,
            Self::locks_on_quorum(old(self), final(self)),
            Self::prevotes_respect_lock(old(self), final(self)),
            r.is_ok() ==> r == Ok::<Option<B>, TendermintError>(None),
            r.is_err() ==> r == Err::<Option<B>, TendermintError>(
                TendermintError::Malicious(proposer),
            ),
            Self::timeouts_unchanged(old(self), final(self)),
            (old(self).block.valid matches Some(x) && x.0 == old(self).block.round.number)
                || !old(self).block.log.spec_has_consensus(
                old(self).weights@,
                old(self).block.round.number.0,
                Step::Prevote,
                Some(block.spec_id()),
            ) ==> r == Ok::<Option<B>, TendermintError>(None) && Self::votes_unchanged(
                old(self),
                final(self),
            ),
            !((old(self).block.valid matches Some(x) && x.0 == old(self).block.round.number)
                || !old(self).block.log.spec_has_consensus(
                old(self).weights@,
                old(self).block.round.number.0,
                Step::Prevote,
                Some(block.spec_id()),
            )) && proposer == old(self).proposer_at(old(self).block.round.number) ==> Self::locks_on(
                old(self),
                final(self),
                block,
                r,
            ),
    {
        proof {
            Self::lemma_advances_refl(self);
        }
        let ghost block_id = block.spec_id();
        let current = self.block.round.number;
        let valid_here = match &self.block.valid {
            Some(v) => v.0.0 == current.0,
            None => false,
        };
        if valid_here {
            return Ok(None);
        }
        let id = block.id();
        let prevote: Data<B> = Data::Prevote(Some(copy_bytes(&id)));
        if !self.block.log.has_consensus(&self.weights, current, &prevote) {
            return Ok(None);
        }
        match net.validate(&block) {
            Err(BlockError::Fatal) => {
                return Err(TendermintError::Malicious(proposer));
            },
            _ => {},
        }
        self.block.valid = Some((current, block));
        if self.block.round.step == Step::Prevote {
            self.block.locked = Some((current, copy_bytes(&id)));
            let end_time = self.block.timing.end_time[current.0 as usize];
            let sig = net.sign(&commit_msg(end_time, &id));
            let ghost before = *self;
            self.broadcast(Data::Precommit(Some((id, sig))));
            proof {
                Self::lemma_advances_trans(old(self), &before, self);
                if before.block.validator_id.is_some() {
                    assert(self.queue@.drop_last() =~= before.queue@);
                }
            }
        }
        Ok(None)
    }

    /// The rules that apply to the current round once a new message of it is logged
    /// (lines 22 to 48), `step` being the step of that message.
    fn process_round<N: Network<B>>(&mut self, net: &mut N, step: Step) -> (r: Result<
        Option<B>,
        TendermintError,
    >)
        requires
            old(self).wf(),
        ensures
            final(self).block.slashes == old(self).block.slashes,
            Self::advances(old(self), final(self)),
            final(self).block.log == old(self).block.log,
            final(self).block.round.number == old(self).block.round.number,
            Self::locks_on_quorum(old(self), final(self)),
            Self::prevotes_respect_lock(old(self), final(self)),
            r.is_ok() ==> r == Ok::<Option<B>, TendermintError>(None),
            Self::round_rules(old(self), final(self), step, r),
    {
        proof {
            Self::lemma_advances_refl(self);
        }
        let current = self.block.round.number;
        let threshold = self.weights.threshold();
        if self.block.round.step == Step::Prevote && step == Step::Prevote {
            let nil: Data<B> = Data::Prevote(None);
            let (participation, weight) = self.block.log.message_instances(
                &self.weights,
                current,
                &nil,
            );
            // 34-35
            if participation >= threshold {
                self.block.round.set_timeout(Step::Prevote);
            }
            // 44-46
            if weight >= threshold {
                let ghost before = *self;
                self.broadcast(Data::Precommit(None));
                proof {
                    Self::lemma_advances_trans(old(self), &before, self);
                }
                return Ok(None);
            }
        }
        // 47-48
        if step == Step::Precommit && self.block.log.has_participation(
            &self.weights,
            current,
            Step::Precommit,
        ) {
            self.block.round.set_timeout(Step::Precommit);
        }
        let ghost mid = *self;
        proof {
            Self::lemma_advances_refl(&mid);
            assert(Self::advances(old(self), &mid)) by {
                assert(mid.queue@.subrange(0, mid.queue@.len() as int) =~= mid.queue@);
                assert(mid.pending_slashes@.subrange(0, mid.pending_slashes@.len() as int)
                    =~= mid.pending_slashes@);
            }
        }
        let proposer = self.weights.proposer(self.block.number, current);
        let proposal = match self.block.log.get(current, proposer, Step::Propose) {
            Some(Data::Proposal(vr, b)) => Some((*vr, b.duplicate())),
            _ => None,
        };
        match proposal {
            None => Ok(None),
            Some((vr, block)) => {
                let r = if self.block.round.step == Step::Propose {
                    self.first_vote(net, proposer, vr, block)
                } else {
                    self.lock_and_precommit(net, proposer, block)
                };
                proof {
                    Self::lemma_advances_trans(old(self), &mid, self);
                }
                r
            },
        }
    }

    /// What handling a message of the current height gives once its signature
    /// passed: a proposal from anyone but the round's proposer, a vote that
    /// contradicts an earlier one of the same sender, are `Malicious(sender)`; a
    /// replay changes nothing; a new message is logged, a finished round's proposal
    /// is returned, and a message of a past round that finishes nothing ends there.
    pub open spec fn handles(
        old: &Self,
        new: &Self,
        msg: Message<B>,
        r: Result<Option<B>, TendermintError>,
    ) -> bool {
        if msg.data is Proposal && msg.sender != old.proposer_at(msg.round) {
            r == Err::<Option<B>, TendermintError>(TendermintError::Malicious(msg.sender)) && *new
                == *old
        } else {
            match old.block.log.entry(msg.round.0, msg.sender, msg.data.spec_step()) {
                Some(e) => {
                    &&& r == if e.same_as(&msg.data) {
                        Ok::<Option<B>, TendermintError>(None)
                    } else {
                        Err(TendermintError::Malicious(msg.sender))
                    }
                    &&& *new == *old
                },
                None => if old.block.log.conflicts(&msg) {
                    &&& r == Err::<Option<B>, TendermintError>(
                        TendermintError::Malicious(msg.sender),
                    )
                    &&& *new == *old
                } else {
                    &&& new.block.log.entries@ == old.block.log.entries@.push(
                        LogEntry { round: msg.round, sender: msg.sender, data: msg.data },
                    )
                    &&& (msg.data is Proposal || msg.data is Precommit) && new.is_committed(
                        msg.round,
                    ) ==> r.is_ok() && r.unwrap().is_some()
                    &&& msg.round.0 < old.block.round.number.0 && !new.is_committed(msg.round)
                        ==> r == Ok::<Option<B>, TendermintError>(None) && new.queue == old.queue
                    &&& msg.round.0 > old.block.round.number.0 && !new.is_committed(msg.round)
                        ==> if new.block.log.round_weight(
                        old.weights@,
                        msg.round.0,
                        old.weights@.len() as int,
                    ) > fault_threshold_of(sum_weights(old.weights@, old.weights@.len() as int)) {
                        &&& new.block.round.number == msg.round
                        &&& exists|verdicts: Seq<bool>| #[trigger] Self::rechecked(
                            old,
                            new,
                            msg.round,
                            verdicts,
                        )
                    } else {
                        &&& r == Ok::<Option<B>, TendermintError>(None)
                        &&& new.block.round.number == old.block.round.number
                        &&& new.block.timing == old.block.timing
                        &&& new.queue == old.queue
                    }
                    &&& msg.round == old.block.round.number && !new.is_committed(msg.round)
                        ==> Self::round_rules(old, new, msg.data.spec_step(), r)
                },
            }
        }
    }

    /// What handling `msg` does, `signature_ok` being the scheme's verdict on the
    /// signature of a precommit whose round end is known (any other message has no
    /// signature to check here).
    pub open spec fn outcome(
        old: &Self,
        new: &Self,
        msg: Message<B>,
        signature_ok: bool,
        r: Result<Option<B>, TendermintError>,
    ) -> bool {
        &&& Self::advances(old, new)
        &&& Self::locks_on_quorum(old, new)
        &&& Self::prevotes_respect_lock(old, new)
        &&& msg.number != old.block.number ==> r == Err::<Option<B>, TendermintError>(
            TendermintError::Temporal,
        ) && *new == *old
        &&& msg.number == old.block.number ==> if old.checks_signature(msg.round, msg.data)
            && !signature_ok {
            r == Err::<Option<B>, TendermintError>(TendermintError::Malicious(msg.sender)) && *new
                == *old
        } else {
            Self::handles(old, new, msg, r)
        }
        &&& r matches Ok(Some(b)) ==> new.is_committed(msg.round) && b.spec_id()
            == new.proposed_block(msg.round).unwrap().spec_id()
    }

    /// Handles a consensus message (the local validator's own or a peer's, whose
    /// message signature was already checked), checking a precommit's signature with
    /// the scheme when the end of its round is known, and deferring the check
    /// otherwise. See `handle_message` for the rest.
    pub fn message<N: Network<B>>(&mut self, net: &mut N, msg: Message<B>) -> (r: Result<
        Option<B>,
        TendermintError,
    >)
        requires
            old(self).wf(),
        ensures
            exists|signature_ok: bool| Self::outcome(old(self), final(self), msg, signature_ok, r),
            !old(self).checks_signature(msg.round, msg.data) ==> Self::outcome(
                old(self),
                final(self),
                msg,
                true,
                r,
            ),
    {
        let ghost m = msg;
        let signature_ok = msg.number.0 != self.block.number.0
            || self.verify_precommit_signature(&*net, msg.sender, msg.round, &msg.data).is_ok();
        let r = self.handle_message(net, msg, signature_ok);
        assert(Self::outcome(old(self), self, m, signature_ok, r));
        r
    }

    /// Handles a consensus message of the current height, `signature_ok` being the
    /// scheme's verdict on a precommit's signature over the commit message of its
    /// round, when that round's end is known.
    ///
    /// In order: a message of another height is `Temporal`; a precommit whose
    /// signature failed, a proposal from anyone but the round's proposer, and a vote
    /// that contradicts an earlier one of the same sender are `Malicious(sender)`; a
    /// replay changes nothing. A new message is logged; then a round whose proposal
    /// gathered a precommit quorum yields that block, a past round ends the
    /// handling, and a future round is entered when its participation exceeds the
    /// fault threshold, after the precommit signatures of that round are checked.
    /// The rules of the current round (`round_rules`) then run.
    pub fn handle_message<N: Network<B>>(
        &mut self,
        net: &mut N,
        msg: Message<B>,
        signature_ok: bool,
    ) -> (r: Result<Option<B>, TendermintError>)
        requires
            old(self).wf(),
        ensures
            Self::outcome(old(self), final(self), msg, signature_ok, r),
    {
        proof {
            Self::lemma_advances_refl(self);
        }
        if msg.number.0 != self.block.number.0 {
            return Err(TendermintError::Temporal);
        }
        let checks = match &msg.data {
            Data::Precommit(Some(_)) => (msg.round.0 as usize) < self.block.timing.end_time.len(),
            _ => false,
        };
        if checks && !signature_ok {
            return Err(TendermintError::Malicious(msg.sender));
        }
        let is_proposal = matches!(msg.data, Data::Proposal(..));
        let is_precommit = matches!(msg.data, Data::Precommit(..));
        if is_proposal && msg.sender != self.weights.proposer(msg.number, msg.round) {
            return Err(TendermintError::Malicious(msg.sender));
        }
        let round = msg.round;
        let step = msg.data.step();
        let ghost before_log = *self;
        match self.block.log.log(msg) {
            Err(e) => {
                return Err(e);
            },
            Ok(false) => {
                return Ok(None);
            },
            Ok(true) => {},
        }
        let ghost logged = *self;
        proof {
            Self::lemma_advances_refl(&before_log);
            assert(Self::advances(&before_log, &logged)) by {
                assert(logged.queue@.subrange(0, logged.queue@.len() as int) =~= logged.queue@);
                assert(logged.pending_slashes@.subrange(0, logged.pending_slashes@.len() as int)
                    =~= logged.pending_slashes@);
            }
        }
        // 49-52
        if is_proposal || is_precommit {
            if let Some(block) = self.committed_block(round) {
                return Ok(Some(block));
            }
        }
        let current = self.block.round.number;
        if round.0 < current.0 {
            return Ok(None);
        }
        let ghost mut verdicts: Seq<bool> = Seq::empty();
        if round.0 > current.0 {
            // 55-56
            let participation = self.block.log.round_participation(&self.weights, round);
            if should_jump(participation, self.weights.fault_threshold()) {
                self.block.timing.populate(round);
                let ghost populated = *self;
                self.reverify_round(&*net, round);
                let ghost reverified = *self;
                proof {
                    verdicts = choose|vs: Seq<bool>| Self::rechecked(&populated, &reverified, round, vs);
                    assert(Self::rechecked(old(self), &reverified, round, verdicts));
                }
                let proposed = self.start_round(round);
                proof {
                    assert(Self::advances(&logged, &populated)) by {
                        assert(populated.queue@.subrange(0, populated.queue@.len() as int)
                            =~= populated.queue@);
                        assert(populated.pending_slashes@.subrange(
                            0,
                            populated.pending_slashes@.len() as int,
                        ) =~= populated.pending_slashes@);
                    }
                    Self::lemma_advances_trans(&logged, &populated, &reverified);
                    Self::lemma_advances_trans(&logged, &reverified, self);
                }
                proof {
                    Self::lemma_rechecked_frame(old(self), &reverified, self, round, verdicts);
                }
                if proposed {
                    return Ok(None);
                }
            } else {
                return Ok(None);
            }
        }
        let ghost entered = *self;
        let r = self.process_round(net, step);
        proof {
            Self::lemma_advances_trans(&logged, &entered, self);
            if round.0 > current.0 {
                assert(Self::rechecked(old(self), &entered, round, verdicts));
                Self::lemma_rechecked_frame(old(self), &entered, self, round, verdicts);
            }
        }
        r
    }

    /// Handles the timeout of `step` firing. The timeout is disarmed; when the
    /// round is still at that step, a propose timeout slashes the silent proposer
    /// and prevotes nil, a prevote timeout precommits nil, and a precommit timeout
    /// enters the next round (the last round, `u16::MAX`, has no next one).
    pub fn on_timeout(&mut self, step: Step)
        requires
            old(self).wf(),
        ensures
            Self::advances(old(self), final(self)),
            final(self).block.log == old(self).block.log,
            final(self).block.locked == old(self).block.locked,
            final(self).block.valid == old(self).block.valid,
            old(self).block.round.step != step ==> final(self).block.round.armed(step).is_none()
                && final(self).queue == old(self).queue && final(self).block.slashes
                == old(self).block.slashes && final(self).block.round.number
                == old(self).block.round.number && final(self).pending_slashes
                == old(self).pending_slashes,
            old(self).block.round.step == step ==> match step {
                Step::Propose => {
                    &&& final(self).slashed(old(self).proposer_at(old(self).block.round.number))
                    &&& final(self).pending_slashes@ == if old(self).slashed(
                        old(self).proposer_at(old(self).block.round.number),
                    ) {
                        old(self).pending_slashes@
                    } else {
                        old(self).pending_slashes@.push(
                            old(self).proposer_at(old(self).block.round.number),
                        )
                    }
                    &&& Self::broadcasts(old(self), final(self), Data::Prevote(None))
                    &&& final(self).block.round.number == old(self).block.round.number
                },
                Step::Prevote => {
                    &&& Self::broadcasts(old(self), final(self), Data::Precommit(None))
                    &&& final(self).pending_slashes == old(self).pending_slashes
                    &&& final(self).block.slashes == old(self).block.slashes
                    &&& final(self).block.round.number == old(self).block.round.number
                },
                Step::Precommit => {
                    &&& old(self).block.round.number.0 < u16::MAX
                        ==> final(self).block.round.number.0 == old(self).block.round.number.0 + 1
                        && final(self).block.round.step == Step::Propose
                    &&& final(self).block.slashes == old(self).block.slashes
                    &&& final(self).pending_slashes == old(self).pending_slashes
                },
            },
    {
        proof {
            Self::lemma_advances_refl(self);
        }
        self.block.round.remove_timeout(step);
        let ghost disarmed = *self;
        proof {
            assert(disarmed.queue@.subrange(0, disarmed.queue@.len() as int) =~= disarmed.queue@);
            assert(disarmed.pending_slashes@.subrange(0, disarmed.pending_slashes@.len() as int)
                =~= disarmed.pending_slashes@);
        }
        if self.block.round.step != step {
            return;
        }
        match step {
            Step::Propose => {
                let proposer = self.weights.proposer(self.block.number, self.block.round.number);
                self.slash(proposer);
                let ghost slashed = *self;
                self.broadcast(Data::Prevote(None));
                proof {
                    Self::lemma_advances_trans(&disarmed, &slashed, self);
                }
            },
            Step::Prevote => {
                self.broadcast(Data::Precommit(None));
            },
            Step::Precommit => {
                if self.block.round.number.0 < u16::MAX {
                    self.start_round(Round(self.block.round.number.0 + 1));
                }
            },
        }
        proof {
            Self::lemma_advances_trans(old(self), &disarmed, self);
        }
    }

    /// The validators that precommitted to `id` in `round`, in increasing order,
    /// each with the signature of its logged precommit of that round.
    pub fn precommits_for(&self, round: Round, id: &Vec<u8>) -> (r: (Vec<ValidatorIndex>, Vec<Vec<u8>>))
        requires
            self.wf(),
        ensures
            r.0@.len() == r.1@.len(),
            forall|i: int|
                0 <= i < r.0@.len() ==> match self.block.log.entry(
                    round.0,
                    #[trigger] r.0@[i],
                    Step::Precommit,
                ) {
                    Some(Data::Precommit(Some(p))) => r.1@[i]@ == p.1@,
                    _ => false,
                },
            forall|i: int|
                0 <= i < r.0@.len() ==> (#[trigger] r.0@[i] as int) < self.weights@.len()
                    && self.block.log.sends_vote(
                    round.0,
                    r.0@[i] as int,
                    Step::Precommit,
                    Some(id@),
                ),
            forall|i: int, j: int| 0 <= i < j < r.0@.len() ==> r.0@[i] < r.0@[j],
            forall|v: int|
                0 <= v < self.weights@.len() && #[trigger] self.block.log.sends_vote(
                    round.0,
                    v,
                    Step::Precommit,
                    Some(id@),
                ) ==> r.0@.contains(v as ValidatorIndex),
    {
        let n = self.weights.len();
        let mut validators: Vec<ValidatorIndex> = Vec::new();
        let mut sigs: Vec<Vec<u8>> = Vec::new();
        let mut v: usize = 0;
        while v < n
            invariant
                self.wf(),
                n == self.weights@.len(),
                v <= n,
                validators@.len() == sigs@.len(),
                forall|i: int|
                    0 <= i < validators@.len() ==> match self.block.log.entry(
                        round.0,
                        #[trigger] validators@[i],
                        Step::Precommit,
                    ) {
                        Some(Data::Precommit(Some(p))) => sigs@[i]@ == p.1@,
                        _ => false,
                    },
                forall|i: int|
                    0 <= i < validators@.len() ==> (#[trigger] validators@[i] as int) < v
                        && self.block.log.sends_vote(
                        round.0,
                        validators@[i] as int,
                        Step::Precommit,
                        Some(id@),
                    ),
                forall|i: int, j: int|
                    0 <= i < j < validators@.len() ==> validators@[i] < validators@[j],
                forall|u: int|
                    0 <= u < v && #[trigger] self.block.log.sends_vote(
                        round.0,
                        u,
                        Step::Precommit,
                        Some(id@),
                    ) ==> validators@.contains(u as ValidatorIndex),
            decreases n - v,
        {
            proof {
                crate::message_log::lemma_find_entry_step(
                    self.block.log.entries@,
                    round.0,
                    v as ValidatorIndex,
                    Step::Precommit,
                );
            }
            match self.block.log.get(round, v as ValidatorIndex, Step::Precommit) {
                Some(Data::Precommit(Some(p))) => {
                    if bytes_eq(&p.0, id) {
                        let ghost before = validators@;
                        validators.push(v as ValidatorIndex);
                        sigs.push(copy_bytes(&p.1));
                        proof {
                            assert forall|u: int|
                                0 <= u < v + 1 && #[trigger] self.block.log.sends_vote(
                                    round.0,
                                    u,
                                    Step::Precommit,
                                    Some(id@),
                                ) implies validators@.contains(u as ValidatorIndex) by {
                                if u < v {
                                    let k = choose|k: int|
                                        0 <= k < before.len() && before[k] == u as ValidatorIndex;
                                    assert(validators@[k] == u as ValidatorIndex);
                                } else {
                                    assert(validators@[before.len() as int] == u as ValidatorIndex);
                                }
                            }
                        }
                    }
                },
                _ => {},
            }
            v = v + 1;
        }
        (validators, sigs)
    }

    /// The commit of the block `id` finalized in `round`: the round's canonical end,
    /// the validators that precommitted to `id` in that round, and the aggregate of
    /// their signatures. When the round's proposal gathered a precommit quorum, the
    /// listed validators weigh at least the threshold.
    pub fn build_commit<N: Network<B>>(&mut self, net: &N, round: Round, id: &Vec<u8>) -> (r:
        Commit)
        requires
            old(self).wf(),
        ensures
            Self::advances(old(self), final(self)),
            final(self).block.log == old(self).block.log,
            final(self).block.round == old(self).block.round,
            final(self).queue == old(self).queue,
            final(self).block.slashes == old(self).block.slashes,
            final(self).block.locked == old(self).block.locked,
            final(self).block.valid == old(self).block.valid,
            r.end_time == old(self).block.timing.end_of(round.0 as nat),
            forall|i: int|
                0 <= i < r.validators@.len() ==> (#[trigger] r.validators@[i] as int)
                    < old(self).weights@.len() && old(self).block.log.sends_vote(
                    round.0,
                    r.validators@[i] as int,
                    Step::Precommit,
                    Some(id@),
                ),
            forall|i: int, j: int|
                0 <= i < j < r.validators@.len() ==> r.validators@[i] < r.validators@[j],
            weight_where(
                old(self).weights@,
                |v: int| r.validators@.contains(v as ValidatorIndex),
                old(self).weights@.len() as int,
            ) == old(self).block.log.matching_weight(
                old(self).weights@,
                round.0,
                Step::Precommit,
                Some(id@),
                old(self).weights@.len() as int,
            ),
            old(self).is_committed(round) && id@ == old(self).proposed_block(
                round,
            ).unwrap().spec_id() ==> weight_where(
                old(self).weights@,
                |v: int| r.validators@.contains(v as ValidatorIndex),
                old(self).weights@.len() as int,
            ) >= threshold_of(sum_weights(old(self).weights@, old(self).weights@.len() as int)),
    {
        proof {
            Self::lemma_advances_refl(self);
        }
        self.block.timing.populate(round);
        let end_time = self.block.timing.end_time[round.0 as usize];
        let (validators, sigs) = self.precommits_for(round, id);
        let signature = net.aggregate(&sigs);
        proof {
            let w = self.weights@;
            let n = w.len() as int;
            assert forall|v: int| 0 <= v < n implies #[trigger] validators@.contains(
                v as ValidatorIndex,
            ) == self.block.log.sends_vote(round.0, v, Step::Precommit, Some(id@)) by {
                if validators@.contains(v as ValidatorIndex) {
                    let k = choose|k: int|
                        0 <= k < validators@.len() && validators@[k] == v as ValidatorIndex;
                    assert((validators@[k] as int) < n);
                    assert(validators@[k] as int == v);
                }
            }
            lemma_weight_where_ext(
                w,
                |v: int| validators@.contains(v as ValidatorIndex),
                |v: int| self.block.log.sends_vote(round.0, v, Step::Precommit, Some(id@)),
                n,
            );
            assert(self.queue@.subrange(0, self.queue@.len() as int) =~= self.queue@);
            assert(self.pending_slashes@.subrange(0, self.pending_slashes@.len() as int)
                =~= self.pending_slashes@);
        }
        Commit { end_time, validators, signature }
    }

    /// The state a height starts in: the next block number, the given validator id and
    /// proposal, nothing logged or slashed, round 0 starting at `start`, no lock and no
    /// valid block, and round 0's proposal queued when the validator proposes it, its
    /// propose timeout armed otherwise.
    pub open spec fn fresh_height(
        old: &Self,
        new: &Self,
        start: nat,
        proposal: B,
        validator_id: Option<ValidatorIndex>,
    ) -> bool {
        &&& new.wf()
        &&& new.weights == old.weights
        &&& new.pending_slashes == old.pending_slashes
        &&& new.block.number.0 == old.block.number.0 + 1
        &&& new.block.validator_id == validator_id
        &&& new.block.proposal == proposal
        &&& new.block.log.entries@.len() == 0
        &&& new.block.log.precommitted@.len() == 0
        &&& new.block.slashes@.len() == 0
        &&& new.block.timing.start_time == start
        &&& new.block.timing.block_time == old.block.timing.block_time
        &&& new.block.timing.end_time@.len() == 1
        &&& new.block.round.number.0 == 0
        &&& new.block.round.step == Step::Propose
        &&& new.block.round.prevote_timeout.is_none()
        &&& new.block.round.precommit_timeout.is_none()
        &&& new.block.locked.is_none()
        &&& new.block.valid.is_none()
        &&& if validator_id == Some(new.proposer_at(Round(0))) {
            &&& new.queue@.len() == 1
            &&& new.queue@[0].sender == validator_id.unwrap()
            &&& new.queue@[0].number == new.block.number
            &&& new.queue@[0].round.0 == 0
            &&& new.block.round.propose_timeout.is_none()
            &&& match new.queue@[0].data {
                Data::Proposal(vr, b) => vr.is_none() && b.spec_id() == proposal.spec_id(),
                _ => false,
            }
        } else {
            &&& new.queue@.len() == 0
            &&& new.block.round.propose_timeout == Some(
                new.block.round.deadline(Step::Propose) as u64,
            )
        }
    }

    /// Moves to the next height once `end_round` finalized (lines 53 and 54): the
    /// queued messages, all of the finished height, are dropped, and round 0 of the
    /// next height starts where `end_round` ended. The caller waits for that end
    /// before calling.
    pub fn reset(
        &mut self,
        end_round: Round,
        proposal: B,
        validator_id: Option<ValidatorIndex>,
    )
        requires
            old(self).wf(),
            old(self).block.number.0 < u32::MAX,
            old(self).block.timing.end_of(end_round.0 as nat) <= MAX_START_TIME,
        ensures
            Self::fresh_height(
                old(self),
                final(self),
                old(self).block.timing.end_of(end_round.0 as nat),
                proposal,
                validator_id,
            ),
    {
        self.block.timing.populate(end_round);
        let start = self.block.timing.end_time[end_round.0 as usize];
        assert(self.block.timing.end_time@[end_round.0 as int] == self.block.timing.end_of(
            end_round.0 as nat,
        ));
        let block_time = self.block.timing.block_time;
        let timing = Timing::new(start, block_time);
        let round_start = timing.start(Round(0));
        self.queue = Vec::new();
        self.block = BlockData {
            number: BlockNumber(self.block.number.0 + 1),
            validator_id,
            proposal,
            log: MessageLog::new(),
            slashes: Vec::new(),
            timing,
            round: RoundData::new(Round(0), round_start, block_time),
            locked: None,
            valid: None,
        };
        let proposed = self.start_round(Round(0));
        if proposed {
            assert(self.queue@[0] == self.queue@.last());
        }
    }

    /// Moves to the next height on a commit of this height that arrived from outside,
    /// whose canonical end time is `end_time`: the height ends with the round that
    /// ended then, as `reset` would end it. The caller waits for that time before
    /// calling. A commit time that is no round's end is no commit of this height.
    pub fn reset_by_commit(
        &mut self,
        end_time: u64,
        proposal: B,
        validator_id: Option<ValidatorIndex>,
    )
        requires
            old(self).wf(),
            old(self).block.number.0 < u32::MAX,
            end_time <= MAX_START_TIME,
            exists|k: u16| #[trigger] old(self).block.timing.end_of(k as nat) == end_time,
        ensures
            Self::fresh_height(old(self), final(self), end_time as nat, proposal, validator_id),
    {
        match self.block.timing.round_ending_at(end_time) {
            Some(round) => self.reset(round, proposal, validator_id),
            None => {
                proof {
                    let k = choose|k: u16| #[trigger] self.block.timing.end_of(k as nat) == end_time;
                    assert(self.block.timing.end_of(k as nat) != end_time);
                }
            },
        }
    }

    /// Canonical end of `round`, making it known first.
    pub fn end_of_round(&mut self, round: Round) -> (r: u64)
        requires
            old(self).wf(),
        ensures
            Self::advances(old(self), final(self)),
            r == old(self).block.timing.end_of(round.0 as nat),
            final(self).block.log == old(self).block.log,
            final(self).block.round == old(self).block.round,
            final(self).queue == old(self).queue,
            final(self).block.slashes == old(self).block.slashes,
            final(self).block.locked == old(self).block.locked,
            final(self).block.valid == old(self).block.valid,
    {
        proof {
            Self::lemma_advances_refl(self);
        }
        self.block.timing.populate(round);
        proof {
            assert(self.queue@.subrange(0, self.queue@.len() as int) =~= self.queue@);
            assert(self.pending_slashes@.subrange(0, self.pending_slashes@.len() as int)
                =~= self.pending_slashes@);
        }
        self.block.timing.end_time[round.0 as usize]
    }

    /// Takes the oldest queued message of the local validator, if any.
    pub fn pop_queued(&mut self) -> (r: Option<Message<B>>)
        requires
            old(self).wf(),
        ensures
            final(self).wf(),
            old(self).queue@.len() == 0 ==> r.is_none() && final(self).queue@ == old(self).queue@,
            old(self).queue@.len() > 0 ==> r == Some(old(self).queue@[0]) && final(self).queue@
                == old(self).queue@.drop_first(),
            final(self).block == old(self).block,
            final(self).weights == old(self).weights,
            final(self).pending_slashes == old(self).pending_slashes,
    {
        if self.queue.len() == 0 {
            None
        } else {
            let ghost q = self.queue@;
            let m = self.queue.remove(0);
            proof {
                assert forall|i: int| 0 <= i < self.queue@.len() implies (#[trigger] self.queue@[i]).number
                    == self.block.number by {
                    assert(self.queue@[i] == q[i + 1]);
                }
                assert(self.queue@ =~= q.drop_first());
            }
            Some(m)
        }
    }

    /// Takes the validators slashed since the last call, in the order they were
    /// slashed.
    pub fn take_slashes(&mut self) -> (r: Vec<ValidatorIndex>)
        requires
            old(self).wf(),
        ensures
            final(self).wf(),
            r@ == old(self).pending_slashes@,
            final(self).pending_slashes@.len() == 0,
            final(self).block == old(self).block,
            final(self).weights == old(self).weights,
            final(self).queue == old(self).queue,
    {
        let mut taken: Vec<ValidatorIndex> = Vec::new();
        std::mem::swap(&mut taken, &mut self.pending_slashes);
        taken
    }

    /// The armed timeout of the current round that fires first.
    pub fn next_timeout(&self) -> (r: Option<(Step, u64)>)
        ensures
            r.is_some() ==> self.block.round.armed(r.unwrap().0) == Some(r.unwrap().1),
            r.is_none() ==> forall|s: Step| #[trigger] self.block.round.armed(s).is_none(),
            r.is_some() ==> forall|s: Step| #[trigger]
                self.block.round.armed(s).is_some() ==> r.unwrap().1
                    <= self.block.round.armed(s).unwrap(),
            r.is_some() ==> forall|s: Step| #[trigger]
                self.block.round.armed(s) == Some(r.unwrap().1) ==> step_rank(r.unwrap().0)
                    <= step_rank(s),
    {
        self.block.round.next_timeout()
    }
}

} // verus!
