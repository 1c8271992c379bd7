use vstd::prelude::*;

use crate::bytes::{bytes_eq, copy_bytes};
use crate::ext::{Block, Round, ValidatorIndex};
use crate::message::{Data, Message, Step, TendermintError};
use crate::weights::{
    lemma_sum_weights_monotone, lemma_weight_where_bounded, sum_weights, threshold_of,
    weight_where, ValidatorWeights, Weights,
};

verus! {

/// One logged message of a height.
#[derive(Debug)]
pub struct LogEntry<B> {
    pub round: Round,
    pub sender: ValidatorIndex,
    pub data: Data<B>,
}

/// The block id a validator has precommitted to in this height.
#[derive(Debug)]
pub struct Precommitted {
    pub sender: ValidatorIndex,
    pub id: Vec<u8>,
}

/// The latest entry of `round`, `sender` and `step`, if any.
pub open spec fn find_entry<B: Block>(
    s: Seq<LogEntry<B>>,
    round: u16,
    sender: ValidatorIndex,
    step: Step,
) -> Option<Data<B>>
    decreases s.len(),
{
    if s.len() == 0 {
        None
    } else if s.last().round.0 == round && s.last().sender == sender && s.last().data.spec_step()
        == step {
        Some(s.last().data)
    } else {
        find_entry(s.drop_last(), round, sender, step)
    }
}

pub proof fn lemma_find_entry_step<B: Block>(
    s: Seq<LogEntry<B>>,
    round: u16,
    sender: ValidatorIndex,
    step: Step,
)
    ensures
        find_entry(s, round, sender, step) matches Some(d) ==> d.spec_step() == step,
    decreases s.len(),
{
    if s.len() > 0 {
        lemma_find_entry_step(s.drop_last(), round, sender, step);
    }
}

/// The block id `sender` is registered as having precommitted to, if any.
pub open spec fn find_precommit(s: Seq<Precommitted>, sender: ValidatorIndex) -> Option<Seq<u8>>
    decreases s.len(),
{
    if s.len() == 0 {
        None
    } else if s.last().sender == sender {
        Some(s.last().id@)
    } else {
        find_precommit(s.drop_last(), sender)
    }
}

/// The messages of one height, one per round, sender and step, and the block id each
/// validator has precommitted to.
#[derive(Debug)]
pub struct MessageLog<B> {
    pub entries: Vec<LogEntry<B>>,
    pub precommitted: Vec<Precommitted>,
}

impl<B: Block> MessageLog<B> {
    /// What `sender` said at `step` of `round`, if anything.
    pub open spec fn entry(&self, round: u16, sender: ValidatorIndex, step: Step) -> Option<
        Data<B>,
    > {
        find_entry(self.entries@, round, sender, step)
    }

    /// The block id `sender` precommitted to in this height, if any.
    pub open spec fn registered(&self, sender: ValidatorIndex) -> Option<Seq<u8>> {
        find_precommit(self.precommitted@, sender)
    }

    /// Every logged precommit for a block agrees with its sender's registered id.
    pub open spec fn wf(&self) -> bool {
        forall|i: int|
            0 <= i < self.entries@.len() ==> match #[trigger] self.entries@[i].data {
                Data::Precommit(Some(p)) => self.registered(self.entries@[i].sender) == Some(
                    p.0@,
                ),
                _ => true,
            }
    }

    /// Whether validator `v` sent anything at `step` of `round`.
    pub open spec fn sends(&self, round: u16, v: int, step: Step) -> bool {
        self.entry(round, v as ValidatorIndex, step).is_some()
    }

    /// Whether validator `v` sent, at `step` of `round`, a vote for `vote`.
    pub open spec fn sends_vote(&self, round: u16, v: int, step: Step, vote: Option<Seq<u8>>) -> bool {
        match self.entry(round, v as ValidatorIndex, step) {
            Some(d) => d.vote() == vote,
            None => false,
        }
    }

    /// Whether validator `v` sent anything in `round`.
    pub open spec fn takes_part(&self, round: u16, v: int) -> bool {
        self.sends(round, v, Step::Propose) || self.sends(round, v, Step::Prevote) || self.sends(
            round,
            v,
            Step::Precommit,
        )
    }

    /// Weight among the first `k` validators of those who sent at `step` of `round`.
    pub open spec fn step_weight(&self, w: Seq<u64>, round: u16, step: Step, k: int) -> nat {
        weight_where(w, |v: int| self.sends(round, v, step), k)
    }

    /// Weight among the first `k` validators of those who voted for `vote` at `step`
    /// of `round`.
    pub open spec fn matching_weight(
        &self,
        w: Seq<u64>,
        round: u16,
        step: Step,
        vote: Option<Seq<u8>>,
        k: int,
    ) -> nat {
        weight_where(w, |v: int| self.sends_vote(round, v, step, vote), k)
    }

    /// Weight among the first `k` validators of those who sent anything in `round`.
    pub open spec fn round_weight(&self, w: Seq<u64>, round: u16, k: int) -> nat {
        weight_where(w, |v: int| self.takes_part(round, v), k)
    }

    /// Whether the vote for `vote` at `step` has a quorum in `round`.
    pub open spec fn spec_has_consensus(
        &self,
        w: Seq<u64>,
        round: u16,
        step: Step,
        vote: Option<Seq<u8>>,
    ) -> bool {
        self.matching_weight(w, round, step, vote, w.len() as int) >= threshold_of(
            sum_weights(w, w.len() as int),
        )
    }

    /// Whether `msg` precommits to a block other than its sender's registered one.
    pub open spec fn conflicts(&self, msg: &Message<B>) -> bool {
        match msg.data {
            Data::Precommit(Some(p)) => match self.registered(msg.sender) {
                Some(prev) => prev != p.0@,
                None => false,
            },
            _ => false,
        }
    }

    /// An empty log.
    pub fn new() -> (r: MessageLog<B>)
        ensures
            r.wf(),
            r.entries@.len() == 0,
            r.precommitted@.len() == 0,
            forall|round: u16, v: ValidatorIndex, step: Step| r.entry(round, v, step).is_none(),
    {
        MessageLog { entries: Vec::new(), precommitted: Vec::new() }
    }

    /// Index of the entry of `round`, `sender` and `step`, if any.
    fn position(&self, round: Round, sender: ValidatorIndex, step: Step) -> (r: Option<usize>)
        ensures
            r.is_none() <==> self.entry(round.0, sender, step).is_none(),
            r.is_some() ==> r.unwrap() < self.entries@.len() && self.entry(round.0, sender, step)
                == Some(self.entries@[r.unwrap() as int].data),
    {
        let ghost s = self.entries@;
        let mut i: usize = self.entries.len();
        assert(s.subrange(0, i as int) =~= s);
        while i > 0
            invariant
                i <= s.len(),
                s == self.entries@,
                find_entry(s, round.0, sender, step) == find_entry(
                    s.subrange(0, i as int),
                    round.0,
                    sender,
                    step,
                ),
            decreases i,
        {
            let e = &self.entries[i - 1];
            assert(s.subrange(0, i as int).drop_last() =~= s.subrange(0, i - 1));
            if e.round.0 == round.0 && e.sender == sender && e.data.step() == step {
                return Some(i - 1);
            }
            i = i - 1;
        }
        None
    }

    /// Whether `sender` already precommitted to some block in this height.
    fn registered_id(&self, sender: ValidatorIndex) -> (r: Option<&Vec<u8>>)
        ensures
            r.is_none() <==> self.registered(sender).is_none(),
            r.is_some() ==> Some(r.unwrap()@) == self.registered(sender),
    {
        let ghost s = self.precommitted@;
        let mut i: usize = self.precommitted.len();
        assert(s.subrange(0, i as int) =~= s);
        while i > 0
            invariant
                i <= s.len(),
                s == self.precommitted@,
                find_precommit(s, sender) == find_precommit(s.subrange(0, i as int), sender),
            decreases i,
        {
            assert(s.subrange(0, i as int).drop_last() =~= s.subrange(0, i - 1));
            if self.precommitted[i - 1].sender == sender {
                return Some(&self.precommitted[i - 1].id);
            }
            i = i - 1;
        }
        None
    }

    /// Records a message. `Ok(true)` when it is new; `Ok(false)` when the same vote
    /// is already logged, which leaves the log as it was; `Malicious(sender)` when the
    /// sender already said something else at that round and step, or precommits to
    /// a block other than the one it precommitted to earlier in this height.
    pub fn log(&mut self, msg: Message<B>) -> (r: Result<bool, TendermintError>)
        requires
            old(self).wf(),
        ensures
            final(self).wf(),
            match old(self).entry(msg.round.0, msg.sender, msg.data.spec_step()) {
                Some(e) => {
                    &&& r == if e.same_as(&msg.data) {
                        Ok::<bool, TendermintError>(false)
                    } else {
                        Err(TendermintError::Malicious(msg.sender))
                    }
                    &&& *final(self) == *old(self)
                },
                None => if old(self).conflicts(&msg) {
                    &&& r == Err::<bool, TendermintError>(TendermintError::Malicious(msg.sender))
                    &&& *final(self) == *old(self)
                } else {
                    &&& r == Ok::<bool, TendermintError>(true)
                    &&& final(self).entries@ == old(self).entries@.push(
                        LogEntry { round: msg.round, sender: msg.sender, data: msg.data },
                    )
                    &&& forall|v: ValidatorIndex| #[trigger]
                        final(self).registered(v) == match msg.data {
                            Data::Precommit(Some(p)) => if v == msg.sender {
                                Some(p.0@)
                            } else {
                                old(self).registered(v)
                            },
                            _ => old(self).registered(v),
                        }
                },
            },
    {
        let step = msg.data.step();
        if let Some(i) = self.position(msg.round, msg.sender, step) {
            if self.entries[i].data.agrees_with(&msg.data) {
                return Ok(false);
            } else {
                return Err(TendermintError::Malicious(msg.sender));
            }
        }
        let ghost old_reg = self.precommitted@;
        if let Data::Precommit(Some(p)) = &msg.data {
            match self.registered_id(msg.sender) {
                Some(prev) => {
                    if !bytes_eq(prev, &p.0) {
                        return Err(TendermintError::Malicious(msg.sender));
                    }
                },
                None => {
                    let id = copy_bytes(&p.0);
                    self.precommitted.push(Precommitted { sender: msg.sender, id });
                    assert(self.precommitted@.drop_last() =~= old_reg);
                },
            }
        }
        let ghost old_entries = self.entries@;
        let ghost mid = *self;
        self.entries.push(LogEntry { round: msg.round, sender: msg.sender, data: msg.data });
        proof {
            assert forall|v: ValidatorIndex| #[trigger]
                self.registered(v) == match msg.data {
                    Data::Precommit(Some(p)) => if v == msg.sender {
                        Some(p.0@)
                    } else {
                        find_precommit(old_reg, v)
                    },
                    _ => find_precommit(old_reg, v),
                } by {}
            assert forall|i: int| 0 <= i < self.entries@.len() implies match #[trigger] self.entries@[i].data {
                Data::Precommit(Some(p)) => self.registered(self.entries@[i].sender) == Some(p.0@),
                _ => true,
            } by {
                if i < old_entries.len() {
                    assert(self.entries@[i] == old_entries[i]);
                    assert(mid.entries@[i] == old_entries[i]);
                }
            }
        }
        Ok(true)
    }

    /// What `sender` said at `step` of `round`, if anything.
    pub fn get(&self, round: Round, sender: ValidatorIndex, step: Step) -> (r: Option<&Data<B>>)
        ensures
            r.is_none() <==> self.entry(round.0, sender, step).is_none(),
            r.is_some() ==> self.entry(round.0, sender, step) == Some(*r.unwrap()),
    {
        match self.position(round, sender, step) {
            Some(i) => Some(&self.entries[i].data),
            None => None,
        }
    }

    /// For a round, the weight of the validators that sent anything at `data`'s step,
    /// and the weight of those whose message there is the same vote as `data`.
    pub fn message_instances(&self, weights: &ValidatorWeights, round: Round, data: &Data<B>) -> (r:
        (u64, u64))
        requires
            weights.wf(),
        ensures
            r.0 == self.step_weight(weights@, round.0, data.spec_step(), weights@.len() as int),
            r.1 == self.matching_weight(weights@, round.0, data.spec_step(), data.vote(), weights@.len() as int),
    {
        let step = data.step();
        let ghost w = weights@;
        let n = weights.len();
        let mut participating: u64 = 0;
        let mut matching: u64 = 0;
        let mut v: usize = 0;
        while v < n
            invariant
                weights.wf(),
                w == weights@,
                n == w.len(),
                v <= n,
                step == data.spec_step(),
                participating == self.step_weight(w, round.0, step, v as int),
                matching == self.matching_weight(w, round.0, step, data.vote(), v as int),
            decreases n - v,
        {
            proof {
                lemma_weight_where_bounded(w, |u: int| self.sends(round.0, u, step), v as int + 1);
                lemma_weight_where_bounded(
                    w,
                    |u: int| self.sends_vote(round.0, u, step, data.vote()),
                    v as int + 1,
                );
                lemma_sum_weights_monotone(w, v as int + 1, n as int);
                lemma_find_entry_step(self.entries@, round.0, v as ValidatorIndex, step);
            }
            let vw = weights.weight(v as ValidatorIndex);
            match self.get(round, v as ValidatorIndex, step) {
                Some(d) => {
                    participating = participating + vw;
                    if d.agrees_with(data) {
                        matching = matching + vw;
                    }
                },
                None => {},
            }
            v = v + 1;
        }
        (participating, matching)
    }

    /// Weight of the validators that sent anything in a round.
    pub fn round_participation(&self, weights: &ValidatorWeights, round: Round) -> (r: u64)
        requires
            weights.wf(),
        ensures
            r == self.round_weight(weights@, round.0, weights@.len() as int),
    {
        let ghost w = weights@;
        let n = weights.len();
        let mut weight: u64 = 0;
        let mut v: usize = 0;
        while v < n
            invariant
                weights.wf(),
                w == weights@,
                n == w.len(),
                v <= n,
                weight == self.round_weight(w, round.0, v as int),
            decreases n - v,
        {
            proof {
                lemma_weight_where_bounded(w, |u: int| self.takes_part(round.0, u), v as int + 1);
                lemma_sum_weights_monotone(w, v as int + 1, n as int);
            }
            let id = v as ValidatorIndex;
            if self.get(round, id, Step::Propose).is_some() || self.get(
                round,
                id,
                Step::Prevote,
            ).is_some() || self.get(round, id, Step::Precommit).is_some() {
                weight = weight + weights.weight(id);
            }
            v = v + 1;
        }
        weight
    }

    /// Whether the vote `data` has a quorum in `round`.
    pub fn has_consensus(&self, weights: &ValidatorWeights, round: Round, data: &Data<B>) -> (r:
        bool)
        requires
            weights.wf(),
        ensures
            r == self.spec_has_consensus(weights@, round.0, data.spec_step(), data.vote()),
    {
        let (_, weight) = self.message_instances(weights, round, data);
        weight >= weights.threshold()
    }

    /// Whether a quorum of weight sent anything at `step` of `round`.
    pub fn has_participation(&self, weights: &ValidatorWeights, round: Round, step: Step) -> (r:
        bool)
        requires
            weights.wf(),
        ensures
            r == (self.step_weight(weights@, round.0, step, weights@.len() as int) >= threshold_of(
                sum_weights(weights@, weights@.len() as int),
            )),
    {
        let participating = self.step_participation(weights, round, step);
        participating >= weights.threshold()
    }

    /// Weight of the validators that sent anything at `step` of `round`.
    pub fn step_participation(&self, weights: &ValidatorWeights, round: Round, step: Step) -> (r:
        u64)
        requires
            weights.wf(),
        ensures
            r == self.step_weight(weights@, round.0, step, weights@.len() as int),
    {
        let ghost w = weights@;
        let n = weights.len();
        let mut weight: u64 = 0;
        let mut v: usize = 0;
        while v < n
            invariant
                weights.wf(),
                w == weights@,
                n == w.len(),
                v <= n,
                weight == self.step_weight(w, round.0, step, v as int),
            decreases n - v,
        {
            proof {
                lemma_weight_where_bounded(
                    w,
                    |u: int| self.sends(round.0, u, step),
                    v as int + 1,
                );
                lemma_sum_weights_monotone(w, v as int + 1, n as int);
            }
            if self.get(round, v as ValidatorIndex, step).is_some() {
                weight = weight + weights.weight(v as ValidatorIndex);
            }
            v = v + 1;
        }
        weight
    }
}

} // verus!
