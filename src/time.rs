use vstd::prelude::*;

use crate::ext::Round;
use crate::message::Step;

verus! {

/// Latest canonical time, in seconds, at which a height may start: every round end
/// of the height then still fits in a `u64`.
pub const MAX_START_TIME: u64 = 0x8000_0000_0000_0000;

/// Length in seconds of round `r`: the block time plus two seconds per round entered.
pub open spec fn round_length(block_time: u32, r: nat) -> nat {
    block_time as nat + 2 * (r + 1)
}

/// Canonical end of round `r` for a height that started at `start`: each round starts
/// where the previous one ended.
pub open spec fn round_end(start: nat, block_time: u32, r: nat) -> nat
    decreases r,
{
    if r == 0 {
        start + round_length(block_time, 0)
    } else {
        round_end(start, block_time, (r - 1) as nat) + round_length(block_time, r)
    }
}

/// Canonical start of round `r`.
pub open spec fn round_start(start: nat, block_time: u32, r: nat) -> nat {
    if r == 0 {
        start
    } else {
        round_end(start, block_time, (r - 1) as nat)
    }
}

/// Offset from the start of round `r` at which the given step times out. Proposals
/// wait `r + 1` seconds, prevotes twice that, and precommits until the round ends.
pub open spec fn step_offset(block_time: u32, r: nat, step: Step) -> nat {
    match step {
        Step::Propose => r + 1,
        Step::Prevote => 2 * (r + 1),
        Step::Precommit => round_length(block_time, r),
    }
}

pub proof fn lemma_round_end_bound(start: nat, block_time: u32, r: nat)
    ensures
        round_end(start, block_time, r) <= start + (r + 1) * round_length(block_time, r),
        round_end(start, block_time, r) >= start + round_length(block_time, r),
    decreases r,
{
    if r > 0 {
        lemma_round_end_bound(start, block_time, (r - 1) as nat);
        let a = round_length(block_time, (r - 1) as nat);
        let b = round_length(block_time, r);
        assert(a <= b);
        assert(r * a <= r * b) by (nonlinear_arith)
            requires
                a <= b,
        ;
        assert((r + 1) * b == r * b + b) by (nonlinear_arith);
    }
}

/// Every round end of a height that starts by `MAX_START_TIME` fits in a `u64`.
pub proof fn lemma_round_end_fits(start: nat, block_time: u32, r: nat)
    requires
        start <= MAX_START_TIME,
        r <= u16::MAX,
    ensures
        round_end(start, block_time, r) < 0x8002_0000_0000_0000,
{
    lemma_round_end_bound(start, block_time, r);
    let len = round_length(block_time, r);
    assert(len <= 0x1_0002_0000);
    assert((r + 1) * len <= 0x1_0000 * 0x1_0002_0000) by (nonlinear_arith)
        requires
            r + 1 <= 0x1_0000,
            len <= 0x1_0002_0000,
    ;
}

/// Round ends grow strictly with the round.
pub proof fn lemma_round_end_increasing(start: nat, block_time: u32, r1: nat, r2: nat)
    requires
        r1 < r2,
    ensures
        round_end(start, block_time, r1) < round_end(start, block_time, r2),
    decreases r2,
{
    if r1 < (r2 - 1) as nat {
        lemma_round_end_increasing(start, block_time, r1, (r2 - 1) as nat);
    }
}

/// Position of a step within a round.
pub open spec fn step_rank(step: Step) -> nat {
    match step {
        Step::Propose => 0,
        Step::Prevote => 1,
        Step::Precommit => 2,
    }
}

/// The timing of the round a height is in.
#[derive(Debug)]
pub struct RoundData {
    /// Which round this is.
    pub number: Round,
    /// Seconds of a round beyond its growing margin.
    pub block_time: u32,
    /// Canonical start, in seconds since the epoch.
    pub start_time: u64,
    /// The step the local node has reached.
    pub step: Step,
    /// Armed deadline of the propose step, if any.
    pub propose_timeout: Option<u64>,
    /// Armed deadline of the prevote step, if any.
    pub prevote_timeout: Option<u64>,
    /// Armed deadline of the precommit step, if any.
    pub precommit_timeout: Option<u64>,
}

impl RoundData {
    /// Deadlines fit and each armed one is the step's own deadline.
    pub open spec fn wf(&self) -> bool {
        &&& self.start_time + round_length(self.block_time, self.number.0 as nat) <= u64::MAX
        &&& self.propose_timeout.is_some() ==> self.propose_timeout.unwrap() == self.deadline(
            Step::Propose,
        )
        &&& self.prevote_timeout.is_some() ==> self.prevote_timeout.unwrap() == self.deadline(
            Step::Prevote,
        )
        &&& self.precommit_timeout.is_some() ==> self.precommit_timeout.unwrap()
            == self.deadline(Step::Precommit)
    }

    /// Canonical end of this round.
    pub open spec fn end(&self) -> nat {
        self.start_time as nat + round_length(self.block_time, self.number.0 as nat)
    }

    /// Canonical deadline of a step of this round.
    pub open spec fn deadline(&self, step: Step) -> nat {
        self.start_time as nat + step_offset(self.block_time, self.number.0 as nat, step)
    }

    /// The armed deadline of a step, if any.
    pub open spec fn armed(&self, step: Step) -> Option<u64> {
        match step {
            Step::Propose => self.propose_timeout,
            Step::Prevote => self.prevote_timeout,
            Step::Precommit => self.precommit_timeout,
        }
    }

    /// A round at its propose step with no timeout armed.
    pub fn new(number: Round, start_time: u64, block_time: u32) -> (r: RoundData)
        requires
            start_time + round_length(block_time, number.0 as nat) <= u64::MAX,
        ensures
            r.wf(),
            r.number == number,
            r.start_time == start_time,
            r.block_time == block_time,
            r.step == Step::Propose,
            r.propose_timeout.is_none(),
            r.prevote_timeout.is_none(),
            r.precommit_timeout.is_none(),
    {
        RoundData {
            number,
            block_time,
            start_time,
            step: Step::Propose,
            propose_timeout: None,
            prevote_timeout: None,
            precommit_timeout: None,
        }
    }

    /// Canonical end of this round.
    pub fn end_time(&self) -> (r: u64)
        requires
            self.wf(),
        ensures
            r == self.end(),
    {
        self.start_time + self.block_time as u64 + 2 * (self.number.0 as u64 + 1)
    }

    /// Canonical deadline of a step of this round; never past the round's end.
    pub fn timeout(&self, step: Step) -> (r: u64)
        requires
            self.wf(),
        ensures
            r == self.deadline(step),
            r <= self.end(),
    {
        let unit: u64 = self.number.0 as u64 + 1;
        match step {
            Step::Propose => self.start_time + unit,
            Step::Prevote => self.start_time + 2 * unit,
            Step::Precommit => self.start_time + self.block_time as u64 + 2 * unit,
        }
    }

    /// Arms the timeout of a step unless it is armed already.
    pub fn set_timeout(&mut self, step: Step)
        requires
            old(self).wf(),
        ensures
            final(self).wf(),
            final(self).armed(step) == Some(old(self).deadline(step) as u64),
            forall|s: Step| s != step ==> final(self).armed(s) == old(self).armed(s),
            final(self).number == old(self).number,
            final(self).start_time == old(self).start_time,
            final(self).block_time == old(self).block_time,
            final(self).step == old(self).step,
    {
        let t = self.timeout(step);
        match step {
            Step::Propose => {
                if self.propose_timeout.is_none() {
                    self.propose_timeout = Some(t);
                }
            },
            Step::Prevote => {
                if self.prevote_timeout.is_none() {
                    self.prevote_timeout = Some(t);
                }
            },
            Step::Precommit => {
                if self.precommit_timeout.is_none() {
                    self.precommit_timeout = Some(t);
                }
            },
        }
    }

    /// Disarms the timeout of a step.
    pub fn remove_timeout(&mut self, step: Step)
        requires
            old(self).wf(),
        ensures
            final(self).wf(),
            final(self).armed(step).is_none(),
            forall|s: Step| s != step ==> final(self).armed(s) == old(self).armed(s),
            final(self).number == old(self).number,
            final(self).start_time == old(self).start_time,
            final(self).block_time == old(self).block_time,
            final(self).step == old(self).step,
    {
        match step {
            Step::Propose => self.propose_timeout = None,
            Step::Prevote => self.prevote_timeout = None,
            Step::Precommit => self.precommit_timeout = None,
        }
    }

    /// The armed timeout that fires first, with the earlier step winning a tie.
    pub fn next_timeout(&self) -> (r: Option<(Step, u64)>)
        ensures
            r.is_none() <==> (self.propose_timeout.is_none() && self.prevote_timeout.is_none()
                && self.precommit_timeout.is_none()),
            r.is_some() ==> self.armed(r.unwrap().0) == Some(r.unwrap().1),
            r.is_some() ==> forall|s: Step| #[trigger]
                self.armed(s).is_some() ==> r.unwrap().1 <= self.armed(s).unwrap(),
            r.is_some() ==> forall|s: Step| #[trigger]
                self.armed(s) == Some(r.unwrap().1) ==> step_rank(r.unwrap().0) <= step_rank(s),
    {
        let mut best: Option<(Step, u64)> = None;
        if let Some(t) = self.propose_timeout {
            best = Some((Step::Propose, t));
        }
        if let Some(t) = self.prevote_timeout {
            match best {
                Some((_, b)) => {
                    if t < b {
                        best = Some((Step::Prevote, t));
                    }
                },
                None => best = Some((Step::Prevote, t)),
            }
        }
        if let Some(t) = self.precommit_timeout {
            match best {
                Some((_, b)) => {
                    if t < b {
                        best = Some((Step::Precommit, t));
                    }
                },
                None => best = Some((Step::Precommit, t)),
            }
        }
        best
    }
}

/// The canonical end of every round a height has entered so far.
#[derive(Debug)]
pub struct Timing {
    /// Seconds of a round beyond its growing margin.
    pub block_time: u32,
    /// Canonical start of round 0: the previous height's end.
    pub start_time: u64,
    /// `end_time[r]` is the canonical end of round `r`.
    pub end_time: Vec<u64>,
}

impl Timing {
    /// Rounds `0 ..= k` are known for some `k`, each ending where the formula says.
    pub open spec fn wf(&self) -> bool {
        &&& self.start_time <= MAX_START_TIME
        &&& 1 <= self.end_time@.len() <= 0x1_0000
        &&& forall|r: int|
            0 <= r < self.end_time@.len() ==> #[trigger] self.end_time@[r] == round_end(
                self.start_time as nat,
                self.block_time,
                r as nat,
            )
    }

    /// Canonical start of round `r`.
    pub open spec fn start_of(&self, r: nat) -> nat {
        round_start(self.start_time as nat, self.block_time, r)
    }

    /// Canonical end of round `r`.
    pub open spec fn end_of(&self, r: nat) -> nat {
        round_end(self.start_time as nat, self.block_time, r)
    }

    /// Timing of a height that starts at `start_time`, with round 0 known.
    pub fn new(start_time: u64, block_time: u32) -> (r: Timing)
        requires
            start_time <= MAX_START_TIME,
        ensures
            r.wf(),
            r.start_time == start_time,
            r.block_time == block_time,
            r.end_time@.len() == 1,
    {
        proof {
            lemma_round_end_fits(start_time as nat, block_time, 0);
        }
        let mut end_time: Vec<u64> = Vec::new();
        end_time.push(start_time + block_time as u64 + 2);
        Timing { block_time, start_time, end_time }
    }

    /// Makes the end of every round up to `round` known.
    pub fn populate(&mut self, round: Round)
        requires
            old(self).wf(),
        ensures
            final(self).wf(),
            final(self).start_time == old(self).start_time,
            final(self).block_time == old(self).block_time,
            final(self).end_time@.len() == if old(self).end_time@.len() > round.0 as nat {
                old(self).end_time@.len()
            } else {
                round.0 as nat + 1
            },
    {
        while self.end_time.len() <= round.0 as usize
            invariant
                self.wf(),
                self.start_time == old(self).start_time,
                self.block_time == old(self).block_time,
                self.end_time@.len() >= old(self).end_time@.len(),
                self.end_time@.len() > old(self).end_time@.len() ==> self.end_time@.len()
                    <= round.0 as nat + 1,
            decreases round.0 as int + 1 - self.end_time@.len(),
        {
            let r = self.end_time.len();
            let prev = self.end_time[r - 1];
            proof {
                lemma_round_end_fits(self.start_time as nat, self.block_time, r as nat);
            }
            let next = prev + self.block_time as u64 + 2 * (r as u64 + 1);
            self.end_time.push(next);
        }
    }

    /// Canonical end of `round`, if it is known yet.
    pub fn get(&self, round: Round) -> (r: Option<u64>)
        requires
            self.wf(),
        ensures
            r.is_some() <==> (round.0 as nat) < self.end_time@.len(),
            r.is_some() ==> r.unwrap() == self.end_of(round.0 as nat),
    {
        if (round.0 as usize) < self.end_time.len() {
            Some(self.end_time[round.0 as usize])
        } else {
            None
        }
    }

    /// Canonical start of a known round.
    pub fn start(&self, round: Round) -> (r: u64)
        requires
            self.wf(),
            (round.0 as nat) < self.end_time@.len(),
        ensures
            r == self.start_of(round.0 as nat),
            r + round_length(self.block_time, round.0 as nat) == self.end_of(round.0 as nat),
    {
        if round.0 == 0 {
            self.start_time
        } else {
            self.end_time[round.0 as usize - 1]
        }
    }

    /// The round whose canonical end is `t`, if any.
    pub fn round_ending_at(&self, t: u64) -> (r: Option<Round>)
        requires
            self.wf(),
        ensures
            r.is_some() ==> self.end_of(r.unwrap().0 as nat) == t,
            r.is_none() ==> forall|k: u16| #[trigger] self.end_of(k as nat) != t,
    {
        let mut k: u16 = 0;
        let mut end: u64 = self.start_time + self.block_time as u64 + 2;
        proof {
            lemma_round_end_fits(self.start_time as nat, self.block_time, 0);
        }
        loop
            invariant
                self.wf(),
                end == self.end_of(k as nat),
                forall|j: u16| j < k ==> #[trigger] self.end_of(j as nat) < t,
            decreases u16::MAX - k,
        {
            if end == t {
                return Some(Round(k));
            }
            if end > t || k == u16::MAX {
                proof {
                    assert forall|j: u16| #[trigger] self.end_of(j as nat) != t by {
                        if j > k {
                            lemma_round_end_increasing(
                                self.start_time as nat,
                                self.block_time,
                                k as nat,
                                j as nat,
                            );
                        }
                    }
                }
                return None;
            }
            proof {
                lemma_round_end_fits(self.start_time as nat, self.block_time, k as nat + 1);
            }
            end = end + self.block_time as u64 + 2 * (k as u64 + 2);
            k = k + 1;
        }
    }
}

} // verus!
