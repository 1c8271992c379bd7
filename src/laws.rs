use vstd::prelude::*;

use crate::ext::{Block, Round, ValidatorIndex};
use crate::machine::TendermintMachine;
use crate::message::Step;
use crate::message_log::{find_entry, LogEntry, MessageLog};
use crate::time::{lemma_round_end_increasing, round_end, round_length, Timing};
use crate::weights::{
    lemma_threshold_bounds, lemma_weight_where_overlap, lemma_weight_where_subset, sum_weights,
    weight_where, weights_wf,
};

verus! {

/// A logged vote is one of the log's entries.
pub proof fn lemma_find_entry_in<B: Block>(
    s: Seq<LogEntry<B>>,
    round: u16,
    sender: ValidatorIndex,
    step: Step,
)
    requires
        find_entry(s, round, sender, step).is_some(),
    ensures
        exists|i: int|
            0 <= i < s.len() && (#[trigger] s[i]).round.0 == round && s[i].sender == sender
                && Some(s[i].data) == find_entry(s, round, sender, step),
    decreases s.len(),
{
    if !(s.last().round.0 == round && s.last().sender == sender && s.last().data.spec_step()
        == step) {
        lemma_find_entry_in(s.drop_last(), round, sender, step);
        let i = choose|i: int|
            0 <= i < s.drop_last().len() && (#[trigger] s.drop_last()[i]).round.0 == round
                && s.drop_last()[i].sender == sender && Some(s.drop_last()[i].data)
                == find_entry(s.drop_last(), round, sender, step);
        assert(s[i] == s.drop_last()[i]);
    } else {
        assert(s[s.len() - 1] == s.last());
    }
}

/// A validator's precommit for a block, in any round, is the block it is registered
/// as having precommitted to in the height.
pub proof fn lemma_precommit_registered<B: Block>(
    log: &MessageLog<B>,
    round: u16,
    v: int,
    id: Seq<u8>,
)
    requires
        log.wf(),
        log.sends_vote(round, v, Step::Precommit, Some(id)),
    ensures
        log.registered(v as ValidatorIndex) == Some(id),
{
    let s = log.entries@;
    crate::message_log::lemma_find_entry_step(s, round, v as ValidatorIndex, Step::Precommit);
    lemma_find_entry_in(s, round, v as ValidatorIndex, Step::Precommit);
    let i = choose|i: int|
        0 <= i < s.len() && (#[trigger] s[i]).round.0 == round && s[i].sender == v as ValidatorIndex
            && Some(s[i].data) == find_entry(s, round, v as ValidatorIndex, Step::Precommit);
    assert(log.entries@[i] == s[i]);
}

/// Agreement within a height: two blocks that both gather a precommit quorum in a
/// node's log, in the same round or in different ones, are the same block. Each
/// validator precommits to one block per height, and two disjoint sets of
/// validators cannot both reach the threshold. Across nodes the same bound holds
/// through `lemma_quorums_intersect`: two quorums share more weight than the
/// faulty validators hold.
pub proof fn lemma_no_conflicting_commits<B: Block>(
    log: &MessageLog<B>,
    w: Seq<u64>,
    r1: u16,
    r2: u16,
    id1: Seq<u8>,
    id2: Seq<u8>,
)
    requires
        log.wf(),
        weights_wf(w),
        log.spec_has_consensus(w, r1, Step::Precommit, Some(id1)),
        log.spec_has_consensus(w, r2, Step::Precommit, Some(id2)),
    ensures
        id1 == id2,
{
    if id1 != id2 {
        let n = w.len() as int;
        let a = |v: int| log.sends_vote(r1, v, Step::Precommit, Some(id1));
        let b = |v: int| log.sends_vote(r2, v, Step::Precommit, Some(id2));
        lemma_weight_where_overlap(w, a, b, n);
        let both = |v: int| a(v) && b(v);
        assert forall|v: int| 0 <= v < n && #[trigger] both(v) implies false by {
            lemma_precommit_registered(log, r1, v, id1);
            lemma_precommit_registered(log, r2, v, id2);
        }
        lemma_weight_where_subset(w, both, |v: int| false, n);
        lemma_weight_where_zero(w, n);
        lemma_threshold_bounds(sum_weights(w, n));
        assert(false);
    }
}

proof fn lemma_weight_where_zero(w: Seq<u64>, k: int)
    ensures
        weight_where(w, |v: int| false, k) == 0,
    decreases k,
{
    if k > 0 {
        lemma_weight_where_zero(w, k - 1);
    }
}

/// End-time consistency: every known round after the first ends one round length
/// after the previous round's end.
pub proof fn lemma_end_times_consistent(t: &Timing)
    requires
        t.wf(),
    ensures
        forall|r: int|
            0 < r < t.end_time@.len() ==> #[trigger] t.end_time@[r] == t.end_time@[r - 1]
                + round_length(t.block_time, r as nat),
        t.end_time@[0] == t.start_time + round_length(t.block_time, 0),
{
    assert forall|r: int| 0 < r < t.end_time@.len() implies #[trigger] t.end_time@[r]
        == t.end_time@[r - 1] + round_length(t.block_time, r as nat) by {
        assert(t.end_time@[r - 1] == round_end(t.start_time as nat, t.block_time, (r - 1) as nat));
    }
    assert(t.end_time@[0] == round_end(t.start_time as nat, t.block_time, 0));
}

/// A commit's end time names one round: distinct rounds of a height end at
/// distinct times.
pub proof fn lemma_commit_round_unique(start: nat, block_time: u32, k1: nat, k2: nat)
    requires
        round_end(start, block_time, k1) == round_end(start, block_time, k2),
    ensures
        k1 == k2,
{
    if k1 < k2 {
        lemma_round_end_increasing(start, block_time, k1, k2);
    } else if k2 < k1 {
        lemma_round_end_increasing(start, block_time, k2, k1);
    }
}

/// Finalizing a height through an outside commit reaches the state that finalizing
/// it locally reaches: `reset_by_commit` with the end time of round `k` and `reset`
/// of round `k` both start the next height as `fresh_height` says, and that state
/// is the same in every part the machine reads.
pub proof fn lemma_commit_reset_matches_local<B: Block>(
    old: &TendermintMachine<B>,
    by_commit: &TendermintMachine<B>,
    local: &TendermintMachine<B>,
    k: Round,
    end_time: u64,
    proposal: B,
    validator_id: Option<ValidatorIndex>,
)
    requires
        old.wf(),
        old.block.timing.end_of(k.0 as nat) == end_time,
        TendermintMachine::fresh_height(old, by_commit, end_time as nat, proposal, validator_id),
        TendermintMachine::fresh_height(
            old,
            local,
            old.block.timing.end_of(k.0 as nat),
            proposal,
            validator_id,
        ),
    ensures
        by_commit.block.number == local.block.number,
        by_commit.block.validator_id == local.block.validator_id,
        by_commit.block.proposal == local.block.proposal,
        by_commit.block.log.entries@ == local.block.log.entries@,
        by_commit.block.log.precommitted@ == local.block.log.precommitted@,
        by_commit.block.slashes@ == local.block.slashes@,
        by_commit.block.timing.start_time == local.block.timing.start_time,
        by_commit.block.timing.end_time@ == local.block.timing.end_time@,
        by_commit.block.round == local.block.round,
        by_commit.block.locked == local.block.locked,
        by_commit.block.valid == local.block.valid,
        by_commit.queue@.len() == local.queue@.len(),
        by_commit.pending_slashes == local.pending_slashes,
{
    assert(by_commit.block.log.entries@ =~= local.block.log.entries@);
    assert(by_commit.block.log.precommitted@ =~= local.block.log.precommitted@);
    assert(by_commit.block.slashes@ =~= local.block.slashes@);
    assert(by_commit.block.timing.end_time@[0] == local.block.timing.end_time@[0]);
    assert(by_commit.block.timing.end_time@ =~= local.block.timing.end_time@);
}

} // verus!
