//! The epoch-scoped, stake-weighted voting state machine: one ballot box per
//! governed network, one voter record per operator, one vote per operator per
//! epoch, and finalization of the round's proposed root once a two-thirds
//! supermajority of the round's stake denominator approves it.

use vstd::prelude::*;

use crate::hashing::bytes32_eq;
use crate::hashing::zeroed32;

verus! {

/// Why a vote was rejected. Every rejection leaves all state unchanged.
#[derive(Clone, Copy, Debug, PartialEq, Eq)]
pub enum DephyNcnError {
    /// The caller is not the registered administrative signer for the
    /// operator, or the voter record does not belong to the operator.
    InvalidOperator,
    /// The operator-vault ticket does not belong to the operator.
    InvalidOperatorVaultTicket,
    /// The operator has already voted for this or a later epoch.
    EpochAlreadyVoted,
    /// The vote is for an epoch before the ballot box's current round.
    StaleEpoch,
    /// The operator has no stake delegated to it.
    NoDelegation,
}

/// The governance record tying a network to its authority.
#[derive(Clone, Copy, Debug, PartialEq, Eq)]
pub struct Config {
    pub ncn: [u8; 32],
    pub authority: [u8; 32],
}

/// The voting round state of one governed network. `epoch` is the current
/// round; the counters tally that round only. `rewards_root` is the last
/// finalized root, and `last_consensus_epoch` the highest epoch that ever
/// reached consensus.
#[derive(Clone, Copy, Debug, PartialEq, Eq)]
pub struct BallotBox {
    pub config: [u8; 32],
    pub epoch: u64,
    pub last_consensus_epoch: u64,
    pub operators_voted: u64,
    pub approved_votes: u64,
    pub total_votes: u64,
    pub rewards_root: [u8; 32],
    pub proposed_rewards_root: [u8; 32],
}

/// The per-operator record that admits at most one vote per epoch.
#[derive(Clone, Copy, Debug, PartialEq, Eq)]
pub struct VoterState {
    pub config: [u8; 32],
    pub operator: [u8; 32],
    pub operator_vault_ticket: [u8; 32],
    pub vault_operator_delegation: [u8; 32],
    pub last_voted_epoch: u64,
}

/// Marker for the external stake-delegation ledger whose records supply the
/// stake weights and the consensus denominator the votes are tallied with.
#[derive(Clone, Copy, Debug, PartialEq, Eq)]
pub struct JitoVault;

/// A vote submission's payload: the root the operator proposes for the
/// current epoch.
#[derive(Clone, Copy, Debug, PartialEq, Eq)]
pub struct VoteArgs {
    pub proposed_rewards_root: [u8; 32],
}

impl BallotBox {
    /// What holds of every reachable ballot box: approvals never exceed the
    /// round's total, and consensus is never recorded past the current round.
    pub open spec fn wf(self) -> bool {
        &&& self.approved_votes <= self.total_votes
        &&& self.last_consensus_epoch <= self.epoch
    }
}

/// The first vote of a new round resets the tallies, catches the round up to
/// `epoch`, and makes the first voter's proposal the round's candidate.
pub open spec fn reset_for_epoch(bb: BallotBox, root: [u8; 32], epoch: u64) -> BallotBox {
    if epoch > bb.epoch {
        BallotBox {
            epoch,
            operators_voted: 0,
            approved_votes: 0,
            total_votes: 0,
            proposed_rewards_root: root,
            ..bb
        }
    } else {
        bb
    }
}

/// One accepted vote's tally: the operator count and the total always grow;
/// the approved tally grows only when the vote matches the round's candidate.
pub open spec fn tally_vote(bb: BallotBox, root: [u8; 32], weight: u64) -> BallotBox {
    BallotBox {
        operators_voted: (bb.operators_voted + 1) as u64,
        approved_votes: if root@ == bb.proposed_rewards_root@ {
            (bb.approved_votes + weight) as u64
        } else {
            bb.approved_votes
        },
        total_votes: (bb.total_votes + weight) as u64,
        ..bb
    }
}

/// The two-thirds supermajority test against the round's stake denominator.
pub open spec fn consensus_reached(approved: u64, denominator: u64) -> bool {
    approved * 3 >= denominator * 2
}

/// If the round has not yet finalized and the approved stake crosses the
/// supermajority threshold, the round's candidate becomes the authoritative
/// root and the round is recorded as the last consensus epoch.
pub open spec fn finalize(bb: BallotBox, denominator: u64) -> BallotBox {
    if bb.epoch > bb.last_consensus_epoch && consensus_reached(bb.approved_votes, denominator) {
        BallotBox { last_consensus_epoch: bb.epoch, rewards_root: bb.proposed_rewards_root, ..bb }
    } else {
        bb
    }
}

/// The whole transition of one accepted vote.
pub open spec fn vote_step(
    bb: BallotBox,
    root: [u8; 32],
    epoch: u64,
    weight: u64,
    denominator: u64,
) -> BallotBox {
    finalize(tally_vote(reset_for_epoch(bb, root, epoch), root, weight), denominator)
}

impl BallotBox {
    /// A fresh ballot box for the network governed through `config_key`:
    /// round zero, empty tallies, all-zero roots.
    pub fn new(config_key: &[u8; 32]) -> (bb: BallotBox)
        ensures
            bb.config == *config_key,
            bb.epoch == 0,
            bb.last_consensus_epoch == 0,
            bb.operators_voted == 0,
            bb.approved_votes == 0,
            bb.total_votes == 0,
            bb.rewards_root@ == zeroed32(),
            bb.proposed_rewards_root@ == zeroed32(),
            bb.wf(),
    {
        BallotBox {
            config: *config_key,
            epoch: 0,
            last_consensus_epoch: 0,
            operators_voted: 0,
            approved_votes: 0,
            total_votes: 0,
            rewards_root: [0u8; 32],
            proposed_rewards_root: [0u8; 32],
        }
    }

    /// Register one gated vote with the ballot box: open a new round if this
    /// is the round's first vote, reject a vote for a past round, tally the
    /// stake, and finalize on supermajority.
    pub fn register_vote(
        &mut self,
        proposed_root: &[u8; 32],
        current_epoch: u64,
        stake_weight: u64,
        quorum_denominator: u64,
    ) -> (r: Result<(), DephyNcnError>)
        requires
            old(self).wf(),
            current_epoch > old(self).epoch || (old(self).total_votes + stake_weight <= u64::MAX
                && old(self).operators_voted < u64::MAX),
        ensures
            r is Err <==> current_epoch < old(self).epoch,
            r is Err ==> *final(self) == *old(self) && r == Err::<(), DephyNcnError>(
                DephyNcnError::StaleEpoch,
            ),
            r is Ok ==> *final(self) == vote_step(
                *old(self),
                *proposed_root,
                current_epoch,
                stake_weight,
                quorum_denominator,
            ),
            final(self).wf(),
            final(self).last_consensus_epoch >= old(self).last_consensus_epoch,
            final(self).rewards_root@ != old(self).rewards_root@
                ==> final(self).last_consensus_epoch > old(self).last_consensus_epoch,
    {
        if current_epoch > self.epoch {
            self.epoch = current_epoch;
            self.approved_votes = 0;
            self.total_votes = 0;
            self.operators_voted = 0;
            self.proposed_rewards_root = *proposed_root;
        }
        if current_epoch != self.epoch {
            return Err(DephyNcnError::StaleEpoch);
        }
        self.operators_voted = self.operators_voted + 1;
        if bytes32_eq(proposed_root, &self.proposed_rewards_root) {
            self.approved_votes = self.approved_votes + stake_weight;
        }
        self.total_votes = self.total_votes + stake_weight;
        if self.epoch > self.last_consensus_epoch {
            if (self.approved_votes as u128) * 3 >= (quorum_denominator as u128) * 2 {
                self.last_consensus_epoch = self.epoch;
                self.rewards_root = self.proposed_rewards_root;
            }
        }
        Ok(())
    }
}

impl VoterState {
    /// A fresh voter record binding an operator to the network's governance
    /// config; the ticket and delegation references start zeroed and the
    /// operator has voted in no epoch yet.
    pub fn new(config_key: &[u8; 32], operator: &[u8; 32]) -> (vs: VoterState)
        ensures
            vs.config == *config_key,
            vs.operator == *operator,
            vs.operator_vault_ticket@ == zeroed32(),
            vs.vault_operator_delegation@ == zeroed32(),
            vs.last_voted_epoch == 0,
    {
        VoterState {
            config: *config_key,
            operator: *operator,
            operator_vault_ticket: [0u8; 32],
            vault_operator_delegation: [0u8; 32],
            last_voted_epoch: 0,
        }
    }
}

/// The first rejection a vote submission meets, or `None` when the vote is
/// accepted: the operator must not have voted for this epoch yet, the voter
/// record must belong to the operator, the caller must be the operator's
/// registered admin, the ticket must tie the operator to the vault, the
/// operator must have stake, and the epoch must not predate the round.
pub open spec fn cast_vote_error(
    vs: VoterState,
    bb: BallotBox,
    operator: [u8; 32],
    operator_admin: [u8; 32],
    signer: [u8; 32],
    ticket_operator: [u8; 32],
    staked_amount: u64,
    current_epoch: u64,
) -> Option<DephyNcnError> {
    if current_epoch <= vs.last_voted_epoch {
        Some(DephyNcnError::EpochAlreadyVoted)
    } else if operator@ != vs.operator@ {
        Some(DephyNcnError::InvalidOperator)
    } else if signer@ != operator_admin@ {
        Some(DephyNcnError::InvalidOperator)
    } else if ticket_operator@ != operator@ {
        Some(DephyNcnError::InvalidOperatorVaultTicket)
    } else if staked_amount == 0 {
        Some(DephyNcnError::NoDelegation)
    } else if current_epoch < bb.epoch {
        Some(DephyNcnError::StaleEpoch)
    } else {
        None
    }
}

/// One operator's vote: gate it through the voter record, tally it in the
/// ballot box, and mark the operator as having voted for this epoch. A
/// rejected vote leaves both records unchanged.
///
/// `operator_admin` is the administrative signer the external operator
/// registry records for `operator`; `ticket_operator` is the operator the
/// external registry's operator-vault ticket names; `staked_amount` is the
/// operator's stake in the external delegation ledger; `vrt_supply` is the
/// round's consensus denominator, the delegation pool's total supply.
pub fn handle_vote(
    ballot_box: &mut BallotBox,
    voter_state: &mut VoterState,
    operator: &[u8; 32],
    operator_admin: &[u8; 32],
    signer: &[u8; 32],
    ticket_operator: &[u8; 32],
    staked_amount: u64,
    vrt_supply: u64,
    current_epoch: u64,
    args: &VoteArgs,
) -> (r: Result<(), DephyNcnError>)
    requires
        old(ballot_box).wf(),
        current_epoch > old(ballot_box).epoch || (old(ballot_box).total_votes + staked_amount
            <= u64::MAX && old(ballot_box).operators_voted < u64::MAX),
    ensures
        r is Err <==> cast_vote_error(
            *old(voter_state),
            *old(ballot_box),
            *operator,
            *operator_admin,
            *signer,
            *ticket_operator,
            staked_amount,
            current_epoch,
        ) is Some,
        r matches Err(e) ==> Some(e) == cast_vote_error(
            *old(voter_state),
            *old(ballot_box),
            *operator,
            *operator_admin,
            *signer,
            *ticket_operator,
            staked_amount,
            current_epoch,
        ) && *final(ballot_box) == *old(ballot_box) && *final(voter_state) == *old(voter_state),
        r is Ok ==> *final(ballot_box) == vote_step(
            *old(ballot_box),
            args.proposed_rewards_root,
            current_epoch,
            staked_amount,
            vrt_supply,
        ) && *final(voter_state) == (VoterState {
            last_voted_epoch: current_epoch,
            ..*old(voter_state)
        }),
        r is Ok ==> final(voter_state).last_voted_epoch > old(voter_state).last_voted_epoch,
        final(ballot_box).wf(),
        final(ballot_box).last_consensus_epoch >= old(ballot_box).last_consensus_epoch,
        final(ballot_box).rewards_root@ != old(ballot_box).rewards_root@
            ==> final(ballot_box).last_consensus_epoch > old(ballot_box).last_consensus_epoch,
{
    if current_epoch <= voter_state.last_voted_epoch {
        return Err(DephyNcnError::EpochAlreadyVoted);
    }
    if !bytes32_eq(operator, &voter_state.operator) {
        return Err(DephyNcnError::InvalidOperator);
    }
    if !bytes32_eq(signer, operator_admin) {
        return Err(DephyNcnError::InvalidOperator);
    }
    if !bytes32_eq(ticket_operator, operator) {
        return Err(DephyNcnError::InvalidOperatorVaultTicket);
    }
    if staked_amount == 0 {
        return Err(DephyNcnError::NoDelegation);
    }
    match ballot_box.register_vote(
        &args.proposed_rewards_root,
        current_epoch,
        staked_amount,
        vrt_supply,
    ) {
        Ok(()) => {
            voter_state.last_voted_epoch = current_epoch;
            Ok(())
        },
        Err(e) => Err(e),
    }
}

/// One vote submission as the ballot box sees it: a proposed root, the epoch
/// it is cast in, the stake behind it, and the round's consensus denominator.
#[derive(Clone, Copy, Debug, PartialEq, Eq)]
pub struct VoteEvent {
    pub proposed_rewards_root: [u8; 32],
    pub epoch: u64,
    pub stake_weight: u64,
    pub quorum_denominator: u64,
}

/// Whether the ballot box accepts a vote for `epoch`: only votes for a past
/// round are turned away.
pub open spec fn ballot_accepts(bb: BallotBox, epoch: u64) -> bool {
    epoch >= bb.epoch
}

/// The ballot box after one vote submission: an accepted vote takes a step,
/// a stale one changes nothing.
pub open spec fn apply_vote(bb: BallotBox, ev: VoteEvent) -> BallotBox {
    if ballot_accepts(bb, ev.epoch) {
        vote_step(bb, ev.proposed_rewards_root, ev.epoch, ev.stake_weight, ev.quorum_denominator)
    } else {
        bb
    }
}

/// The ballot box after a whole sequence of vote submissions, in order.
pub open spec fn apply_votes(bb: BallotBox, evs: Seq<VoteEvent>) -> BallotBox
    decreases evs.len(),
{
    if evs.len() == 0 {
        bb
    } else {
        apply_votes(apply_vote(bb, evs[0]), evs.skip(1))
    }
}

/// One vote submission never lowers `last_consensus_epoch`, and changes the
/// finalized root only by raising it: once a round finalized, no later vote
/// reverts its root without a strictly later round finalizing.
pub proof fn lemma_vote_keeps_consensus(bb: BallotBox, ev: VoteEvent)
    ensures
        apply_vote(bb, ev).last_consensus_epoch >= bb.last_consensus_epoch,
        apply_vote(bb, ev).rewards_root@ != bb.rewards_root@ ==> apply_vote(
            bb,
            ev,
        ).last_consensus_epoch > bb.last_consensus_epoch,
{
}

/// Over any sequence of vote submissions, `last_consensus_epoch` never
/// decreases, and the finalized root changes only when a strictly later
/// round reaches consensus: a root finalized at one epoch is never reverted
/// by the votes of that or any earlier round.
pub proof fn lemma_consensus_never_reverted(bb: BallotBox, evs: Seq<VoteEvent>)
    ensures
        apply_votes(bb, evs).last_consensus_epoch >= bb.last_consensus_epoch,
        apply_votes(bb, evs).rewards_root@ != bb.rewards_root@ ==> apply_votes(
            bb,
            evs,
        ).last_consensus_epoch > bb.last_consensus_epoch,
    decreases evs.len(),
{
    if evs.len() == 0 {
    } else {
        let mid = apply_vote(bb, evs[0]);
        lemma_vote_keeps_consensus(bb, evs[0]);
        lemma_consensus_never_reverted(mid, evs.skip(1));
    }
}

/// A second vote by the same operator for the same epoch, or for any earlier
/// one, is always rejected: after a vote for `last_voted_epoch`, every
/// submission whose epoch is at or before it fails the registry gate with
/// `EpochAlreadyVoted`.
pub proof fn lemma_no_double_vote(
    vs: VoterState,
    bb: BallotBox,
    operator: [u8; 32],
    operator_admin: [u8; 32],
    signer: [u8; 32],
    ticket_operator: [u8; 32],
    staked_amount: u64,
    current_epoch: u64,
)
    requires
        current_epoch <= vs.last_voted_epoch,
    ensures
        cast_vote_error(
            vs,
            bb,
            operator,
            operator_admin,
            signer,
            ticket_operator,
            staked_amount,
            current_epoch,
        ) == Some(DephyNcnError::EpochAlreadyVoted),
{
}

/// The tally invariant holds after every accepted vote: the approved stake
/// never exceeds the total stake of the round.
pub proof fn lemma_approved_at_most_total(bb: BallotBox, ev: VoteEvent)
    requires
        bb.wf(),
        ev.epoch > bb.epoch || bb.total_votes + ev.stake_weight <= u64::MAX,
    ensures
        apply_vote(bb, ev).approved_votes <= apply_vote(bb, ev).total_votes,
{
}

/// The compute part of network initialization: the governance record for the
/// network and the empty ballot box addressed through `config_key`.
pub fn handle_initialize_ncn(ncn: &[u8; 32], authority: &[u8; 32], config_key: &[u8; 32]) -> (r: (
    Config,
    BallotBox,
))
    ensures
        r.0 == (Config { ncn: *ncn, authority: *authority }),
        r.1.config == *config_key,
        r.1.epoch == 0,
        r.1.last_consensus_epoch == 0,
        r.1.operators_voted == 0,
        r.1.approved_votes == 0,
        r.1.total_votes == 0,
        r.1.rewards_root@ == zeroed32(),
        r.1.proposed_rewards_root@ == zeroed32(),
{
    let config = Config { ncn: *ncn, authority: *authority };
    let ballot_box = BallotBox::new(config_key);
    (config, ballot_box)
}

/// The compute part of operator initialization: the fresh voter record.
pub fn handle_initialize_operator(config_key: &[u8; 32], operator: &[u8; 32]) -> (vs: VoterState)
    ensures
        vs.config == *config_key,
        vs.operator == *operator,
        vs.operator_vault_ticket@ == zeroed32(),
        vs.vault_operator_delegation@ == zeroed32(),
        vs.last_voted_epoch == 0,
{
    VoterState::new(config_key, operator)
}

} // verus!
