//! The rewards side: the root store holding the authoritative Merkle root
//! (inline or referenced from an external account), and the per-recipient
//! claim ledger that turns a proof of cumulative entitlement into an
//! at-most-once payout of the unclaimed remainder.

use vstd::prelude::*;

use crate::hashing::bytes32_eq;
use crate::hashing::keccak_concat;
use crate::hashing::keccak_of;
use crate::hashing::zeroed32;
use crate::merkle::merkle_root_of;
use crate::merkle::recompute_root;
use vstd::bytes::spec_u64_to_le_bytes;
use vstd::bytes::u64_to_le_bytes;

verus! {

/// Why a rewards operation was rejected. Every rejection leaves all state
/// unchanged.
#[derive(Clone, Copy, Debug, PartialEq, Eq)]
pub enum DephyRewardsError {
    /// The caller is neither the global admin nor the store's authority.
    InvalidAuthority,
    /// The proof does not recompute to the authoritative root.
    InvalidProof,
    /// The external root account is absent, too short for the declared
    /// offset, or not the account the store references.
    RootUnavailable,
    /// Nothing is owed: the cumulative entitlement has been paid out already.
    AlreadyClaimed,
}

/// The authoritative rewards root: either embedded directly, or a reference
/// to 32 bytes at an offset inside an externally held account.
#[derive(Clone, Copy, Debug, PartialEq, Eq)]
pub enum MerkleRoot {
    Inplace { hash: [u8; 32] },
    External { pubkey: [u8; 32], offset: u64 },
}

/// The administrative record naming the global admin.
#[derive(Clone, Copy, Debug, PartialEq, Eq)]
pub struct GlobalConfig {
    pub admin: [u8; 32],
}

/// The rewards root store: its update authority, the token mint and custody
/// account rewards are paid from, and the authoritative root.
#[derive(Clone, Copy, Debug, PartialEq, Eq)]
pub struct RewardsState {
    pub authority: [u8; 32],
    pub rewards_mint: [u8; 32],
    pub rewards_token_account: [u8; 32],
    pub merkle_root: MerkleRoot,
}

/// One recipient's claim record: how much of its cumulative entitlement has
/// been paid out so far. `claimed_rewards` never decreases.
#[derive(Clone, Copy, Debug, PartialEq, Eq)]
pub struct ClaimState {
    pub owner: [u8; 32],
    pub claimed_rewards: u64,
}

/// A claim submission: the leaf's index in the tree, the cumulative
/// entitlement the leaf encodes, and the sibling path up to the root.
#[derive(Clone, Debug, PartialEq, Eq)]
pub struct ClaimRewardsArgs {
    pub index: u32,
    pub total_rewards: u64,
    pub proof: Vec<[u8; 32]>,
}

/// A root-update submission: the new authoritative root value.
#[derive(Clone, Copy, Debug, PartialEq, Eq)]
pub struct UpdateMerkleRootArgs {
    pub merkle_root: MerkleRoot,
}

/// The contents of the externally held account a `MerkleRoot::External`
/// reference points into: its identity and its raw bytes.
#[derive(Clone, Debug, PartialEq, Eq)]
pub struct ExternalRootAccount {
    pub key: [u8; 32],
    pub data: Vec<u8>,
}

/// The root the store currently makes authoritative, if it can be read: the
/// inline hash directly, or the 32 bytes at the declared offset of the
/// referenced account — provided the account is present, is the referenced
/// one, and is long enough.
pub open spec fn available_root(
    merkle_root: MerkleRoot,
    account: Option<&ExternalRootAccount>,
) -> Option<Seq<u8>> {
    match merkle_root {
        MerkleRoot::Inplace { hash } => Some(hash@),
        MerkleRoot::External { pubkey, offset } => match account {
            Some(acct) => if acct.key@ == pubkey@ && offset + 32 <= acct.data@.len() {
                Some(acct.data@.subrange(offset as int, offset as int + 32))
            } else {
                None
            },
            None => None,
        },
    }
}

/// Read the store's authoritative root: the inline hash, or 32 bytes at the
/// declared offset of the referenced external account.
pub fn verify_and_get_root(
    merkle_root: &MerkleRoot,
    account: Option<&ExternalRootAccount>,
) -> (r: Result<[u8; 32], DephyRewardsError>)
    ensures
        r is Ok <==> available_root(*merkle_root, account) is Some,
        r matches Ok(root) ==> Some(root@) == available_root(*merkle_root, account),
        r is Err ==> r == Err::<[u8; 32], DephyRewardsError>(DephyRewardsError::RootUnavailable),
{
    match merkle_root {
        MerkleRoot::Inplace { hash } => Ok(*hash),
        MerkleRoot::External { pubkey, offset } => {
            let acct = match account {
                Some(acct) => acct,
                None => {
                    return Err(DephyRewardsError::RootUnavailable);
                },
            };
            if !bytes32_eq(&acct.key, pubkey) {
                return Err(DephyRewardsError::RootUnavailable);
            }
            let len = acct.data.len();
            if len < 32 || *offset > (len - 32) as u64 {
                return Err(DephyRewardsError::RootUnavailable);
            }
            let start = *offset as usize;
            let mut root = [0u8; 32];
            let mut j: usize = 0;
            while j < 32
                invariant
                    j <= 32,
                    start + 32 <= len,
                    len == acct.data@.len(),
                    forall|k: int| 0 <= k < j ==> root@[k] == acct.data@[start + k],
                decreases 32 - j,
            {
                root[j] = acct.data[start + j];
                j += 1;
            }
            proof {
                assert(root@ =~= acct.data@.subrange(start as int, start as int + 32));
            }
            Ok(root)
        },
    }
}

/// The Merkle leaf a claim is checked against: the keccak-256 digest of the
/// recipient's identity followed by the little-endian cumulative
/// entitlement.
pub open spec fn leaf_of(owner: Seq<u8>, total_rewards: u64) -> Seq<u8> {
    keccak_of(owner + spec_u64_to_le_bytes(total_rewards))
}

/// The first rejection a claim submission meets, or `None` when the claim is
/// paid: the authoritative root must be readable, the proof must recompute
/// from the claim's leaf to it, and the entitlement must exceed what was
/// already paid out.
pub open spec fn claim_error(
    claimed_rewards: u64,
    owner: [u8; 32],
    args: ClaimRewardsArgs,
    merkle_root: MerkleRoot,
    account: Option<&ExternalRootAccount>,
) -> Option<DephyRewardsError> {
    match available_root(merkle_root, account) {
        None => Some(DephyRewardsError::RootUnavailable),
        Some(root) => if merkle_root_of(
            leaf_of(owner@, args.total_rewards),
            args.proof.deep_view(),
            args.index as nat,
        ) != root {
            Some(DephyRewardsError::InvalidProof)
        } else if args.total_rewards <= claimed_rewards {
            Some(DephyRewardsError::AlreadyClaimed)
        } else {
            None
        },
    }
}

/// Check a claim against the authoritative root and pay out the unclaimed
/// remainder: on success the returned amount is exactly the entitlement
/// above what was already claimed, and the record is raised to the full
/// entitlement, so an identical second claim finds nothing left. A rejected
/// claim leaves the record unchanged.
pub fn claim_rewards(
    claim_state: &mut ClaimState,
    owner: &[u8; 32],
    args: &ClaimRewardsArgs,
    merkle_root: &MerkleRoot,
    merkle_root_account: Option<&ExternalRootAccount>,
) -> (r: Result<u64, DephyRewardsError>)
    ensures
        r is Err <==> claim_error(
            old(claim_state).claimed_rewards,
            *owner,
            *args,
            *merkle_root,
            merkle_root_account,
        ) is Some,
        r matches Err(e) ==> Some(e) == claim_error(
            old(claim_state).claimed_rewards,
            *owner,
            *args,
            *merkle_root,
            merkle_root_account,
        ) && *final(claim_state) == *old(claim_state),
        r matches Ok(payable) ==> {
            &&& args.total_rewards > old(claim_state).claimed_rewards
            &&& payable == args.total_rewards - old(claim_state).claimed_rewards
            &&& final(claim_state).owner == *owner
            &&& final(claim_state).claimed_rewards == args.total_rewards
        },
        final(claim_state).claimed_rewards >= old(claim_state).claimed_rewards,
{
    let total_le = u64_to_le_bytes(args.total_rewards);
    let leaf = keccak_concat(owner.as_slice(), total_le.as_slice());
    let proof_slice = args.proof.as_slice();
    let computed = recompute_root(leaf, proof_slice, args.index);
    proof {
        assert(proof_slice.deep_view() =~= args.proof.deep_view());
        assert(leaf@ == leaf_of(owner@, args.total_rewards));
    }
    let stored = match verify_and_get_root(merkle_root, merkle_root_account) {
        Ok(root) => root,
        Err(e) => {
            return Err(e);
        },
    };
    if !bytes32_eq(&computed, &stored) {
        return Err(DephyRewardsError::InvalidProof);
    }
    if args.total_rewards <= claim_state.claimed_rewards {
        return Err(DephyRewardsError::AlreadyClaimed);
    }
    let payable = args.total_rewards - claim_state.claimed_rewards;
    claim_state.owner = *owner;
    claim_state.claimed_rewards = args.total_rewards;
    Ok(payable)
}

/// A claim that was just paid in full cannot be paid again: once the record
/// holds the claimed entitlement, the identical submission — and any
/// submission for no more than the recorded amount — is rejected.
pub proof fn lemma_claim_replay_rejected(
    claimed_rewards: u64,
    owner: [u8; 32],
    args: ClaimRewardsArgs,
    merkle_root: MerkleRoot,
    account: Option<&ExternalRootAccount>,
)
    requires
        args.total_rewards <= claimed_rewards,
    ensures
        claim_error(claimed_rewards, owner, args, merkle_root, account) is Some,
{
}

/// The compute part of admin initialization: the global config record.
pub fn initialize(admin: &[u8; 32]) -> (gc: GlobalConfig)
    ensures
        gc.admin == *admin,
{
    GlobalConfig { admin: *admin }
}

/// The compute part of store initialization: a root store with the given
/// authority, mint and custody account, and an all-zero inline root.
pub fn initialize_rewards_state(
    authority: &[u8; 32],
    rewards_mint: &[u8; 32],
    rewards_token_account: &[u8; 32],
) -> (rs: RewardsState)
    ensures
        rs.authority == *authority,
        rs.rewards_mint == *rewards_mint,
        rs.rewards_token_account == *rewards_token_account,
        rs.merkle_root matches MerkleRoot::Inplace { hash } && hash@ == zeroed32(),
{
    RewardsState {
        authority: *authority,
        rewards_mint: *rewards_mint,
        rewards_token_account: *rewards_token_account,
        merkle_root: MerkleRoot::Inplace { hash: [0u8; 32] },
    }
}

/// Replace the authoritative root unconditionally; whether the caller may do
/// so is the caller's responsibility.
pub fn update_merkle_root(rewards_state: &mut RewardsState, args: &UpdateMerkleRootArgs)
    ensures
        *final(rewards_state) == (RewardsState {
            merkle_root: args.merkle_root,
            ..*old(rewards_state)
        }),
{
    rewards_state.merkle_root = args.merkle_root;
}

/// Hand the store to a new authority: allowed for the global admin and for
/// the current authority, and for nobody else.
pub fn update_authority(
    rewards_state: &mut RewardsState,
    global_config: &GlobalConfig,
    signer: &[u8; 32],
    new_authority: &[u8; 32],
) -> (r: Result<(), DephyRewardsError>)
    ensures
        r is Err <==> signer@ != global_config.admin@ && signer@ != old(rewards_state).authority@,
        r is Err ==> r == Err::<(), DephyRewardsError>(DephyRewardsError::InvalidAuthority)
            && *final(rewards_state) == *old(rewards_state),
        r is Ok ==> *final(rewards_state) == (RewardsState {
            authority: *new_authority,
            ..*old(rewards_state)
        }),
{
    if !bytes32_eq(signer, &global_config.admin) {
        if !bytes32_eq(signer, &rewards_state.authority) {
            return Err(DephyRewardsError::InvalidAuthority);
        }
    }
    rewards_state.authority = *new_authority;
    Ok(())
}

} // verus!
