use dephy_ncn::rewards::claim_rewards;
use dephy_ncn::rewards::initialize;
use dephy_ncn::rewards::initialize_rewards_state;
use dephy_ncn::rewards::update_authority;
use dephy_ncn::rewards::update_merkle_root;
use dephy_ncn::rewards::verify_and_get_root;
use dephy_ncn::rewards::ClaimRewardsArgs;
use dephy_ncn::rewards::ClaimState;
use dephy_ncn::rewards::DephyRewardsError;
use dephy_ncn::rewards::ExternalRootAccount;
use dephy_ncn::rewards::MerkleRoot;
use dephy_ncn::rewards::UpdateMerkleRootArgs;

fn keccak(parts: &[&[u8]]) -> [u8; 32] {
    solana_program::keccak::hashv(parts).to_bytes()
}

/// The leaf for `owner` and `total`, and the root of a small tree in which it
/// sits at `index` under the sibling path `proof`.
fn leaf_and_root(owner: &[u8; 32], total: u64, proof: &[[u8; 32]], index: u32) -> [u8; 32] {
    let mut node = keccak(&[owner, &total.to_le_bytes()]);
    for (i, sibling) in proof.iter().enumerate() {
        node = if index >> i & 1 == 0 {
            keccak(&[&node, sibling])
        } else {
            keccak(&[sibling, &node])
        };
    }
    node
}

#[test]
fn initialize_records_the_admin() {
    let admin = [5u8; 32];
    let gc = initialize(&admin);
    assert_eq!(gc.admin, admin);
}

#[test]
fn initialize_rewards_state_starts_with_zero_inline_root() {
    let authority = [1u8; 32];
    let mint = [2u8; 32];
    let custody = [3u8; 32];
    let rs = initialize_rewards_state(&authority, &mint, &custody);
    assert_eq!(rs.authority, authority);
    assert_eq!(rs.rewards_mint, mint);
    assert_eq!(rs.rewards_token_account, custody);
    assert_eq!(rs.merkle_root, MerkleRoot::Inplace { hash: [0u8; 32] });
}

#[test]
fn update_merkle_root_replaces_the_value() {
    let mut rs = initialize_rewards_state(&[1u8; 32], &[2u8; 32], &[3u8; 32]);
    let new_root = MerkleRoot::External { pubkey: [9u8; 32], offset: 16 };
    update_merkle_root(&mut rs, &UpdateMerkleRootArgs { merkle_root: new_root });
    assert_eq!(rs.merkle_root, new_root);
    assert_eq!(rs.authority, [1u8; 32]);
}

#[test]
fn update_authority_allows_admin_and_authority_only() {
    let admin = [1u8; 32];
    let authority = [2u8; 32];
    let next = [3u8; 32];
    let stranger = [4u8; 32];
    let gc = initialize(&admin);

    let mut rs = initialize_rewards_state(&authority, &[0u8; 32], &[0u8; 32]);
    assert_eq!(update_authority(&mut rs, &gc, &stranger, &next), Err(DephyRewardsError::InvalidAuthority));
    assert_eq!(rs.authority, authority);

    assert_eq!(update_authority(&mut rs, &gc, &authority, &next), Ok(()));
    assert_eq!(rs.authority, next);

    assert_eq!(update_authority(&mut rs, &gc, &admin, &authority), Ok(()));
    assert_eq!(rs.authority, authority);
}

#[test]
fn inline_root_is_returned_directly() {
    let hash = [7u8; 32];
    assert_eq!(verify_and_get_root(&MerkleRoot::Inplace { hash }, None), Ok(hash));
}

#[test]
fn external_root_is_read_at_the_offset() {
    let key = [8u8; 32];
    let root = [9u8; 32];
    let mut data = vec![0u8; 4];
    data.extend_from_slice(&root);
    data.extend_from_slice(&[1, 2, 3]);
    let account = ExternalRootAccount { key, data };
    let reference = MerkleRoot::External { pubkey: key, offset: 4 };
    assert_eq!(verify_and_get_root(&reference, Some(&account)), Ok(root));
}

#[test]
fn external_root_requires_the_referenced_account() {
    let reference = MerkleRoot::External { pubkey: [8u8; 32], offset: 0 };
    assert_eq!(verify_and_get_root(&reference, None), Err(DephyRewardsError::RootUnavailable));
    // an account with another identity is refused
    let account = ExternalRootAccount { key: [1u8; 32], data: vec![0u8; 64] };
    assert_eq!(
        verify_and_get_root(&reference, Some(&account)),
        Err(DephyRewardsError::RootUnavailable)
    );
}

#[test]
fn external_root_requires_enough_bytes() {
    let key = [8u8; 32];
    let reference = MerkleRoot::External { pubkey: key, offset: 4 };
    // 35 bytes: offset 4 + 32 runs past the end
    let account = ExternalRootAccount { key, data: vec![0u8; 35] };
    assert_eq!(
        verify_and_get_root(&reference, Some(&account)),
        Err(DephyRewardsError::RootUnavailable)
    );
    // 36 bytes: exactly enough
    let account = ExternalRootAccount { key, data: vec![0u8; 36] };
    assert_eq!(verify_and_get_root(&reference, Some(&account)), Ok([0u8; 32]));
}

#[test]
fn claim_pays_the_unclaimed_remainder() {
    // entitlement 1000, 400 already claimed: a valid proof pays 600 and
    // raises the record to 1000; the identical claim then finds nothing left
    let owner = [6u8; 32];
    let proof = [[21u8; 32], [22u8; 32]];
    let index = 2u32;
    let root = leaf_and_root(&owner, 1000, &proof, index);
    let store = MerkleRoot::Inplace { hash: root };
    let mut cs = ClaimState { owner, claimed_rewards: 400 };
    let args = ClaimRewardsArgs { index, total_rewards: 1000, proof: proof.to_vec() };

    assert_eq!(claim_rewards(&mut cs, &owner, &args, &store, None), Ok(600));
    assert_eq!(cs.claimed_rewards, 1000);
    assert_eq!(cs.owner, owner);

    assert_eq!(
        claim_rewards(&mut cs, &owner, &args, &store, None),
        Err(DephyRewardsError::AlreadyClaimed)
    );
    assert_eq!(cs.claimed_rewards, 1000);
}

#[test]
fn first_claim_pays_in_full() {
    let owner = [6u8; 32];
    let proof = [[21u8; 32], [22u8; 32], [23u8; 32]];
    let index = 5u32;
    let root = leaf_and_root(&owner, 250, &proof, index);
    let store = MerkleRoot::Inplace { hash: root };
    let mut cs = ClaimState { owner: [0u8; 32], claimed_rewards: 0 };
    let args = ClaimRewardsArgs { index, total_rewards: 250, proof: proof.to_vec() };
    assert_eq!(claim_rewards(&mut cs, &owner, &args, &store, None), Ok(250));
    assert_eq!(cs.owner, owner);
    assert_eq!(cs.claimed_rewards, 250);
}

#[test]
fn claim_against_external_root_account() {
    let owner = [6u8; 32];
    let proof = [[21u8; 32]];
    let index = 0u32;
    let root = leaf_and_root(&owner, 70, &proof, index);
    let key = [13u8; 32];
    let mut data = vec![0u8; 8];
    data.extend_from_slice(&root);
    let account = ExternalRootAccount { key, data };
    let store = MerkleRoot::External { pubkey: key, offset: 8 };
    let mut cs = ClaimState { owner, claimed_rewards: 0 };
    let args = ClaimRewardsArgs { index, total_rewards: 70, proof: proof.to_vec() };
    assert_eq!(claim_rewards(&mut cs, &owner, &args, &store, Some(&account)), Ok(70));
}

#[test]
fn claim_with_wrong_proof_is_rejected() {
    let owner = [6u8; 32];
    let proof = [[21u8; 32], [22u8; 32]];
    let index = 2u32;
    let root = leaf_and_root(&owner, 1000, &proof, index);
    let store = MerkleRoot::Inplace { hash: root };
    let mut cs = ClaimState { owner, claimed_rewards: 0 };

    // wrong sibling
    let bad = ClaimRewardsArgs { index, total_rewards: 1000, proof: vec![[21u8; 32], [99u8; 32]] };
    assert_eq!(claim_rewards(&mut cs, &owner, &bad, &store, None), Err(DephyRewardsError::InvalidProof));
    // wrong index: the proof recomputes to a different root
    let bad = ClaimRewardsArgs { index: 3, total_rewards: 1000, proof: proof.to_vec() };
    assert_eq!(claim_rewards(&mut cs, &owner, &bad, &store, None), Err(DephyRewardsError::InvalidProof));
    // wrong amount: the leaf no longer matches
    let bad = ClaimRewardsArgs { index, total_rewards: 1001, proof: proof.to_vec() };
    assert_eq!(claim_rewards(&mut cs, &owner, &bad, &store, None), Err(DephyRewardsError::InvalidProof));
    // wrong owner
    let other = [7u8; 32];
    let good = ClaimRewardsArgs { index, total_rewards: 1000, proof: proof.to_vec() };
    assert_eq!(claim_rewards(&mut cs, &other, &good, &store, None), Err(DephyRewardsError::InvalidProof));
    assert_eq!(cs.claimed_rewards, 0);
}

#[test]
fn claim_for_no_more_than_claimed_is_exhausted() {
    let owner = [6u8; 32];
    let proof = [[21u8; 32]];
    let index = 1u32;
    let root = leaf_and_root(&owner, 500, &proof, index);
    let store = MerkleRoot::Inplace { hash: root };
    let mut cs = ClaimState { owner, claimed_rewards: 500 };
    let args = ClaimRewardsArgs { index, total_rewards: 500, proof: proof.to_vec() };
    assert_eq!(claim_rewards(&mut cs, &owner, &args, &store, None), Err(DephyRewardsError::AlreadyClaimed));
    assert_eq!(cs.claimed_rewards, 500);
}

#[test]
fn claim_needs_a_readable_root() {
    let owner = [6u8; 32];
    let store = MerkleRoot::External { pubkey: [13u8; 32], offset: 0 };
    let mut cs = ClaimState { owner, claimed_rewards: 0 };
    let args = ClaimRewardsArgs { index: 0, total_rewards: 10, proof: Vec::new() };
    assert_eq!(
        claim_rewards(&mut cs, &owner, &args, &store, None),
        Err(DephyRewardsError::RootUnavailable)
    );
    assert_eq!(cs.claimed_rewards, 0);
}
