use tendermint::block::{Commit, CommitSig, Header, SignedHeader};
use tendermint::error::ParseError;
use tendermint::lite::{
    check_binding, check_expiry, has_sufficient_voting_power, verify_trusting, voting_power_in, CryptoOutcome,
    TrustThreshold, VerifyError,
};
use tendermint::time::Time;
use tendermint::validator::{Validator, ValidatorSet};

fn val(addr: u8, power: u64) -> Validator {
    Validator { address: vec![addr; 20], pub_key: vec![addr; 32], voting_power: power, proposer_priority: 0 }
}

fn header(height: u64, vals_hash: u8) -> Header {
    Header {
        chain_id: "test-chain".to_string(),
        height,
        time: Time::from_unix_nanos(1_000_000_000 * height as i128),
        last_block_id: vec![0; 32],
        validators_hash: vec![vals_hash; 32],
        next_validators_hash: vec![vals_hash; 32],
        app_hash: vec![0; 32],
        proposer_address: vec![1; 20],
    }
}

fn vote(addr: u8) -> CommitSig {
    CommitSig::Commit {
        validator_address: vec![addr; 20],
        timestamp: Time::from_unix_nanos(5),
        signature: vec![addr; 64],
    }
}

fn nil_vote(addr: u8) -> CommitSig {
    CommitSig::Nil {
        validator_address: vec![addr; 20],
        timestamp: Time::from_unix_nanos(5),
        signature: vec![addr; 64],
    }
}

fn four_validators() -> ValidatorSet {
    ValidatorSet::new(vec![val(1, 10), val(2, 10), val(3, 10), val(4, 10)]).unwrap()
}

fn candidate(height: u64, sigs: Vec<CommitSig>) -> SignedHeader {
    SignedHeader::from_parts(
        Some(header(height, 7)),
        Some(Commit { height, round: 0, block_id: vec![9; 32], signatures: sigs }),
    )
    .unwrap()
}

fn outcome(trusted: Vec<bool>, fresh: Vec<bool>) -> CryptoOutcome {
    CryptoOutcome {
        header_hash: vec![9; 32],
        validator_set_hash: vec![7; 32],
        trusted_votes_valid: trusted,
        candidate_votes_valid: fresh,
    }
}

#[test]
fn check_verifier_with_mock_data() {
    let trusted = header(10, 7);
    let cand = candidate(11, vec![vote(1), vote(2), vote(3), CommitSig::Absent]);
    let r = verify_trusting(
        &trusted,
        &cand,
        &four_validators(),
        &four_validators(),
        &TrustThreshold::default(),
        &outcome(vec![true, true, true, false], vec![true, true, true, false]),
    );
    assert_eq!(r, Ok(()));
}

#[test]
fn corrupted_signature_lowers_power() {
    let trusted = header(10, 7);
    let cand = candidate(11, vec![vote(1), vote(2), vote(3), CommitSig::Absent]);
    // One of three signatures fails: 20 of 40 is above a third but not above two thirds.
    let r = verify_trusting(
        &trusted,
        &cand,
        &four_validators(),
        &four_validators(),
        &TrustThreshold::default(),
        &outcome(vec![true, false, true, false], vec![true, false, true, false]),
    );
    assert_eq!(r, Err(VerifyError::InsufficientNewPower));
    // Two fail: 10 of 40 is at or below a third.
    let r = verify_trusting(
        &trusted,
        &cand,
        &four_validators(),
        &four_validators(),
        &TrustThreshold::default(),
        &outcome(vec![true, false, false, false], vec![true, false, false, false]),
    );
    assert_eq!(r, Err(VerifyError::InsufficientTrustedPower));
}

#[test]
fn validator_hash_mismatch_comes_first() {
    let trusted = header(10, 7);
    let mut cand = candidate(11, vec![CommitSig::Absent; 4]);
    cand.header.validators_hash = vec![8; 32];
    let r = verify_trusting(
        &trusted,
        &cand,
        &four_validators(),
        &four_validators(),
        &TrustThreshold::default(),
        &outcome(vec![false; 4], vec![false; 4]),
    );
    assert_eq!(r, Err(VerifyError::ValidatorSetMismatch));
}

#[test]
fn header_commit_mismatch() {
    let trusted = header(10, 7);
    let mut cand = candidate(11, vec![vote(1), vote(2), vote(3), vote(4)]);
    cand.commit.block_id = vec![1; 32];
    let r = verify_trusting(
        &trusted,
        &cand,
        &four_validators(),
        &four_validators(),
        &TrustThreshold::default(),
        &outcome(vec![true; 4], vec![true; 4]),
    );
    assert_eq!(r, Err(VerifyError::HeaderCommitMismatch));
}

#[test]
fn non_increasing_height_is_refused() {
    for h in [10u64, 3] {
        let trusted = header(10, 7);
        let cand = candidate(h, vec![vote(1), vote(2), vote(3), vote(4)]);
        let r = verify_trusting(
            &trusted,
            &cand,
            &four_validators(),
            &four_validators(),
            &TrustThreshold::default(),
            &outcome(vec![true; 4], vec![true; 4]),
        );
        assert_eq!(r, Err(VerifyError::NonIncreasingHeight));
    }
}

#[test]
fn all_absent_commit_has_no_power() {
    let set = four_validators();
    let sigs = vec![CommitSig::Absent; 4];
    assert_eq!(voting_power_in(&set, &sigs, &vec![true; 4]), Ok(0));
    let trusted = header(10, 7);
    let cand = candidate(11, sigs);
    let r = verify_trusting(
        &trusted,
        &cand,
        &set,
        &four_validators(),
        &TrustThreshold::default(),
        &outcome(vec![true; 4], vec![true; 4]),
    );
    assert_eq!(r, Err(VerifyError::InsufficientTrustedPower));
}

#[test]
fn nil_votes_and_wrong_addresses_do_not_count() {
    let set = four_validators();
    let sigs = vec![vote(1), nil_vote(2), vote(9), vote(4)];
    assert_eq!(voting_power_in(&set, &sigs, &vec![true; 4]), Ok(20));
}

#[test]
fn commit_length_mismatch_is_structural() {
    let set = four_validators();
    let sigs = vec![vote(1), vote(2)];
    assert_eq!(voting_power_in(&set, &sigs, &vec![true; 2]), Err(VerifyError::CommitLengthMismatch));
    let trusted = header(10, 7);
    let cand = candidate(11, sigs);
    let r = verify_trusting(
        &trusted,
        &cand,
        &set,
        &four_validators(),
        &TrustThreshold::default(),
        &outcome(vec![true; 2], vec![true; 2]),
    );
    assert_eq!(r, Err(VerifyError::CommitLengthMismatch));
}

#[test]
fn threshold_is_strict() {
    let third = TrustThreshold::default();
    assert!(!has_sufficient_voting_power(1, 3, &third));
    assert!(has_sufficient_voting_power(2, 5, &third));
    let two = TrustThreshold::two_thirds();
    assert!(!has_sufficient_voting_power(2, 3, &two));
    assert!(has_sufficient_voting_power(3, 4, &two));
    assert!(!has_sufficient_voting_power(0, 0, &two));
    assert!(has_sufficient_voting_power(u64::MAX, u64::MAX, &two));
}

#[test]
fn stricter_threshold_can_refuse() {
    let trusted = header(10, 7);
    let cand = candidate(11, vec![vote(1), vote(2), vote(3), CommitSig::Absent]);
    let strict = TrustThreshold { numerator: 3, denominator: 4 };
    let r = verify_trusting(
        &trusted,
        &cand,
        &four_validators(),
        &four_validators(),
        &strict,
        &outcome(vec![true, true, true, false], vec![true, true, true, false]),
    );
    assert_eq!(r, Err(VerifyError::InsufficientTrustedPower));
}

#[test]
fn expiry_boundary_is_inclusive() {
    let t = Time::from_unix_nanos(1_000);
    assert_eq!(check_expiry(t, 500, Time::from_unix_nanos(1_500)), Err(VerifyError::Expired));
    assert_eq!(check_expiry(t, 500, Time::from_unix_nanos(1_499)), Ok(()));
    assert_eq!(check_expiry(t, 500, Time::from_unix_nanos(2_000)), Err(VerifyError::Expired));
    assert_eq!(check_expiry(t, 0, Time::from_unix_nanos(1_000)), Err(VerifyError::Expired));
    assert_eq!(check_expiry(Time::from_unix_nanos(i128::MAX), 10, Time::from_unix_nanos(i128::MAX)), Ok(()));
}

#[test]
fn signed_header_needs_both_parts() {
    let c = Commit { height: 1, round: 0, block_id: vec![], signatures: vec![] };
    assert_eq!(SignedHeader::from_parts(None, Some(c.clone())).unwrap_err(), ParseError::MissingHeader);
    assert_eq!(SignedHeader::from_parts(Some(header(1, 7)), None).unwrap_err(), ParseError::MissingCommit);
    assert!(SignedHeader::from_parts(Some(header(1, 7)), Some(c)).is_ok());
}

#[test]
fn binding_check_needs_no_signatures() {
    let trusted = header(10, 7);
    let mut cand = candidate(11, vec![vote(1), vote(2), vote(3), vote(4)]);
    assert_eq!(check_binding(&trusted, &cand, &vec![9; 32], &vec![7; 32]), Ok(()));
    assert_eq!(
        check_binding(&trusted, &cand, &vec![9; 32], &vec![8; 32]),
        Err(VerifyError::ValidatorSetMismatch)
    );
    assert_eq!(
        check_binding(&trusted, &cand, &vec![1; 32], &vec![8; 32]),
        Err(VerifyError::HeaderCommitMismatch)
    );
    cand.header.height = 10;
    assert_eq!(
        check_binding(&trusted, &cand, &vec![9; 32], &vec![7; 32]),
        Err(VerifyError::NonIncreasingHeight)
    );
}
