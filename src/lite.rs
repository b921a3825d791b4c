//! Light-client verification: voting-power tallies, trust thresholds,
//! single-hop trusting verification and the expiry check.
use vstd::prelude::*;

use crate::block::{CommitSig, Header, SignedHeader};
use crate::time::Time;
use crate::validator::{compare_bytes, power_sum, Validator, ValidatorSet};

verus! {

/// Why a candidate header could not be trusted.
#[derive(Clone, Copy, Debug, PartialEq, Eq, Structural)]
pub enum VerifyError {
    /// The commit does not commit to the candidate header.
    HeaderCommitMismatch,
    /// The supplied validator set is not the one the header names.
    ValidatorSetMismatch,
    /// The candidate is not higher than the trusted header.
    NonIncreasingHeight,
    /// A commit's entries are not aligned with a validator set.
    CommitLengthMismatch,
    /// The trusted validators signed with too little power.
    InsufficientTrustedPower,
    /// The candidate's own validators signed with too little power.
    InsufficientNewPower,
    /// The trusted state is older than the trusting period.
    Expired,
}

/// A fraction of the total voting power that a tally must exceed.
#[derive(Clone, Copy, Debug, PartialEq, Eq, Structural)]
pub struct TrustThreshold {
    /// Numerator of the fraction.
    pub numerator: u64,
    /// Denominator of the fraction.
    pub denominator: u64,
}

impl TrustThreshold {
    /// The consensus-safety threshold, two thirds.
    pub fn two_thirds() -> (r: TrustThreshold)
        ensures
            r.numerator == 2 && r.denominator == 3,
    {
        TrustThreshold { numerator: 2, denominator: 3 }
    }
}

impl Default for TrustThreshold {
    /// The default trust threshold, one third.
    fn default() -> (r: TrustThreshold)
        ensures
            r.numerator == 1 && r.denominator == 3,
    {
        TrustThreshold { numerator: 1, denominator: 3 }
    }
}

/// `tallied / total` exceeds `numerator / denominator`.
pub open spec fn sufficient(tallied: int, total: int, threshold: TrustThreshold) -> bool {
    tallied * threshold.denominator > total * threshold.numerator
}

/// Whether the tallied power exceeds the threshold's fraction of the total.
pub fn has_sufficient_voting_power(tallied: u64, total: u64, threshold: &TrustThreshold) -> (r:
    bool)
    ensures
        r == sufficient(tallied as int, total as int, *threshold),
{
    let a = tallied as u128;
    let b = total as u128;
    let d = threshold.denominator as u128;
    let n = threshold.numerator as u128;
    assert(a * d <= u64::MAX * u64::MAX && b * n <= u64::MAX * u64::MAX) by (nonlinear_arith)
        requires
            a <= u64::MAX,
            b <= u64::MAX,
            d <= u64::MAX,
            n <= u64::MAX,
            a >= 0,
            b >= 0,
            d >= 0,
            n >= 0,
    ;
    a * d > b * n
}

/// The entry is a vote for the committed block by this validator, and its
/// signature was found valid.
pub open spec fn counts(v: Validator, sig: CommitSig, valid: bool) -> bool {
    valid && match sig {
        CommitSig::Commit { validator_address, .. } => validator_address@ == v.address@,
        _ => false,
    }
}

/// Power of the first `i` validators whose entries count as votes for the
/// block.
pub open spec fn tally(vals: Seq<Validator>, sigs: Seq<CommitSig>, valid: Seq<bool>, i: int) -> int
    decreases i,
{
    if i <= 0 {
        0
    } else {
        tally(vals, sigs, valid, i - 1) + if counts(vals[i - 1], sigs[i - 1], valid[i - 1]) {
            vals[i - 1].voting_power as int
        } else {
            0
        }
    }
}

/// A tally never exceeds the power of the validators it ran over.
pub proof fn lemma_tally_bounded(vals: Seq<Validator>, sigs: Seq<CommitSig>, valid: Seq<bool>, i: int)
    requires
        0 <= i <= vals.len(),
    ensures
        0 <= tally(vals, sigs, valid, i) <= power_sum(vals.take(i)),
    decreases i,
{
    if i > 0 {
        lemma_tally_bounded(vals, sigs, valid, i - 1);
        assert(vals.take(i).drop_last() =~= vals.take(i - 1));
    }
}

/// A commit in which no validator voted tallies no power.
pub open spec fn all_absent(sigs: Seq<CommitSig>) -> bool {
    forall|k: int| 0 <= k < sigs.len() ==> #[trigger] sigs[k] is Absent
}

/// Power of the validators of `set` whose aligned entries in `sigs` are
/// valid votes for the block; `valid[i]` tells whether entry `i`'s signature
/// verifies under validator `i`'s key.
pub fn voting_power_in(set: &ValidatorSet, sigs: &Vec<CommitSig>, valid: &Vec<bool>) -> (r: Result<
    u64,
    VerifyError,
>)
    ensures
        match r {
            Ok(p) => {
                &&& sigs@.len() == set@.len() && valid@.len() == set@.len()
                &&& p == tally(set@, sigs@, valid@, set@.len() as int)
            },
            Err(e) => e == VerifyError::CommitLengthMismatch && (sigs@.len() != set@.len()
                || valid@.len() != set@.len()),
        },
{
    let vals = set.validators();
    if sigs.len() != vals.len() || valid.len() != vals.len() {
        return Err(VerifyError::CommitLengthMismatch);
    }
    let mut total: u64 = 0;
    let mut i: usize = 0;
    while i < vals.len()
        invariant
            i <= vals@.len(),
            vals@ == set@,
            sigs@.len() == vals@.len(),
            valid@.len() == vals@.len(),
            power_sum(vals@) <= u64::MAX,
            total == tally(vals@, sigs@, valid@, i as int),
        decreases vals@.len() - i,
    {
        proof {
            lemma_tally_bounded(vals@, sigs@, valid@, i + 1);
            crate::validator::lemma_power_sum_prefix(vals@, i + 1);
        }
        let votes = valid[i] && match &sigs[i] {
            CommitSig::Commit { validator_address, .. } => compare_bytes(
                validator_address,
                &vals[i].address,
            ) == 0,
            _ => false,
        };
        if votes {
            total = total + vals[i].voting_power;
        }
        i = i + 1;
    }
    Ok(total)
}

/// What the hashing and signature capabilities reported for one
/// verification step.
#[derive(Clone, Debug)]
pub struct CryptoOutcome {
    /// Hash of the candidate header.
    pub header_hash: Vec<u8>,
    /// Hash of the candidate's validator set.
    pub validator_set_hash: Vec<u8>,
    /// For each commit entry, whether its signature verifies under the key
    /// of the trusted next set's validator at that position.
    pub trusted_votes_valid: Vec<bool>,
    /// For each commit entry, whether its signature verifies under the key
    /// of the candidate set's validator at that position.
    pub candidate_votes_valid: Vec<bool>,
}

/// The outcome of the checks that need no signature, in order: the commit
/// commits to the candidate header, the candidate names the supplied
/// validator set, and the candidate is higher than the trusted header.
pub open spec fn binding_outcome(
    trusted_header: Header,
    candidate: SignedHeader,
    header_hash: Seq<u8>,
    validator_set_hash: Seq<u8>,
) -> Result<(), VerifyError> {
    if candidate.commit.block_id@ != header_hash {
        Err(VerifyError::HeaderCommitMismatch)
    } else if candidate.header.validators_hash@ != validator_set_hash {
        Err(VerifyError::ValidatorSetMismatch)
    } else if candidate.header.height <= trusted_header.height {
        Err(VerifyError::NonIncreasingHeight)
    } else {
        Ok(())
    }
}

/// Runs the checks that need no signature, given the hash of the candidate
/// header and of the supplied validator set; a caller runs it before any
/// signature is checked, and skips the signatures when it fails.
pub fn check_binding(
    trusted_header: &Header,
    candidate: &SignedHeader,
    header_hash: &Vec<u8>,
    validator_set_hash: &Vec<u8>,
) -> (r: Result<(), VerifyError>)
    ensures
        r == binding_outcome(*trusted_header, *candidate, header_hash@, validator_set_hash@),
{
    if compare_bytes(&candidate.commit.block_id, header_hash) != 0 {
        return Err(VerifyError::HeaderCommitMismatch);
    }
    if compare_bytes(&candidate.header.validators_hash, validator_set_hash) != 0 {
        return Err(VerifyError::ValidatorSetMismatch);
    }
    if candidate.header.height <= trusted_header.height {
        return Err(VerifyError::NonIncreasingHeight);
    }
    Ok(())
}

/// The outcome of trusting verification, check by check in order.
pub open spec fn trusting_outcome(
    trusted_header: Header,
    candidate: SignedHeader,
    candidate_validators: Seq<Validator>,
    trusted_next_validators: Seq<Validator>,
    threshold: TrustThreshold,
    crypto: CryptoOutcome,
) -> Result<(), VerifyError> {
    let sigs = candidate.commit.signatures@;
    let binding = binding_outcome(
        trusted_header,
        candidate,
        crypto.header_hash@,
        crypto.validator_set_hash@,
    );
    if binding is Err {
        binding
    } else if sigs.len() != trusted_next_validators.len() || crypto.trusted_votes_valid@.len()
        != sigs.len() || sigs.len() != candidate_validators.len()
        || crypto.candidate_votes_valid@.len() != sigs.len() {
        Err(VerifyError::CommitLengthMismatch)
    } else if !sufficient(
        tally(trusted_next_validators, sigs, crypto.trusted_votes_valid@, sigs.len() as int),
        power_sum(trusted_next_validators),
        threshold,
    ) {
        Err(VerifyError::InsufficientTrustedPower)
    } else if !sufficient(
        tally(candidate_validators, sigs, crypto.candidate_votes_valid@, sigs.len() as int),
        power_sum(candidate_validators),
        TrustThreshold { numerator: 2, denominator: 3 },
    ) {
        Err(VerifyError::InsufficientNewPower)
    } else {
        Ok(())
    }
}

/// Decides whether `candidate` can be trusted given `trusted_header` and
/// the validator set that the trusted chain announced for the next block.
pub fn verify_trusting(
    trusted_header: &Header,
    candidate: &SignedHeader,
    candidate_validators: &ValidatorSet,
    trusted_next_validators: &ValidatorSet,
    threshold: &TrustThreshold,
    crypto: &CryptoOutcome,
) -> (r: Result<(), VerifyError>)
    ensures
        r == trusting_outcome(
            *trusted_header,
            *candidate,
            candidate_validators@,
            trusted_next_validators@,
            *threshold,
            *crypto,
        ),
{
    let binding = check_binding(
        trusted_header,
        candidate,
        &crypto.header_hash,
        &crypto.validator_set_hash,
    );
    if binding.is_err() {
        return binding;
    }
    let sigs = &candidate.commit.signatures;
    if sigs.len() != trusted_next_validators.len() || crypto.trusted_votes_valid.len()
        != sigs.len() || sigs.len() != candidate_validators.len()
        || crypto.candidate_votes_valid.len() != sigs.len() {
        return Err(VerifyError::CommitLengthMismatch);
    }
    let trusted_power = match voting_power_in(
        trusted_next_validators,
        sigs,
        &crypto.trusted_votes_valid,
    ) {
        Ok(p) => p,
        Err(e) => return Err(e),
    };
    let trusted_total = trusted_next_validators.total_voting_power();
    if !has_sufficient_voting_power(trusted_power, trusted_total, threshold) {
        return Err(VerifyError::InsufficientTrustedPower);
    }
    let new_power = match voting_power_in(candidate_validators, sigs, &crypto.candidate_votes_valid) {
        Ok(p) => p,
        Err(e) => return Err(e),
    };
    let new_total = candidate_validators.total_voting_power();
    if !has_sufficient_voting_power(new_power, new_total, &TrustThreshold::two_thirds()) {
        return Err(VerifyError::InsufficientNewPower);
    }
    Ok(())
}

/// The trusted state has expired: at least `trusting_period` nanoseconds
/// separate its time from `now`.
pub open spec fn expired(trusted_time: Time, trusting_period: u64, now: Time) -> bool {
    now.unix_nanos - trusted_time.unix_nanos >= trusting_period
}

/// Fails with `Expired` when `now` is at or past the end of the trusting
/// period that starts at `trusted_time`.
pub fn check_expiry(trusted_time: Time, trusting_period: u64, now: Time) -> (r: Result<
    (),
    VerifyError,
>)
    ensures
        r is Err <==> expired(trusted_time, trusting_period, now),
        r is Err ==> r == Err::<(), VerifyError>(VerifyError::Expired),
{
    let p = trusting_period as i128;
    if trusted_time.unix_nanos <= i128::MAX - p && now.unix_nanos >= trusted_time.unix_nanos + p {
        Err(VerifyError::Expired)
    } else {
        Ok(())
    }
}

/// A candidate at or below the trusted height is refused with the height
/// error whatever its signatures, once its commit and validator set match
/// the hashes it names.
pub proof fn lemma_non_increasing_height_refused(
    trusted_header: Header,
    candidate: SignedHeader,
    candidate_validators: Seq<Validator>,
    trusted_next_validators: Seq<Validator>,
    threshold: TrustThreshold,
    crypto: CryptoOutcome,
)
    requires
        candidate.header.height <= trusted_header.height,
        candidate.commit.block_id@ == crypto.header_hash@,
        candidate.header.validators_hash@ == crypto.validator_set_hash@,
    ensures
        trusting_outcome(
            trusted_header,
            candidate,
            candidate_validators,
            trusted_next_validators,
            threshold,
            crypto,
        ) == Err::<(), VerifyError>(VerifyError::NonIncreasingHeight),
{
}

/// A commit in which every entry is absent tallies no power, so neither the
/// trust threshold nor the two-thirds threshold is met, and trusting
/// verification that gets as far as the tally refuses the candidate for
/// want of trusted power.
pub proof fn lemma_all_absent_tallies_nothing(
    trusted_header: Header,
    candidate: SignedHeader,
    candidate_validators: Seq<Validator>,
    trusted_next_validators: Seq<Validator>,
    threshold: TrustThreshold,
    crypto: CryptoOutcome,
    vals: Seq<Validator>,
    valid: Seq<bool>,
)
    requires
        all_absent(candidate.commit.signatures@),
        vals.len() == candidate.commit.signatures@.len(),
        valid.len() == candidate.commit.signatures@.len(),
    ensures
        tally(vals, candidate.commit.signatures@, valid, vals.len() as int) == 0,
        !sufficient(0, power_sum(vals), threshold),
        !sufficient(0, power_sum(vals), TrustThreshold { numerator: 2, denominator: 3 }),
        trusting_outcome(
            trusted_header,
            candidate,
            candidate_validators,
            trusted_next_validators,
            threshold,
            crypto,
        ) is Err,
        ({
            let sigs = candidate.commit.signatures@;
            (candidate.commit.block_id@ == crypto.header_hash@
                && candidate.header.validators_hash@ == crypto.validator_set_hash@
                && candidate.header.height > trusted_header.height && sigs.len()
                == trusted_next_validators.len() && crypto.trusted_votes_valid@.len() == sigs.len()
                && sigs.len() == candidate_validators.len() && crypto.candidate_votes_valid@.len()
                == sigs.len()) ==> trusting_outcome(
                trusted_header,
                candidate,
                candidate_validators,
                trusted_next_validators,
                threshold,
                crypto,
            ) == Err::<(), VerifyError>(VerifyError::InsufficientTrustedPower)
        }),
{
    let sigs = candidate.commit.signatures@;
    lemma_absent_tally_zero(vals, sigs, valid, vals.len() as int);
    lemma_absent_tally_zero(trusted_next_validators, sigs, crypto.trusted_votes_valid@, sigs.len() as int);
    lemma_power_sum_nonneg(vals);
    lemma_power_sum_nonneg(trusted_next_validators);
    assert(power_sum(vals) * threshold.numerator >= 0) by (nonlinear_arith)
        requires
            power_sum(vals) >= 0,
    ;
    assert(power_sum(trusted_next_validators) * threshold.numerator >= 0) by (nonlinear_arith)
        requires
            power_sum(trusted_next_validators) >= 0,
    ;
}

proof fn lemma_absent_tally_zero(vals: Seq<Validator>, sigs: Seq<CommitSig>, valid: Seq<bool>, i: int)
    requires
        all_absent(sigs),
        i <= sigs.len(),
    ensures
        tally(vals, sigs, valid, i) == 0,
    decreases i,
{
    if i > 0 {
        assert(sigs[i - 1] is Absent);
        lemma_absent_tally_zero(vals, sigs, valid, i - 1);
    }
}

proof fn lemma_power_sum_nonneg(s: Seq<Validator>)
    ensures
        power_sum(s) >= 0,
{
    crate::validator::lemma_power_sum_prefix(s, 0);
}

} // verus!
