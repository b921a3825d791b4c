//! Validators and canonical validator sets.
use vstd::prelude::*;

verus! {

broadcast use vstd::seq_lib::group_to_multiset_ensures;

/// One consensus participant.
#[derive(Clone, Debug)]
pub struct Validator {
    /// Fixed-width identifier derived from the public key.
    pub address: Vec<u8>,
    /// Public key that the validator's votes verify under.
    pub pub_key: Vec<u8>,
    /// Voting power.
    pub voting_power: u64,
    /// Consensus-internal priority; unused by verification.
    pub proposer_priority: i64,
}

/// Strict lexicographic order on byte strings.
pub open spec fn lex_lt(a: Seq<u8>, b: Seq<u8>) -> bool
    decreases a.len(),
{
    if a.len() == 0 {
        b.len() > 0
    } else if b.len() == 0 {
        false
    } else if a[0] != b[0] {
        a[0] < b[0]
    } else {
        lex_lt(a.drop_first(), b.drop_first())
    }
}

/// No byte string precedes itself.
pub proof fn lemma_lex_irreflexive(a: Seq<u8>)
    ensures
        !lex_lt(a, a),
    decreases a.len(),
{
    if a.len() > 0 {
        lemma_lex_irreflexive(a.drop_first());
    }
}

/// The lexicographic order is transitive.
pub proof fn lemma_lex_transitive(a: Seq<u8>, b: Seq<u8>, c: Seq<u8>)
    requires
        lex_lt(a, b),
        lex_lt(b, c),
    ensures
        lex_lt(a, c),
    decreases a.len(),
{
    if a.len() > 0 && b.len() > 0 && c.len() > 0 && a[0] == b[0] && b[0] == c[0] {
        lemma_lex_transitive(a.drop_first(), b.drop_first(), c.drop_first());
    }
}

/// Compares two byte strings: negative, zero or positive as `a` comes
/// before, equals or comes after `b`.
pub fn compare_bytes(a: &Vec<u8>, b: &Vec<u8>) -> (r: i8)
    ensures
        r < 0 <==> lex_lt(a@, b@),
        r == 0 <==> a@ == b@,
        r > 0 <==> lex_lt(b@, a@),
{
    let mut i: usize = 0;
    assert(a@.skip(0) =~= a@ && b@.skip(0) =~= b@);
    while i < a.len() && i < b.len() && a[i] == b[i]
        invariant
            i <= a@.len(),
            i <= b@.len(),
            a@.subrange(0, i as int) == b@.subrange(0, i as int),
            lex_lt(a@, b@) == lex_lt(a@.skip(i as int), b@.skip(i as int)),
            lex_lt(b@, a@) == lex_lt(b@.skip(i as int), a@.skip(i as int)),
        decreases a@.len() - i,
    {
        assert(a@.skip(i as int).drop_first() =~= a@.skip(i + 1));
        assert(b@.skip(i as int).drop_first() =~= b@.skip(i + 1));
        assert(a@.subrange(0, i + 1) =~= a@.subrange(0, i as int).push(a@[i as int]));
        assert(b@.subrange(0, i + 1) =~= b@.subrange(0, i as int).push(b@[i as int]));
        i = i + 1;
    }
    if i == a.len() && i == b.len() {
        assert(a@ =~= a@.subrange(0, i as int));
        assert(b@ =~= b@.subrange(0, i as int));
        proof {
            lemma_lex_irreflexive(a@);
        }
        0
    } else {
        assert(a@ != b@ && a@.len() == b@.len() ==> a@[i as int] != b@[i as int]);
        if i == a.len() || (i < b.len() && a[i] < b[i]) {
            -1
        } else {
            1
        }
    }
}

/// Sum of the voting powers of a sequence of validators.
pub open spec fn power_sum(s: Seq<Validator>) -> int
    decreases s.len(),
{
    if s.len() == 0 {
        0
    } else {
        power_sum(s.drop_last()) + s.last().voting_power
    }
}

/// Every prefix's power is at most the whole's.
pub proof fn lemma_power_sum_prefix(s: Seq<Validator>, i: int)
    requires
        0 <= i <= s.len(),
    ensures
        0 <= power_sum(s.take(i)) <= power_sum(s),
    decreases s.len(),
{
    if s.len() > 0 {
        if i == s.len() {
            assert(s.take(i) =~= s);
            lemma_power_sum_prefix(s.drop_last(), i - 1);
            assert(s.drop_last().take(i - 1) =~= s.drop_last());
        } else {
            lemma_power_sum_prefix(s.drop_last(), i);
            assert(s.drop_last().take(i) =~= s.take(i));
        }
    }
}

/// Removing one validator takes exactly its power off the sum.
pub proof fn lemma_power_sum_remove(s: Seq<Validator>, j: int)
    requires
        0 <= j < s.len(),
    ensures
        power_sum(s) == s[j].voting_power + power_sum(s.remove(j)),
    decreases s.len(),
{
    if j == s.len() - 1 {
        assert(s.remove(j) =~= s.drop_last());
    } else {
        lemma_power_sum_remove(s.drop_last(), j);
        assert(s.remove(j).drop_last() =~= s.drop_last().remove(j));
    }
}

/// The total voting power of validators does not depend on their order:
/// two sequences holding the same validators have the same power sum.
pub proof fn lemma_power_sum_reorder(a: Seq<Validator>, b: Seq<Validator>)
    requires
        a.to_multiset() == b.to_multiset(),
    ensures
        power_sum(a) == power_sum(b),
    decreases a.len(),
{
    broadcast use vstd::seq_lib::to_multiset_contains, vstd::seq_lib::to_multiset_remove;

    if a.len() == 0 {
        assert(b.to_multiset().len() == 0);
        assert(b.len() == 0);
    } else {
        let x = a.last();
        assert(a.contains(x)) by {
            assert(a[a.len() - 1] == x);
        }
        assert(a.to_multiset().count(x) > 0);
        assert(b.contains(x));
        let j = choose|j: int| 0 <= j < b.len() && b[j] == x;
        assert(a.drop_last() =~= a.remove(a.len() - 1));
        assert(a.remove(a.len() - 1).to_multiset() == a.to_multiset().remove(x));
        assert(b.remove(j).to_multiset() == b.to_multiset().remove(x));
        lemma_power_sum_reorder(a.drop_last(), b.remove(j));
        lemma_power_sum_remove(b, j);
    }
}

/// Addresses strictly increase along the sequence.
pub open spec fn sorted_by_address(s: Seq<Validator>) -> bool {
    forall|i: int, j: int| 0 <= i < j < s.len() ==> lex_lt(#[trigger] s[i].address@, #[trigger] s[j].address@)
}

/// No two validators of the sequence share an address.
pub open spec fn addresses_unique(s: Seq<Validator>) -> bool {
    forall|i: int, j: int| 0 <= i < j < s.len() ==> #[trigger] s[i].address@ != #[trigger] s[j].address@
}

/// Why a validator set could not be built.
#[derive(Clone, Copy, Debug, PartialEq, Eq, Structural)]
pub enum SetError {
    /// No validators were given.
    Empty,
    /// Two validators share an address.
    DuplicateAddress,
    /// The total voting power does not fit in 64 bits.
    PowerOverflow,
}

/// A non-empty set of validators with distinct addresses, kept sorted by
/// address, whose total power fits in 64 bits.
#[derive(Debug)]
pub struct ValidatorSet {
    validators: Vec<Validator>,
}

impl View for ValidatorSet {
    type V = Seq<Validator>;

    closed spec fn view(&self) -> Seq<Validator> {
        self.validators@
    }
}

impl ValidatorSet {
    #[verifier::type_invariant]
    spec fn inv(&self) -> bool {
        &&& self.validators@.len() > 0
        &&& sorted_by_address(self.validators@)
        &&& power_sum(self.validators@) <= u64::MAX
    }

    /// Builds the canonical set from validators given in any order.
    pub fn new(vals: Vec<Validator>) -> (r: Result<ValidatorSet, SetError>)
        ensures
            match r {
                Ok(set) => {
                    &&& set@.to_multiset() == vals@.to_multiset()
                    &&& sorted_by_address(set@)
                    &&& set@.len() > 0
                    &&& addresses_unique(vals@)
                    &&& power_sum(vals@) <= u64::MAX
                },
                Err(SetError::Empty) => vals@.len() == 0,
                Err(SetError::DuplicateAddress) => vals@.len() > 0 && !addresses_unique(vals@),
                Err(SetError::PowerOverflow) => {
                    &&& vals@.len() > 0
                    &&& addresses_unique(vals@)
                    &&& power_sum(vals@) > u64::MAX
                },
            },
    {
        broadcast use vstd::seq_lib::to_multiset_contains, vstd::seq_lib::to_multiset_insert,
            vstd::seq_lib::to_multiset_build;

        if vals.len() == 0 {
            return Err(SetError::Empty);
        }
        let ghost orig = vals@;
        let n = vals.len();
        let mut rest = vals;
        let mut sorted: Vec<Validator> = Vec::new();
        while rest.len() > 0
            invariant
                n == orig.len(),
                orig == vals@,
                rest@.len() <= n,
                rest@ == orig.take(rest@.len() as int),
                sorted@.to_multiset() == orig.skip(rest@.len() as int).to_multiset(),
                sorted_by_address(sorted@),
                forall|i: int, j: int|
                    rest@.len() <= i < j < n ==> #[trigger] orig[i].address@ != #[trigger] orig[j].address@,
            decreases rest@.len(),
        {
            let ghost r = rest@.len() as int;
            let x = rest.pop().unwrap();
            assert(x == orig[r - 1]);
            assert(rest@ =~= orig.take(r - 1));
            assert(orig.skip(r - 1) =~= orig.skip(r).insert(0, x));
            let mut i: usize = 0;
            while i < sorted.len() && compare_bytes(&sorted[i].address, &x.address) < 0
                invariant
                    i <= sorted@.len(),
                    forall|k: int| 0 <= k < i ==> lex_lt(#[trigger] sorted@[k].address@, x.address@),
                decreases sorted@.len() - i,
            {
                i = i + 1;
            }
            if i < sorted.len() && compare_bytes(&sorted[i].address, &x.address) == 0 {
                proof {
                    let y = sorted@[i as int];
                    assert(sorted@.contains(y));
                    assert(sorted@.to_multiset().count(y) > 0);
                    assert(orig.skip(r).to_multiset().count(y) > 0);
                    assert(orig.skip(r).contains(y));
                    let q = choose|q: int| 0 <= q < orig.skip(r).len() && orig.skip(r)[q] == y;
                    assert(orig[r - 1].address@ == orig[r + q].address@);
                }
                return Err(SetError::DuplicateAddress);
            }
            proof {
                assert forall|k: int| 0 <= k < sorted@.len() implies #[trigger] sorted@[k].address@
                    != x.address@ by {
                    if k < i {
                        lemma_lex_irreflexive(x.address@);
                    } else {
                        lemma_lex_irreflexive(x.address@);
                        if k > i {
                            lemma_lex_transitive(x.address@, sorted@[i as int].address@, sorted@[k].address@);
                        }
                    }
                }
                assert forall|q: int| r <= q < n implies orig[r - 1].address@ != #[trigger] orig[q].address@ by {
                    let y = orig[q];
                    assert(orig.skip(r)[q - r] == y);
                    assert(orig.skip(r).contains(y));
                    assert(orig.skip(r).to_multiset().count(y) > 0);
                    assert(sorted@.to_multiset().count(y) > 0);
                    assert(sorted@.contains(y));
                }
            }
            let ghost old_sorted = sorted@;
            sorted.insert(i, x);
            proof {
                assert forall|a: int, b: int| 0 <= a < b < sorted@.len() implies lex_lt(
                    #[trigger] sorted@[a].address@,
                    #[trigger] sorted@[b].address@,
                ) by {
                    if b == i as int {
                    } else if a == i as int {
                        if b > a + 1 {
                            lemma_lex_transitive(x.address@, old_sorted[i as int].address@, old_sorted[b - 1].address@);
                        }
                    } else if a < i && b > i {
                        assert(lex_lt(old_sorted[a].address@, x.address@));
                    } else if a > i {
                        assert(sorted@[a] == old_sorted[a - 1]);
                    }
                }
            }
        }
        assert(orig.skip(0) =~= orig);
        proof {
            vstd::seq_lib::to_multiset_len(sorted@);
            vstd::seq_lib::to_multiset_len(orig);
        }
        let mut total: u64 = 0;
        let mut k: usize = 0;
        proof {
            lemma_power_sum_reorder(sorted@, orig);
        }
        while k < sorted.len()
            invariant
                k <= sorted@.len(),
                total == power_sum(sorted@.take(k as int)),
                power_sum(sorted@) == power_sum(orig),
                sorted@.to_multiset() == orig.to_multiset(),
                sorted@.len() == n,
                n > 0,
                orig == vals@,
                sorted_by_address(sorted@),
                addresses_unique(orig),
            decreases sorted@.len() - k,
        {
            assert(sorted@.take(k + 1).drop_last() =~= sorted@.take(k as int));
            if total > u64::MAX - sorted[k].voting_power {
                proof {
                    lemma_power_sum_prefix(sorted@, k + 1);
                    assert(power_sum(sorted@.take(k + 1)) == total + sorted@[k as int].voting_power);
                    assert(power_sum(orig) > u64::MAX);
                }
                return Err(SetError::PowerOverflow);
            }
            total = total + sorted[k].voting_power;
            k = k + 1;
        }
        assert(sorted@.take(k as int) =~= sorted@);
        Ok(ValidatorSet { validators: sorted })
    }

    /// The set's validators, sorted by address.
    pub fn validators(&self) -> (r: &Vec<Validator>)
        ensures
            r@ == self@,
            r@.len() > 0,
            sorted_by_address(r@),
            addresses_unique(r@),
            power_sum(r@) <= u64::MAX,
    {
        proof {
            use_type_invariant(self);
            assert forall|i: int, j: int| 0 <= i < j < self@.len() implies #[trigger] self@[i].address@
                != #[trigger] self@[j].address@ by {
                assert(lex_lt(self@[i].address@, self@[j].address@));
                lemma_lex_irreflexive(self@[i].address@);
            }
        }
        &self.validators
    }

    /// Number of validators in the set.
    pub fn len(&self) -> (r: usize)
        ensures
            r == self@.len(),
            r > 0,
    {
        proof {
            use_type_invariant(self);
        }
        self.validators.len()
    }

    /// The sum of the members' voting powers.
    pub fn total_voting_power(&self) -> (r: u64)
        ensures
            r == power_sum(self@),
    {
        proof {
            use_type_invariant(self);
        }
        let mut total: u64 = 0;
        let mut k: usize = 0;
        while k < self.validators.len()
            invariant
                k <= self@.len(),
                total == power_sum(self@.take(k as int)),
                power_sum(self@) <= u64::MAX,
            decreases self@.len() - k,
        {
            assert(self@.take(k + 1).drop_last() =~= self@.take(k as int));
            proof {
                lemma_power_sum_prefix(self@, k + 1);
            }
            total = total + self.validators[k].voting_power;
            k = k + 1;
        }
        assert(self@.take(k as int) =~= self@);
        total
    }
}

/// The total voting power of a set is the sum of its members' powers, and
/// does not depend on the order in which the members were given.
pub proof fn lemma_total_power_order_independent(
    a: Seq<Validator>,
    b: Seq<Validator>,
    sa: &ValidatorSet,
    sb: &ValidatorSet,
)
    requires
        a.to_multiset() == b.to_multiset(),
        sa@.to_multiset() == a.to_multiset(),
        sb@.to_multiset() == b.to_multiset(),
    ensures
        power_sum(sa@) == power_sum(a),
        power_sum(sa@) == power_sum(sb@),
{
    lemma_power_sum_reorder(sa@, a);
    lemma_power_sum_reorder(sa@, sb@);
}

} // verus!
