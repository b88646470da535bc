//! The search: derive a key from base, seed and owner by SHA-256, and try
//! seeds until the key's base58 text matches the wanted pattern.

use vstd::prelude::*;
use vstd::string::StringSliceAdditionalSpecFns;
use vstd::utf8::encode_utf8;
use crate::hash::{absorbed, hasher_clone, hasher_finalize, hasher_new, hasher_update, sha256, Hasher};
use crate::key::{base58_text, Key, MAX_TEXT_LEN, MIN_TEXT_LEN};
use crate::pattern::{
    is_reachable, lemma_empty_pattern_matches, lemma_unreachable_never_matches,
    matches_spec, reachable,
};
use crate::seed::{ascii_text, is_seed, thread_rng, Seed};

verus! {

/// The bytes of the key derived from a base key, a seed and an owner key:
/// the SHA-256 digest of the three, one after the other.
pub open spec fn derived_key(base: Seq<u8>, seed: Seq<u8>, owner: Seq<u8>) -> Seq<u8> {
    sha256(base + seed + owner)
}

/// The bytes of a key's base58 text.
pub open spec fn address_text(key: Seq<u8>) -> Seq<u8> {
    encode_utf8(base58_text(key))
}

/// The bytes that a pattern asks for: those of its text, or none where the
/// pattern is absent.
pub open spec fn pattern_bytes(pattern: Option<String>) -> Seq<u8> {
    match pattern {
        Some(text) => encode_utf8(text@),
        None => Seq::<u8>::empty(),
    }
}

/// What to search for.
#[derive(Clone, Debug, PartialEq, Eq)]
pub struct GrindRequest {
    /// The base key, hashed first.
    pub base: Key,
    /// The owner key, hashed last.
    pub owner: Key,
    /// What the address must start with, if anything.
    pub prefix: Option<String>,
    /// What the address must end with, if anything.
    pub suffix: Option<String>,
    /// Compare against the address folded to lower case.
    pub case_insensitive: bool,
}

/// A seed and the address that it gives.
#[derive(Clone, Copy, Debug, PartialEq, Eq)]
pub struct GrindResult {
    /// The winning seed.
    pub seed: Seed,
    /// The key derived from it.
    pub address: Key,
}

impl GrindResult {
    /// The winning seed as text: its 16 letters and digits.
    pub fn seed_text(&self) -> (text: String)
        ensures
            text@ == ascii_text(self.seed@),
    {
        self.seed.to_text()
    }

    /// The address in base58, as it was compared without folding: 32 to 44
    /// characters that read back as the address.
    pub fn address_base58(&self) -> (text: String)
        ensures
            text@ == base58_text(self.address@),
            encode_utf8(text@) == address_text(self.address@),
            MIN_TEXT_LEN <= text@.len() <= MAX_TEXT_LEN,
    {
        self.address.to_base58()
    }
}

/// How a bounded search ended.
#[derive(Clone, Copy, Debug, PartialEq, Eq)]
pub struct GrindOutcome {
    /// The match, if one was found within the budget.
    pub found: Option<GrindResult>,
    /// The number of seeds that were tried and lost. The seed that won is
    /// not counted.
    pub trials: u64,
}

impl GrindOutcome {
    /// The number of seeds that the search drew: those that lost and, where
    /// one won, that one.
    pub open spec fn seeds_drawn(self) -> nat {
        if self.found is Some {
            (self.trials + 1) as nat
        } else {
            self.trials as nat
        }
    }
}

/// Which part of a pattern no address can show.
#[derive(Clone, Copy, Debug, PartialEq, Eq)]
pub enum PatternError {
    /// The prefix holds a byte that cannot occur.
    Prefix,
    /// The prefix is sound and the suffix holds a byte that cannot occur.
    Suffix,
}

/// A hasher that has absorbed a base key and nothing else, kept so that each
/// trial hashes only its seed and the owner key.
pub struct Primed {
    base: Key,
    hasher: Hasher,
}

/// The pattern as a string slice: its text, or the empty string.
fn pattern_str(pattern: &Option<String>) -> (text: &str)
    ensures
        text.spec_bytes() == pattern_bytes(*pattern),
{
    match pattern {
        Some(text) => text.as_str(),
        None => {
            proof {
                reveal_strlit("");
                assert(""@ =~= Seq::<char>::empty());
            }
            ""
        },
    }
}

/// The key derived from `base`, `seed` and `owner`, hashed from scratch.
/// The same three values always give the same key.
pub fn derive_key(base: &Key, seed: &Seed, owner: &Key) -> (key: Key)
    ensures
        key@ == derived_key(base@, seed@, owner@),
{
    Primed::new(base).derive(seed, owner)
}

/// Equal base, seed and owner give equal keys: nothing else enters the
/// derivation.
pub proof fn lemma_derived_key_is_determined(
    base: Seq<u8>,
    seed: Seq<u8>,
    owner: Seq<u8>,
    base_again: Seq<u8>,
    seed_again: Seq<u8>,
    owner_again: Seq<u8>,
)
    requires
        base == base_again,
        seed == seed_again,
        owner == owner_again,
    ensures
        derived_key(base, seed, owner) == derived_key(base_again, seed_again, owner_again),
{
}

impl Primed {
    #[verifier::type_invariant]
    closed spec fn wf(self) -> bool {
        absorbed(self.hasher) == self.base@
    }

    /// The bytes of the base key that the hasher has absorbed.
    pub closed spec fn base(self) -> Seq<u8> {
        self.base@
    }

    /// A hasher primed with `base`.
    pub fn new(base: &Key) -> (primed: Primed)
        ensures
            primed.base() == base@,
    {
        let mut hasher = hasher_new();
        hasher_update(&mut hasher, base.as_bytes());
        assert(Seq::<u8>::empty() + base@ =~= base@);
        Primed { base: *base, hasher }
    }

    /// The key derived from the primed base, `seed` and `owner`. The primed
    /// state is copied, not consumed: it serves every trial.
    pub fn derive(&self, seed: &Seed, owner: &Key) -> (key: Key)
        ensures
            key@ == derived_key(self.base(), seed@, owner@),
    {
        proof {
            use_type_invariant(self);
        }
        let mut hasher = hasher_clone(&self.hasher);
        hasher_update(&mut hasher, seed.as_bytes());
        hasher_update(&mut hasher, owner.as_bytes());
        let digest: [u8; 32] = hasher_finalize(hasher);
        Key::new(digest)
    }
}

impl GrindRequest {
    /// The address with these bytes matches the wanted pattern.
    pub open spec fn accepts(&self, address: Seq<u8>) -> bool {
        matches_spec(
            address_text(address),
            pattern_bytes(self.prefix),
            pattern_bytes(self.suffix),
            self.case_insensitive,
        )
    }

    /// The seed with these bytes gives an address that matches.
    pub open spec fn wins(&self, seed: Seq<u8>) -> bool {
        self.accepts(derived_key(self.base@, seed, self.owner@))
    }

    /// Neither pattern is present, or both are empty.
    pub open spec fn wants_nothing(&self) -> bool {
        pattern_bytes(self.prefix).len() == 0 && pattern_bytes(self.suffix).len() == 0
    }

    /// Every byte of both patterns can occur in an address as it is compared.
    pub open spec fn can_match(&self) -> bool {
        &&& reachable(pattern_bytes(self.prefix), self.case_insensitive)
        &&& reachable(pattern_bytes(self.suffix), self.case_insensitive)
    }

    /// What holds of a bounded search however the seeds fall. Some run of
    /// seeds was drawn, at most `budget` of them, and the outcome is that of
    /// trying them in order: the search stopped at the first seed that won,
    /// and the trials count the seeds that lost before it. Where none won,
    /// the whole budget was drawn. A seed that is returned is 16 letters or
    /// digits, wins, and comes with the address derived from it. Where
    /// nothing is wanted the first seed wins, after no lost trial; where a
    /// pattern holds a byte that cannot occur, none does.
    pub open spec fn ends_with_outcome(&self, budget: u64, outcome: GrindOutcome) -> bool {
        &&& outcome.seeds_drawn() <= budget
        &&& outcome.found is None ==> outcome.trials == budget
        &&& exists|seeds: Seq<Seed>|
            seeds.len() == outcome.seeds_drawn() && #[trigger] self.is_first_win(seeds, outcome)
        &&& !self.can_match() ==> outcome.found is None
        &&& (self.wants_nothing() && budget >= 1) ==> (outcome.found is Some && outcome.trials == 0)
        &&& outcome.found matches Some(result) ==> {
            &&& is_seed(result.seed@)
            &&& self.wins(result.seed@)
            &&& result.address@ == derived_key(self.base@, result.seed@, self.owner@)
        }
    }

    /// Tells whether the patterns can match at all: a pattern with a byte
    /// that no address shows would be searched for without end.
    pub fn validate(&self) -> (checked: Result<(), PatternError>)
        ensures
            checked is Ok <==> self.can_match(),
            (checked is Err && checked->Err_0 == PatternError::Prefix) <==> !reachable(
                pattern_bytes(self.prefix),
                self.case_insensitive,
            ),
    {
        let prefix = pattern_str(&self.prefix);
        let suffix = pattern_str(&self.suffix);
        if !is_reachable(prefix.as_bytes(), self.case_insensitive) {
            Err(PatternError::Prefix)
        } else if !is_reachable(suffix.as_bytes(), self.case_insensitive) {
            Err(PatternError::Suffix)
        } else {
            Ok(())
        }
    }

    /// Whether `address`, written in base58, matches the wanted pattern. No
    /// address matches a pattern with a byte that cannot occur, and every
    /// address matches where nothing is wanted.
    pub fn accepts_address(&self, address: &Key) -> (accepted: bool)
        ensures
            accepted == self.accepts(address@),
            !self.can_match() ==> !accepted,
            self.wants_nothing() ==> accepted,
    {
        let text = address.to_base58();
        let prefix = pattern_str(&self.prefix);
        let suffix = pattern_str(&self.suffix);
        proof {
            if !self.can_match() {
                lemma_unreachable_never_matches(
                    address_text(address@),
                    pattern_bytes(self.prefix),
                    pattern_bytes(self.suffix),
                    self.case_insensitive,
                );
            }
            if self.wants_nothing() {
                lemma_empty_pattern_matches(address_text(address@), self.case_insensitive);
                assert(pattern_bytes(self.prefix) =~= Seq::<u8>::empty());
                assert(pattern_bytes(self.suffix) =~= Seq::<u8>::empty());
            }
        }
        crate::pattern::matches(text.as_str(), prefix, suffix, self.case_insensitive)
    }

    /// One trial on a primed hasher: derives the address of `seed` from the
    /// primed base and this request's owner, and returns the pair exactly
    /// when the address matches.
    pub fn try_seed(&self, primed: &Primed, seed: Seed) -> (won: Option<GrindResult>)
        ensures
            won is Some <==> self.accepts(derived_key(primed.base(), seed@, self.owner@)),
            !self.can_match() ==> won is None,
            self.wants_nothing() ==> won is Some,
            won matches Some(result) ==> result.seed@ == seed@ && result.address@ == derived_key(
                primed.base(),
                seed@,
                self.owner@,
            ),
    {
        let address = primed.derive(&seed, &self.owner);
        if self.accepts_address(&address) {
            Some(GrindResult { seed, address })
        } else {
            None
        }
    }

    /// The outcome of trying the given seeds in order: the first seed that
    /// wins is returned with its address, and the trials count the seeds
    /// that lost before it; where none wins, all were tried and lost.
    pub open spec fn is_first_win(&self, seeds: Seq<Seed>, outcome: GrindOutcome) -> bool {
        match outcome.found {
            Some(result) => {
                &&& 0 <= outcome.trials < seeds.len()
                &&& result.seed@ == seeds[outcome.trials as int]@
                &&& self.wins(result.seed@)
                &&& result.address@ == derived_key(self.base@, result.seed@, self.owner@)
                &&& forall|j: int| 0 <= j < outcome.trials ==> !self.wins(#[trigger] seeds[j]@)
            },
            None => {
                &&& outcome.trials == seeds.len()
                &&& forall|j: int| 0 <= j < seeds.len() ==> !self.wins(#[trigger] seeds[j]@)
            },
        }
    }

    /// Tries the given seeds in order and stops at the first that wins.
    pub fn grind_over(&self, seeds: &[Seed]) -> (outcome: GrindOutcome)
        ensures
            self.is_first_win(seeds@, outcome),
    {
        let primed = Primed::new(&self.base);
        let mut i: usize = 0;
        while i < seeds.len()
            invariant
                i <= seeds.len(),
                primed.base() == self.base@,
                forall|j: int| 0 <= j < i ==> !self.wins(#[trigger] seeds@[j]@),
            decreases seeds.len() - i,
        {
            let won = self.try_seed(&primed, seeds[i]);
            if won.is_some() {
                return GrindOutcome { found: won, trials: i as u64 };
            }
            i += 1;
        }
        GrindOutcome { found: None, trials: i as u64 }
    }

    /// The seeds decide the outcome: two outcomes of trying the same seeds
    /// agree in the trials, in the seed and in the address.
    pub proof fn lemma_first_win_is_unique(
        &self,
        seeds: Seq<Seed>,
        one: GrindOutcome,
        other: GrindOutcome,
    )
        requires
            self.is_first_win(seeds, one),
            self.is_first_win(seeds, other),
        ensures
            one.trials == other.trials,
            one.found is Some <==> other.found is Some,
            one.found is Some ==> one.found->0.seed@ == other.found->0.seed@
                && one.found->0.address@ == other.found->0.address@,
    {
        if one.found is Some && other.found is Some {
            if one.trials < other.trials {
                assert(!self.wins(seeds[one.trials as int]@));
            }
            if other.trials < one.trials {
                assert(!self.wins(seeds[other.trials as int]@));
            }
        } else if one.found is Some {
            assert(!self.wins(seeds[one.trials as int]@));
        } else if other.found is Some {
            assert(!self.wins(seeds[other.trials as int]@));
        }
    }

    /// Draws fresh random seeds and tries each, until one wins or `budget`
    /// seeds have been drawn. A trial is counted only once it has lost. A
    /// seed that is returned wins; when none is returned the whole budget
    /// was spent on seeds that lost. Which seeds are drawn is left to
    /// chance, so a search may fail however large the budget; but where
    /// nothing is wanted the first seed wins, and where a pattern holds a
    /// byte that cannot occur no seed does.
    pub fn grind_within(&self, budget: u64) -> (outcome: GrindOutcome)
        ensures
            self.ends_with_outcome(budget, outcome),
    {
        let primed = Primed::new(&self.base);
        let mut rng = thread_rng();
        let mut trials: u64 = 0;
        let ghost mut drawn: Seq<Seed> = Seq::empty();
        while trials < budget
            invariant
                trials <= budget,
                primed.base() == self.base@,
                self.wants_nothing() ==> trials == 0,
                drawn.len() == trials,
                forall|j: int| 0 <= j < drawn.len() ==> !self.wins(#[trigger] drawn[j]@),
            decreases budget - trials,
        {
            let seed = Seed::sample(&mut rng);
            let won = self.try_seed(&primed, seed);
            proof {
                drawn = drawn.push(seed);
            }
            if won.is_some() {
                let outcome = GrindOutcome { found: won, trials };
                assert(self.is_first_win(drawn, outcome));
                return outcome;
            }
            trials += 1;
        }
        let outcome = GrindOutcome { found: None, trials };
        assert(self.is_first_win(drawn, outcome));
        outcome
    }

    /// The search with the largest budget there is: it ends without a match
    /// only after `u64::MAX` seeds have been drawn and lost.
    pub fn grind(&self) -> (outcome: GrindOutcome)
        ensures
            self.ends_with_outcome(u64::MAX, outcome),
    {
        self.grind_within(u64::MAX)
    }

    /// The bounded search, refused where it could never end well: a request
    /// whose pattern holds a byte that cannot occur is rejected before any
    /// seed is tried.
    pub fn grind_checked(&self, budget: u64) -> (searched: Result<GrindOutcome, PatternError>)
        ensures
            searched is Ok <==> self.can_match(),
            searched matches Err(e) ==> (e == PatternError::Prefix <==> !reachable(
                pattern_bytes(self.prefix),
                self.case_insensitive,
            )),
            searched matches Ok(outcome) ==> self.ends_with_outcome(budget, outcome),
    {
        match self.validate() {
            Ok(()) => Ok(self.grind_within(budget)),
            Err(e) => Err(e),
        }
    }
}

} // verus!
