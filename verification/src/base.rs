//! The engine: one chosen generation strategy, driven to produce a secret,
//! its entropy parameters and its strength score. The three strategies form a
//! closed set of variants sharing one capability surface — generate, entropy,
//! strength, and access to the held secret.
use vstd::prelude::*;

use crate::config::PasswordGeneratorConfig;
use crate::entropy::EntropyParams;
use crate::memorable::GenerationError;
use crate::memorable::MemorablePassGenerator;
use crate::memorable::memorable_config_kept;
use crate::memorable::memorable_entropy_spec;
use crate::memorable::memorable_generated;
use crate::pin::PinPassGenerator;
use crate::pin::pin_entropy_spec;
use crate::pin::pin_generated;
use crate::random::RandomPassGenerator;
use crate::random::mask_bit;
use crate::random::random_entropy_spec;
use crate::random::random_generated;
use crate::secret::SecretValue;
use crate::secret::secret_chars;
use crate::strength::strength_score_spec;
use crate::word::WordList;

verus! {

broadcast use vstd::string::group_string_axioms;

/// The closed set of generation strategies.
pub enum PassGeneratorStrategy {
    Random(RandomPassGenerator),
    Pin(PinPassGenerator),
    Memorable(MemorablePassGenerator),
}

/// The two strategies agree on everything that determines their behaviour but
/// the held secret.
pub open spec fn same_config(s1: PassGeneratorStrategy, s2: PassGeneratorStrategy) -> bool {
    match (s1, s2) {
        (PassGeneratorStrategy::Random(a), PassGeneratorStrategy::Random(b)) => a.spec_mask()
            == b.spec_mask() && a.spec_length() == b.spec_length(),
        (PassGeneratorStrategy::Pin(a), PassGeneratorStrategy::Pin(b)) => a.spec_length()
            == b.spec_length(),
        (PassGeneratorStrategy::Memorable(a), PassGeneratorStrategy::Memorable(b)) => memorable_config_kept(
            a,
            b,
        ),
        _ => false,
    }
}

/// What one generation run guarantees, by variant.
pub open spec fn strategy_generated(
    pre: PassGeneratorStrategy,
    post: PassGeneratorStrategy,
    result: Result<(), GenerationError>,
) -> bool {
    match (pre, post) {
        (PassGeneratorStrategy::Random(a), PassGeneratorStrategy::Random(b)) => random_generated(
            a,
            b,
        ) && result is Ok,
        (PassGeneratorStrategy::Pin(a), PassGeneratorStrategy::Pin(b)) => pin_generated(a, b)
            && result is Ok,
        (PassGeneratorStrategy::Memorable(a), PassGeneratorStrategy::Memorable(b)) => memorable_generated(
            a,
            b,
            result,
        ),
        _ => false,
    }
}

impl PassGeneratorStrategy {
    /// The one structural requirement: a random-strategy mask always has the
    /// lowercase category enabled.
    pub open spec fn wf(self) -> bool {
        self matches PassGeneratorStrategy::Random(g) ==> mask_bit(g.spec_mask(), 0)
    }

    /// The secret the strategy currently holds.
    pub open spec fn spec_password(self) -> SecretValue {
        match self {
            PassGeneratorStrategy::Random(g) => g.spec_password(),
            PassGeneratorStrategy::Pin(g) => g.spec_password(),
            PassGeneratorStrategy::Memorable(g) => g.spec_password(),
        }
    }

    /// The entropy parameters of the strategy as configured: a pure function
    /// of the configuration, never of a random draw.
    pub open spec fn spec_entropy(self) -> EntropyParams {
        match self {
            PassGeneratorStrategy::Random(g) => random_entropy_spec(g.spec_mask(), g.spec_length()),
            PassGeneratorStrategy::Pin(g) => pin_entropy_spec(g.spec_length()),
            PassGeneratorStrategy::Memorable(g) => memorable_entropy_spec(
                g.spec_whole_flag(),
                g.spec_first_flag(),
                g.spec_words().len() as int,
                g.spec_words_count(),
            ),
        }
    }

    /// Produces a fresh secret under this strategy's policy.
    pub fn generate_password(&mut self) -> (result: Result<(), GenerationError>)
        requires
            old(self).wf(),
        ensures
            final(self).wf(),
            strategy_generated(*old(self), *final(self), result),
            same_config(*old(self), *final(self)),
    {
        match self {
            PassGeneratorStrategy::Random(g) => {
                g.generate_password();
                Ok(())
            },
            PassGeneratorStrategy::Pin(g) => {
                g.generate_password();
                Ok(())
            },
            PassGeneratorStrategy::Memorable(g) => g.generate_password(),
        }
    }

    /// The strategy's own entropy estimate, as exact parameters.
    pub fn calculate_entropy(&self) -> (r: EntropyParams)
        ensures
            r == self.spec_entropy(),
    {
        match self {
            PassGeneratorStrategy::Random(g) => g.calculate_entropy(),
            PassGeneratorStrategy::Pin(g) => g.calculate_entropy(),
            PassGeneratorStrategy::Memorable(g) => g.calculate_entropy(),
        }
    }

    /// Borrows the held secret; reading never changes it.
    pub fn get_password_safe(&self) -> (r: &SecretValue)
        ensures
            *r == self.spec_password(),
    {
        match self {
            PassGeneratorStrategy::Random(g) => g.get_password_safe(),
            PassGeneratorStrategy::Pin(g) => g.get_password_safe(),
            PassGeneratorStrategy::Memorable(g) => g.get_password_safe(),
        }
    }

    /// Scores the textual shape of the held secret, out of 30: the shared,
    /// strategy-independent rule set, deliberately separate from the
    /// semantic entropy estimate.
    pub fn calculate_strength(&self) -> (score: u32)
        ensures
            score == strength_score_spec(secret_chars(self.spec_password())),
            score <= 30,
    {
        let secret = self.get_password_safe();
        let exposed = secret.expose_secret();
        crate::strength::calculate_strength(exposed.as_str())
    }
}

/// Entropy is a deterministic pure function of the configuration: two
/// strategy states with the same configuration — in particular, one state
/// before and after a generation run — have identical entropy parameters,
/// whatever their secrets hold.
pub proof fn lemma_entropy_deterministic(s1: PassGeneratorStrategy, s2: PassGeneratorStrategy)
    requires
        same_config(s1, s2),
    ensures
        s1.spec_entropy() == s2.spec_entropy(),
{
}

/// Orchestrates one chosen strategy.
pub struct PassGenerator {
    generation_strategy: PassGeneratorStrategy,
}

impl PassGenerator {
    /// The strategy in force.
    pub closed spec fn spec_strategy(self) -> PassGeneratorStrategy {
        self.generation_strategy
    }

    /// Wraps the chosen strategy.
    pub fn new(generation_strategy: PassGeneratorStrategy) -> (r: Self)
        ensures
            r.spec_strategy() == generation_strategy,
    {
        PassGenerator { generation_strategy }
    }

    /// Runs one generation: the strategy produces its secret whole, or the
    /// run fails with no partial secret replacing the held one. Entropy and
    /// strength are read through the accessors afterwards.
    pub fn generate(&mut self) -> (result: Result<(), GenerationError>)
        requires
            old(self).spec_strategy().wf(),
        ensures
            final(self).spec_strategy().wf(),
            strategy_generated(old(self).spec_strategy(), final(self).spec_strategy(), result),
            same_config(old(self).spec_strategy(), final(self).spec_strategy()),
    {
        self.generation_strategy.generate_password()
    }

    /// The exact entropy parameters of the configured strategy.
    pub fn calculate_entropy(&self) -> (r: EntropyParams)
        ensures
            r == self.spec_strategy().spec_entropy(),
    {
        self.generation_strategy.calculate_entropy()
    }

    /// The strength score of the held secret, out of 30.
    pub fn calculate_strength(&self) -> (score: u32)
        ensures
            score == strength_score_spec(secret_chars(self.spec_strategy().spec_password())),
            score <= 30,
    {
        self.generation_strategy.calculate_strength()
    }

    /// Borrows the held secret; reading never changes it.
    pub fn get_password_safe(&self) -> (r: &SecretValue)
        ensures
            *r == self.spec_strategy().spec_password(),
    {
        self.generation_strategy.get_password_safe()
    }
}

/// Chooses the strategy the configuration names: `random`, `pin` or
/// `memorable`, with anything else falling back to `random`. The word list is
/// consumed by the memorable strategy and dropped otherwise.
pub fn extract_pass_generate_type(
    confs: &PasswordGeneratorConfig,
    words: WordList,
) -> (r: PassGeneratorStrategy)
    ensures
        r.wf(),
        secret_chars(r.spec_password()) == Seq::<char>::empty(),
        confs.gen_type@ == "pin"@ ==> (r matches PassGeneratorStrategy::Pin(g) && g.spec_length()
            == (if confs.length == 0 {
            1u16
        } else {
            confs.length
        })),
        confs.gen_type@ == "memorable"@ ==> (r matches PassGeneratorStrategy::Memorable(g) && {
            &&& g.spec_words() == words.words_map@
            &&& g.spec_words_count() == confs.words_count
            &&& g.spec_whole_flag() == confs.capitalize_memorable_words
            &&& g.spec_first_flag() == confs.capitalize_memorable_first_letter
        }),
        confs.gen_type@ != "pin"@ && confs.gen_type@ != "memorable"@ ==> (r
            matches PassGeneratorStrategy::Random(g) && {
            &&& mask_bit(g.spec_mask(), 0)
            &&& mask_bit(g.spec_mask(), 1) == confs.use_numbers
            &&& mask_bit(g.spec_mask(), 2) == confs.use_capitals
            &&& mask_bit(g.spec_mask(), 3) == confs.use_symbols
            &&& g.spec_length() == confs.length
        }),
{
    proof {
        reveal_strlit("random");
        reveal_strlit("pin");
        reveal_strlit("memorable");
        assert(("pin"@).len() == 3);
        assert(("memorable"@).len() == 9);
        assert("pin"@ != "memorable"@);
    }
    if confs.gen_type == "pin".to_owned() {
        PassGeneratorStrategy::Pin(PinPassGenerator::new(confs))
    } else if confs.gen_type == "memorable".to_owned() {
        PassGeneratorStrategy::Memorable(MemorablePassGenerator::new(confs, words))
    } else {
        PassGeneratorStrategy::Random(RandomPassGenerator::new(confs))
    }
}

} // verus!
