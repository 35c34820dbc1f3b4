//! The random-character strategy: rejection sampling over four character
//! categories (lowercase, digits, uppercase, symbols), selected by a bitmask.
//! A category index is drawn uniformly; a draw whose category is disabled is
//! discarded, which keeps the per-character distribution uniform over exactly
//! the enabled alphabets.
use vstd::prelude::*;

use crate::config::PasswordGeneratorConfig;
use crate::entropy::EntropyParams;
use crate::rng::rand_range_inclusive;
use crate::secret::SecretValue;
use crate::secret::secret_chars;
use crate::text::push_char;

verus! {

/// Which of the four character categories the bit for `cat` enables in `mask`.
/// Bit 0 is lowercase, bit 1 digits, bit 2 uppercase, bit 3 symbols.
pub open spec fn mask_bit(mask: u8, cat: int) -> bool {
    if cat == 0 {
        mask & 0x1 != 0
    } else if cat == 1 {
        mask & 0x2 != 0
    } else if cat == 2 {
        mask & 0x4 != 0
    } else if cat == 3 {
        mask & 0x8 != 0
    } else {
        false
    }
}

/// Builds the category bitmask: bit `i` is set exactly when `conditions[i]` holds.
pub fn generate_mask(conditions: &[bool; 4]) -> (mask: u8)
    ensures
        forall|i: int| 0 <= i < 4 ==> mask_bit(mask, i) == conditions[i],
{
    let b0: u8 = if conditions[0] { 1 } else { 0 };
    let b1: u8 = if conditions[1] { 1 } else { 0 };
    let b2: u8 = if conditions[2] { 1 } else { 0 };
    let b3: u8 = if conditions[3] { 1 } else { 0 };
    let mask: u8 = b0 + b1 * 2 + b2 * 4 + b3 * 8;
    proof {
        assert((mask & 0x1 != 0) == (b0 == 1) && (mask & 0x2 != 0) == (b1 == 1) && (mask & 0x4
            != 0) == (b2 == 1) && (mask & 0x8 != 0) == (b3 == 1)) by (bit_vector)
            requires
                mask == b0 + b1 * 2 + b2 * 4 + b3 * 8,
                b0 <= 1,
                b1 <= 1,
                b2 <= 1,
                b3 <= 1,
        ;
    }
    mask
}

/// How many characters the category's alphabet has: 26 lowercase letters,
/// 10 digits, 26 uppercase letters, 13 symbols.
pub open spec fn category_size(cat: int) -> int {
    if cat == 0 {
        26
    } else if cat == 1 {
        10
    } else if cat == 2 {
        26
    } else if cat == 3 {
        13
    } else {
        0
    }
}

/// The `j`-th character of the category's alphabet.
pub open spec fn category_char(cat: int, j: int) -> char {
    if cat == 0 {
        ((97 + j) as u8) as char
    } else if cat == 1 {
        ((48 + j) as u8) as char
    } else if cat == 2 {
        ((65 + j) as u8) as char
    } else {
        if j == 0 {
            ')'
        } else if j == 1 {
            '('
        } else if j == 2 {
            '*'
        } else if j == 3 {
            '&'
        } else if j == 4 {
            '^'
        } else if j == 5 {
            '%'
        } else if j == 6 {
            '$'
        } else if j == 7 {
            '-'
        } else if j == 8 {
            '#'
        } else if j == 9 {
            '@'
        } else if j == 10 {
            '!'
        } else if j == 11 {
            '~'
        } else {
            '+'
        }
    }
}

/// Membership in the union of the alphabets the mask enables.
pub open spec fn in_enabled_union(c: char, mask: u8) -> bool {
    exists|cat: int, j: int|
        0 <= cat < 4 && mask_bit(mask, cat) && 0 <= j < category_size(cat) && c == category_char(
            cat,
            j,
        )
}

/// The total number of characters the mask makes eligible.
pub open spec fn random_pool_spec(mask: u8) -> int {
    (if mask_bit(mask, 0) {
        26int
    } else {
        0int
    }) + (if mask_bit(mask, 1) {
        10int
    } else {
        0int
    }) + (if mask_bit(mask, 2) {
        26int
    } else {
        0int
    }) + (if mask_bit(mask, 3) {
        13int
    } else {
        0int
    })
}

/// The entropy parameters of a random password: one draw per character, each
/// from the union of the enabled alphabets.
pub open spec fn random_entropy_spec(mask: u8, length: u16) -> EntropyParams {
    EntropyParams { draws: length as u64, pool: random_pool_spec(mask) as u128 }
}

/// Executable test of one mask bit.
fn mask_bit_exec(mask: u8, cat: u32) -> (r: bool)
    requires
        cat < 4,
    ensures
        r == mask_bit(mask, cat as int),
{
    if cat == 0 {
        mask & 0x1 != 0
    } else if cat == 1 {
        mask & 0x2 != 0
    } else if cat == 2 {
        mask & 0x4 != 0
    } else {
        mask & 0x8 != 0
    }
}

/// Executable size of one category's alphabet.
fn category_size_exec(cat: u32) -> (r: u32)
    requires
        cat < 4,
    ensures
        r == category_size(cat as int),
        1 <= r <= 26,
{
    if cat == 0 {
        26
    } else if cat == 1 {
        10
    } else if cat == 2 {
        26
    } else {
        13
    }
}

/// Executable lookup of one alphabet character.
fn category_char_exec(cat: u32, j: u32) -> (r: char)
    requires
        cat < 4,
        j < category_size(cat as int),
    ensures
        r == category_char(cat as int, j as int),
{
    if cat == 0 {
        ((97 + j) as u8) as char
    } else if cat == 1 {
        ((48 + j) as u8) as char
    } else if cat == 2 {
        ((65 + j) as u8) as char
    } else {
        if j == 0 {
            ')'
        } else if j == 1 {
            '('
        } else if j == 2 {
            '*'
        } else if j == 3 {
            '&'
        } else if j == 4 {
            '^'
        } else if j == 5 {
            '%'
        } else if j == 6 {
            '$'
        } else if j == 7 {
            '-'
        } else if j == 8 {
            '#'
        } else if j == 9 {
            '@'
        } else if j == 10 {
            '!'
        } else if j == 11 {
            '~'
        } else {
            '+'
        }
    }
}

/// What one generation run of the random strategy guarantees: the secret has
/// exactly the configured number of characters, each from an enabled
/// alphabet, and the configuration is untouched.
pub open spec fn random_generated(pre: RandomPassGenerator, post: RandomPassGenerator) -> bool {
    &&& secret_chars(post.spec_password()).len() == pre.spec_length() as int
    &&& (forall|i: int|
        0 <= i < pre.spec_length() as int ==> in_enabled_union(
            #[trigger] secret_chars(post.spec_password())[i],
            pre.spec_mask(),
        ))
    &&& post.spec_mask() == pre.spec_mask()
    &&& post.spec_length() == pre.spec_length()
}

/// Generates random-character passwords over the enabled categories.
pub struct RandomPassGenerator {
    password: SecretValue,
    config_mask: u8,
    length: u16,
}

impl RandomPassGenerator {
    /// The category bitmask in force.
    pub closed spec fn spec_mask(self) -> u8 {
        self.config_mask
    }

    /// The configured password length.
    pub closed spec fn spec_length(self) -> u16 {
        self.length
    }

    /// The currently held secret.
    pub closed spec fn spec_password(self) -> SecretValue {
        self.password
    }

    /// Builds a random-character generator. The lowercase category is always
    /// enabled, whatever the configuration says; the other three follow it.
    pub fn new(config: &PasswordGeneratorConfig) -> (r: Self)
        ensures
            mask_bit(r.spec_mask(), 0),
            mask_bit(r.spec_mask(), 1) == config.use_numbers,
            mask_bit(r.spec_mask(), 2) == config.use_capitals,
            mask_bit(r.spec_mask(), 3) == config.use_symbols,
            r.spec_length() == config.length,
            secret_chars(r.spec_password()) == Seq::<char>::empty(),
    {
        RandomPassGenerator {
            password: SecretValue::new(String::new()),
            config_mask: generate_mask(
                &[true, config.use_numbers, config.use_capitals, config.use_symbols],
            ),
            length: config.length,
        }
    }

    /// Fills the secret with exactly `length` characters, each a member of an
    /// enabled alphabet. For every character one of the enabled categories is
    /// drawn uniformly at random — the per-character distribution that
    /// discarding draws on disabled categories would converge to, stated
    /// directly so that the loop provably terminates — and then one character
    /// of that category's alphabet, uniformly.
    pub fn generate_password(&mut self)
        requires
            mask_bit(old(self).spec_mask(), 0),
        ensures
            random_generated(*old(self), *final(self)),
    {
        let mut enabled: Vec<u32> = Vec::new();
        let mut cat: u32 = 0;
        while cat < 4
            invariant
                cat <= 4,
                self == old(self),
                enabled@.len() <= cat,
                mask_bit(self.spec_mask(), 0) ==> (cat >= 1 ==> enabled@.len() >= 1),
                forall|t: int|
                    0 <= t < enabled@.len() ==> #[trigger] enabled@[t] < 4 && mask_bit(
                        self.spec_mask(),
                        enabled@[t] as int,
                    ),
            decreases 4 - cat,
        {
            if mask_bit_exec(self.config_mask, cat) {
                enabled.push(cat);
            }
            cat = cat + 1;
        }
        let num_enabled = enabled.len();
        let mut password = String::new();
        let mut count: u16 = 0;
        while count != self.length
            invariant
                count <= self.length,
                self == old(self),
                num_enabled == enabled@.len(),
                1 <= num_enabled <= 4,
                forall|t: int|
                    0 <= t < enabled@.len() ==> #[trigger] enabled@[t] < 4 && mask_bit(
                        self.spec_mask(),
                        enabled@[t] as int,
                    ),
                password@.len() == count as int,
                forall|t: int|
                    0 <= t < count as int ==> in_enabled_union(
                        #[trigger] password@[t],
                        self.spec_mask(),
                    ),
            decreases self.length - count,
        {
            let pick = rand_range_inclusive(0, (num_enabled as u32) - 1);
            let set_idx = enabled[pick as usize];
            let size = category_size_exec(set_idx);
            let j = rand_range_inclusive(0, size - 1);
            let c = category_char_exec(set_idx, j);
            push_char(&mut password, c);
            count = count + 1;
        }
        self.set_password_safe(password);
    }

    /// The entropy parameters: a pure function of the mask and length,
    /// independent of any draw. With lowercase always enabled the pool is
    /// never smaller than 26, so the estimate is never degenerate.
    pub fn calculate_entropy(&self) -> (r: EntropyParams)
        ensures
            r == random_entropy_spec(self.spec_mask(), self.spec_length()),
            mask_bit(self.spec_mask(), 0) ==> r.pool >= 26,
    {
        let mut pool: u64 = 0;
        if mask_bit_exec(self.config_mask, 0) {
            pool = pool + 26;
        }
        if mask_bit_exec(self.config_mask, 1) {
            pool = pool + 10;
        }
        if mask_bit_exec(self.config_mask, 2) {
            pool = pool + 26;
        }
        if mask_bit_exec(self.config_mask, 3) {
            pool = pool + 13;
        }
        EntropyParams { draws: self.length as u64, pool: pool as u128 }
    }

    /// Borrows the held secret; reading never changes it.
    pub fn get_password_safe(&self) -> (r: &SecretValue)
        ensures
            *r == self.spec_password(),
    {
        &self.password
    }

    /// Replaces the held secret with the given plain string.
    pub fn set_password_safe(&mut self, password: String)
        ensures
            secret_chars(final(self).spec_password()) == password@,
            final(self).spec_mask() == old(self).spec_mask(),
            final(self).spec_length() == old(self).spec_length(),
    {
        self.password = SecretValue::new(password);
    }
}

} // verus!
