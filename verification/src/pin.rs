//! The numeric PIN strategy: a fixed number of decimal digits, each drawn
//! independently and uniformly.
use vstd::prelude::*;

use crate::config::PasswordGeneratorConfig;
use crate::entropy::EntropyParams;
use crate::rng::rand_range_inclusive;
use crate::secret::SecretValue;
use crate::secret::secret_chars;
use crate::strength::is_digit_char;
use crate::text::push_char;

verus! {

/// The entropy parameters of a PIN of the given length: one draw per digit,
/// ten possibilities each, so `length * log2(10)` bits.
pub open spec fn pin_entropy_spec(length: u16) -> EntropyParams {
    EntropyParams { draws: length as u64, pool: 10 }
}

/// What one generation run of the PIN strategy guarantees: the secret has
/// exactly the configured number of characters, each a decimal digit, and the
/// configuration is untouched.
pub open spec fn pin_generated(pre: PinPassGenerator, post: PinPassGenerator) -> bool {
    &&& secret_chars(post.spec_password()).len() == pre.spec_length() as int
    &&& (forall|i: int|
        0 <= i < pre.spec_length() as int ==> is_digit_char(
            #[trigger] secret_chars(post.spec_password())[i],
        ))
    &&& post.spec_length() == pre.spec_length()
}

/// Generates PINs of a fixed length.
pub struct PinPassGenerator {
    password: SecretValue,
    length: u16,
}

impl PinPassGenerator {
    /// The length of the PINs this generator produces.
    pub closed spec fn spec_length(self) -> u16 {
        self.length
    }

    /// The currently held secret.
    pub closed spec fn spec_password(self) -> SecretValue {
        self.password
    }

    /// Builds a PIN generator; a requested length of zero is clamped to one,
    /// never rejected.
    pub fn new(config: &PasswordGeneratorConfig) -> (r: Self)
        ensures
            r.spec_length() == (if config.length == 0 {
                1u16
            } else {
                config.length
            }),
            secret_chars(r.spec_password()) == Seq::<char>::empty(),
    {
        PinPassGenerator {
            password: SecretValue::new(String::new()),
            length: if config.length == 0 {
                1
            } else {
                config.length
            },
        }
    }

    /// Draws `length` digits independently and uniformly and stores their
    /// decimal concatenation as the new secret.
    pub fn generate_password(&mut self)
        ensures
            pin_generated(*old(self), *final(self)),
    {
        let mut password = String::new();
        let mut i: u16 = 0;
        while i < self.length
            invariant
                i <= self.length,
                self == old(self),
                password@.len() == i as int,
                forall|t: int| 0 <= t < i as int ==> is_digit_char(#[trigger] password@[t]),
            decreases self.length - i,
        {
            let d = rand_range_inclusive(48, 57);
            let c = (d as u8) as char;
            push_char(&mut password, c);
            i = i + 1;
        }
        self.set_password_safe(password);
    }

    /// The entropy parameters: a pure function of the configured length,
    /// independent of any draw.
    pub fn calculate_entropy(&self) -> (r: EntropyParams)
        ensures
            r == pin_entropy_spec(self.spec_length()),
    {
        EntropyParams { draws: self.length as u64, pool: 10 }
    }

    /// Borrows the held secret; reading never changes it.
    pub fn get_password_safe(&self) -> (r: &SecretValue)
        ensures
            *r == self.spec_password(),
    {
        &self.password
    }

    /// Replaces the held secret with the given plain string.
    pub fn set_password_safe(&mut self, password: String)
        ensures
            secret_chars(final(self).spec_password()) == password@,
            final(self).spec_length() == old(self).spec_length(),
    {
        self.password = SecretValue::new(password);
    }
}

} // verus!
