//! The secret-handling discipline. A generated password is held in a
//! [`SecretValue`], an opaque wrapper around `secrecy::SecretString`: its
//! plain contents are reachable only through the explicit [`SecretValue::expose_secret`]
//! call, and `secrecy`'s `Drop` impl overwrites (zeroizes) the backing memory
//! when the wrapper is dropped.
use vstd::prelude::*;

use secrecy::ExposeSecret;
use secrecy::SecretString;

verus! {

/// An opaque wrapper around sensitive string data. The wrapped
/// `secrecy::SecretString` derives no printing, serialization or equality, so
/// every read of the plain contents is an explicit, greppable call.
#[verifier::external_body]
pub struct SecretValue {
    inner: SecretString,
}

/// The characters a secret value wraps.
pub uninterp spec fn secret_chars(s: SecretValue) -> Seq<char>;

impl SecretValue {
    /// Relies on `secrecy::Secret::new`: it stores exactly the given string,
    /// and the wrapper's `Drop` zeroizes that storage when the secret is
    /// dropped, on every exit path.
    #[verifier::external_body]
    pub fn new(s: String) -> (r: SecretValue)
        ensures
            secret_chars(r) == s@,
    {
        SecretValue { inner: SecretString::new(s) }
    }

    /// Relies on `secrecy::ExposeSecret::expose_secret`: it returns a shared
    /// reference to the wrapped string, without changing it.
    #[verifier::external_body]
    pub fn expose_secret(&self) -> (r: &String)
        ensures
            r@ == secret_chars(*self),
    {
        self.inner.expose_secret()
    }
}

/// Exposing a secret is read-only and deterministic: any two exposures of the
/// same secret value return identical strings, and each is exactly the string
/// the secret was created from.
pub proof fn lemma_expose_round_trip(
    original: Seq<char>,
    s: SecretValue,
    r1: Seq<char>,
    r2: Seq<char>,
)
    requires
        secret_chars(s) == original,
        r1 == secret_chars(s),
        r2 == secret_chars(s),
    ensures
        r1 == original,
        r2 == original,
        r1 == r2,
{
}

} // verus!
