//! A password generation library with three strategies: random characters,
//! numeric PINs, and diceware-style memorable phrases. Each strategy yields a
//! secret value together with the exact parameters of its entropy estimate,
//! and a shared scorer rates the textual shape of any generated secret.

pub mod base;
mod config;
pub mod entropy;
pub mod memorable;
pub mod pin;
pub mod random;
pub mod rng;
pub mod strength;
pub mod secret;
pub mod text;
pub mod word;

pub use config::PasswordGeneratorConfig;
pub use random::generate_mask;
