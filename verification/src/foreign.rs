//! Outside types that the library's errors carry.
use vstd::prelude::*;

verus! {

/// `std::io::Error`: carried through unchanged inside the library's errors.
#[verifier::external_type_specification]
#[verifier::external_body]
pub struct ExIoError(std::io::Error);

/// `toml::de::Error`: carried through unchanged inside `ConfigError`.
#[verifier::external_type_specification]
#[verifier::external_body]
pub struct ExTomlDeError(toml::de::Error);

} // verus!
