//! Stateless password derivation: a scope, an identity, an index and a master
//! password always yield the same printable password.
pub mod alphabet;
pub mod canonical;
pub mod kdf;
pub mod index;
pub mod password;

pub use index::{parse_index, validate_index};
pub use password::{generate_password, pswrd, AlgorithmVersion, DerivationError};
