//! A registry of process-start flags.
//!
//! A [`catalog::Catalog`] is the closed list of flags that the program
//! knows, each with a name, a kind and a default. A [`registry::Registry`]
//! holds the current value of every flag of its catalog. It is filled by
//! `load` from raw `name` and `name=value` tokens, it answers lookups, and
//! `dump` lists every flag with the text of its value. Tokens that name no
//! flag or carry a value that does not fit are skipped, one by one: a load
//! never fails. Under the testing override every lookup reports the flag's
//! enabled value instead of the stored one.
//!
//! [`standard::InitFlags`] is the registry of the standard catalog, with
//! one lookup for each of its flags. The module `laws` states what holds of
//! every catalog, token sequence and state.

pub mod catalog;
pub mod decimal;
pub mod laws;
pub mod occurrence;
pub mod registry;
pub mod standard;
pub mod text;
pub mod token;
pub mod value;
