//! The configuration values this layer reads: the language-to-extensions
//! relation, in load order, and the optional session identifier.

use vstd::prelude::*;

verus! {

/// One language's entry: the file extensions (without the dot) that
/// identify it.
pub struct LanguageConfig {
    pub extensions: Vec<String>,
}

/// The configuration this layer consumes. `language` keeps the load order
/// of the configuration: when two languages claim the same extension, the
/// later entry wins.
pub struct Config {
    pub language: Vec<(String, LanguageConfig)>,
    pub session: Option<String>,
}

} // verus!
