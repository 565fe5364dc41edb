//! Expansion of environment-variable placeholders in text.
//!
//! The library scans an input string left to right, recognises placeholder
//! tokens in one of two grammars — Unix style (`$VAR`, `${VAR}`) or Windows
//! style (`%VAR%`) — and replaces each token by the value that an injected
//! lookup table holds for the referenced name, or by the empty string when
//! the table holds none. Characters outside recognised tokens are copied
//! verbatim; substituted text is never re-scanned.

pub mod error;
pub mod expand;
pub mod grammar;
pub mod laws;
pub mod lookup;
