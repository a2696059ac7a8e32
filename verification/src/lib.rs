//! Front end of the Fire language compiler: a lexer that turns source text
//! into a token stream, and a project-structuring phase that collects every
//! top-level declaration of a project into one flat namespace keyed by
//! hierarchical resource locations.

pub mod diagnostics;
pub mod files;
pub mod laws;
pub mod lexer;
pub mod location;
pub mod strutil;
pub mod table;
pub mod token;
