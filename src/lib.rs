//! Command-line grammar for a task tracker: turns argument tokens into a
//! structured subcommand plus the tokens left over.
pub mod filter;
pub mod modification;
pub mod subcommand;
pub mod tokens;
pub mod usage;
