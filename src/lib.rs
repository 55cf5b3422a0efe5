//! Parsing and applying `sed`-style substitution commands (`s/FROM/TO[/g]`).
pub mod parser;
pub mod pattern;
pub mod sed_command;

pub use parser::parse_sed_command;
pub use parser::ParseError;
pub use sed_command::PatternError;
pub use sed_command::SedCommand;
