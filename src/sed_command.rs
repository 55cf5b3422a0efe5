//! A parsed substitution command and its application to a text.
use vstd::prelude::*;

use crate::pattern::{
    all_replaced, compile, first_replaced, has_match, is_match, pattern_compiles, replace_every,
    replace_first,
};

verus! {

/// A substitution command, borrowing its pattern and replacement from the
/// text it was parsed from.
#[derive(Debug, Clone, Copy, PartialEq, Eq)]
pub struct SedCommand<'a> {
    /// The regular expression to search for.
    pub from: &'a str,
    /// The replacement, in the regex engine's own template syntax.
    pub to: &'a str,
    /// Replace every match (`true`) or only the first one (`false`).
    pub is_global: bool,
}

/// Why a command could not be applied.
#[derive(Debug, PartialEq, Eq)]
pub enum PatternError {
    /// The pattern does not compile; holds the engine's diagnostic.
    InvalidRegex(String),
}

impl<'a> SedCommand<'a> {
    /// What applying this command to `text` yields, provided the pattern
    /// compiles.
    pub open spec fn substituted(&self, text: Seq<char>) -> Seq<char> {
        if self.is_global {
            all_replaced(self.from@, text, self.to@)
        } else {
            first_replaced(self.from@, text, self.to@)
        }
    }

    /// Whether the pattern matches anywhere in `input`, that is, whether
    /// `execute` would replace anything.
    pub fn matches(&self, input: &str) -> (r: Result<bool, PatternError>)
        ensures
            r is Ok <==> pattern_compiles(self.from@),
            r matches Ok(b) ==> b == has_match(self.from@, input@),
    {
        match compile(self.from) {
            Ok(re) => Ok(is_match(&re, input)),
            Err(e) => Err(PatternError::InvalidRegex(e.to_string())),
        }
    }

    /// Applies the command to `input`: compiles the pattern, then replaces its
    /// first match, or every match for a global command.
    pub fn execute(&self, input: &'a str) -> (r: Result<String, PatternError>)
        ensures
            r is Ok <==> pattern_compiles(self.from@),
            r matches Ok(out) ==> out@ == self.substituted(input@),
            r matches Ok(out) ==> (!has_match(self.from@, input@) ==> out@ == input@),
    {
        match compile(self.from) {
            Ok(re) => {
                if self.is_global {
                    Ok(replace_every(&re, input, self.to))
                } else {
                    Ok(replace_first(&re, input, self.to))
                }
            },
            Err(e) => Err(PatternError::InvalidRegex(e.to_string())),
        }
    }
}

} // verus!
