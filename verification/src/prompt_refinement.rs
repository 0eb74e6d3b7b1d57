//! The setting that says how far prompt refinement goes.

use crate::text::str_eq;
use std::str::FromStr;
use vstd::prelude::*;

verus! {

/// How far prompt refinement goes.
#[derive(Debug, Clone, Copy, PartialEq, Eq, Structural)]
pub enum PromptRefinementMode {
    Disabled,
    PersistOnly,
    Enabled,
}

/// `text` without its leading and trailing whitespace.
pub uninterp spec fn trimmed(text: Seq<char>) -> Seq<char>;

/// The lower-case equivalent of `text`, as Unicode defines it.
pub uninterp spec fn lowercased(text: Seq<char>) -> Seq<char>;

/// Removes leading and trailing whitespace. Trusted: `str::trim` of std,
/// which cuts off the characters with the Unicode property White_Space at
/// both ends and depends on the text alone.
#[verifier::external_body]
pub(crate) fn trim(text: &str) -> (out: &str)
    ensures
        out@ == trimmed(text@),
{
    text.trim()
}

/// The lower-case form of `text`. Trusted: `str::to_lowercase` of std,
/// which returns the lower-case equivalent as Unicode defines it and depends
/// on the text alone.
#[verifier::external_body]
pub(crate) fn to_lowercase(text: &str) -> (out: String)
    ensures
        out@ == lowercased(text@),
{
    text.to_lowercase()
}

/// What is returned for a text that names no mode.
pub open spec fn invalid_mode_message() -> Seq<char> {
    "invalid prompt refinement mode"@
}

/// The mode that a normalized text names, if any.
pub open spec fn mode_named(text: Seq<char>) -> Option<PromptRefinementMode> {
    if text == "enabled"@ {
        Some(PromptRefinementMode::Enabled)
    } else if text == "persist-only"@ || text == "persist_only"@ {
        Some(PromptRefinementMode::PersistOnly)
    } else if text == "disabled"@ {
        Some(PromptRefinementMode::Disabled)
    } else {
        None
    }
}

/// Whether `result` is the outcome of reading the normalized text `text`.
pub open spec fn is_reading_of(
    result: Result<PromptRefinementMode, &'static str>,
    text: Seq<char>,
) -> bool {
    match result {
        Ok(mode) => mode_named(text) == Some(mode),
        Err(message) => mode_named(text) is None && message@ == invalid_mode_message(),
    }
}

impl PromptRefinementMode {
    /// The name of the mode as it is written in configuration.
    pub open spec fn name(self) -> Seq<char> {
        match self {
            PromptRefinementMode::Disabled => "disabled"@,
            PromptRefinementMode::PersistOnly => "persist-only"@,
            PromptRefinementMode::Enabled => "enabled"@,
        }
    }

    /// The name of the mode as it is written in configuration.
    pub fn as_str(&self) -> (name: &'static str)
        ensures
            name@ == self.name(),
    {
        match self {
            PromptRefinementMode::Disabled => "disabled",
            PromptRefinementMode::PersistOnly => "persist-only",
            PromptRefinementMode::Enabled => "enabled",
        }
    }

    /// Reads a mode from a text that is already trimmed and in lower case.
    pub fn from_normalized(text: &str) -> (result: Result<PromptRefinementMode, &'static str>)
        ensures
            is_reading_of(result, text@),
    {
        if str_eq(text, "enabled") {
            Ok(PromptRefinementMode::Enabled)
        } else if str_eq(text, "persist-only") || str_eq(text, "persist_only") {
            Ok(PromptRefinementMode::PersistOnly)
        } else if str_eq(text, "disabled") {
            Ok(PromptRefinementMode::Disabled)
        } else {
            Err("invalid prompt refinement mode")
        }
    }

    /// Reads a mode from `s`, ignoring surrounding whitespace and case.
    pub fn parse(s: &str) -> (result: Result<PromptRefinementMode, &'static str>)
        ensures
            is_reading_of(result, lowercased(trimmed(s@))),
    {
        let normalized = to_lowercase(trim(s));
        PromptRefinementMode::from_normalized(normalized.as_str())
    }
}

impl FromStr for PromptRefinementMode {
    type Err = &'static str;

    /// Reads a mode from `s` as [`PromptRefinementMode::parse`] does.
    fn from_str(s: &str) -> (result: Result<Self, Self::Err>)
        ensures
            is_reading_of(result, lowercased(trimmed(s@))),
    {
        PromptRefinementMode::parse(s)
    }
}

/// Every mode is read back from its own name.
pub proof fn lemma_name_names_mode(mode: PromptRefinementMode)
    ensures
        mode_named(mode.name()) == Some(mode),
{
    reveal_strlit("enabled");
    reveal_strlit("persist-only");
    reveal_strlit("persist_only");
    reveal_strlit("disabled");
    match mode {
        PromptRefinementMode::Disabled => {
            assert("disabled"@.len() != "enabled"@.len());
            assert("disabled"@.len() != "persist-only"@.len());
            assert("disabled"@.len() != "persist_only"@.len());
        },
        PromptRefinementMode::PersistOnly => {
            assert("persist-only"@.len() != "enabled"@.len());
        },
        PromptRefinementMode::Enabled => {},
    }
}

} // verus!
