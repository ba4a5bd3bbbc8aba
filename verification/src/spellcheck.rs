//! Spell checking: where the dictionaries are looked for, and how a lookup is read.

use vstd::prelude::*;

use crate::litebox::TargetOs;

verus! {

/// The default `en_US` affix and dictionary files of each platform.
pub open spec fn dictionary_paths(os: TargetOs) -> (Seq<char>, Seq<char>) {
    match os {
        TargetOs::Windows => (
            "C:\\Program Files\\Hunspell\\en_US.aff"@,
            "C:\\Program Files\\Hunspell\\en_US.dic"@,
        ),
        TargetOs::MacOs => ("/Library/Spelling/en_US.aff"@, "/Library/Spelling/en_US.dic"@),
        TargetOs::Linux | TargetOs::Other => (
            "/usr/share/hunspell/en_US.aff"@,
            "/usr/share/hunspell/en_US.dic"@,
        ),
    }
}

/// The default `en_US` affix and dictionary files for `os`.
pub fn default_dictionary_paths(os: TargetOs) -> (paths: (String, String))
    ensures
        (paths.0@, paths.1@) == dictionary_paths(os),
{
    match os {
        TargetOs::Windows => (
            "C:\\Program Files\\Hunspell\\en_US.aff".to_owned(),
            "C:\\Program Files\\Hunspell\\en_US.dic".to_owned(),
        ),
        TargetOs::MacOs => (
            "/Library/Spelling/en_US.aff".to_owned(),
            "/Library/Spelling/en_US.dic".to_owned(),
        ),
        TargetOs::Linux | TargetOs::Other => (
            "/usr/share/hunspell/en_US.aff".to_owned(),
            "/usr/share/hunspell/en_US.dic".to_owned(),
        ),
    }
}

/// What the dictionary says of a word.
#[derive(Clone, Copy, Debug, PartialEq, Eq, Structural)]
pub enum CheckResult {
    FoundInDictionary,
    MissingInDictionary,
}

/// Whether a word passes the spell check, given the dictionary's verdict (`None`:
/// no dictionary is loaded, and every word passes).
pub fn spelling_accepted(verdict: Option<CheckResult>) -> (ok: bool)
    ensures
        ok == (verdict != Some(CheckResult::MissingInDictionary)),
{
    match verdict {
        Some(CheckResult::MissingInDictionary) => false,
        _ => true,
    }
}

} // verus!
