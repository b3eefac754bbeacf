//! The pattern that recognises the attribute of a player's field.
//!
//! The pattern is a regular expression and the `regex` crate matches it.
//! What that crate computes is taken on trust here and given a name, so that
//! the rest of the library can say exactly what it does with the outcome.

use crate::error::ExtractError;
use vstd::prelude::*;

verus! {

/// `regex::Regex`, a compiled regular expression. Nothing inside it is
/// visible here: it is only made, kept and handed to a search.
#[verifier::external_type_specification]
#[verifier::external_body]
pub struct ExRegex(regex::Regex);

/// `regex::Error`, the reason why a pattern was rejected. It is only told
/// apart from success.
#[verifier::external_type_specification]
#[verifier::external_body]
pub struct ExRegexError(regex::Error);

/// What `regex::Regex::new` makes of a pattern's text: the compiled
/// expression, or nothing where the text is rejected.
pub uninterp spec fn regex_compiled(pattern: Seq<char>) -> Option<regex::Regex>;

/// What `regex::Regex::captures` finds in a text: nothing, or the groups of
/// the leftmost match in the order of their opening brackets, the whole match
/// first, each with the part of the text it covers if it took part.
pub uninterp spec fn regex_captures(re: regex::Regex, haystack: Seq<char>) -> Option<
    Seq<Option<Seq<char>>>,
>;

/// The groups of a match as plain texts.
pub open spec fn groups_view(groups: Seq<Option<String>>) -> Seq<Option<Seq<char>>> {
    Seq::new(
        groups.len(),
        |i: int|
            match groups[i] {
                Some(s) => Some(s@),
                None => None,
            },
    )
}

/// The outcome of a search as plain texts.
pub open spec fn captures_view(found: Option<Vec<Option<String>>>) -> Option<
    Seq<Option<Seq<char>>>,
> {
    match found {
        Some(groups) => Some(groups_view(groups@)),
        None => None,
    }
}

/// Calls `regex::Regex::new`. The contract only names the outcome: compiling
/// one text always gives the same expression or the same refusal.
#[verifier::external_body]
fn compile_regex(pattern: &str) -> (r: Result<regex::Regex, regex::Error>)
    ensures
        match r {
            Ok(re) => regex_compiled(pattern@) == Some(re),
            Err(_) => regex_compiled(pattern@) is None,
        },
{
    regex::Regex::new(pattern)
}

/// Calls `regex::Regex::captures` and copies each group's text out of the
/// match. The contract only names the outcome: one expression finds the same
/// groups in one text every time.
#[verifier::external_body]
fn capture_groups(re: &regex::Regex, haystack: &str) -> (found: Option<Vec<Option<String>>>)
    ensures
        captures_view(found) == regex_captures(*re, haystack@),
{
    re.captures(haystack).map(|c| c.iter().map(|g| g.map(|m| m.as_str().to_string())).collect())
}

/// The text of the pattern: the prefix of a player attribute, the team's
/// number, the player's number and the field's name, separated by underscores.
pub open spec fn player_key_pattern_text() -> Seq<char> {
    "MissionBagPlayer_(\\d+)_(\\d+)_(\\w+)"@
}

/// The three parts that a match of the pattern yields: the digits of the
/// team, the digits of the player, and the field's name.
pub open spec fn key_parts_of(found: Option<Seq<Option<Seq<char>>>>) -> Option<
    (Seq<char>, Seq<char>, Seq<char>),
> {
    match found {
        Some(groups) => if groups.len() == 4 && groups[1] is Some && groups[2] is Some
            && groups[3] is Some {
            Some((groups[1]->0, groups[2]->0, groups[3]->0))
        } else {
            None
        },
        None => None,
    }
}

/// The parts of `name` as an attribute of a player's field, or nothing where
/// the pattern does not occur in `name`.
pub open spec fn player_key_captures(name: Seq<char>) -> Option<(Seq<char>, Seq<char>, Seq<char>)> {
    match regex_compiled(player_key_pattern_text()) {
        Some(re) => key_parts_of(regex_captures(re, name)),
        None => None,
    }
}

/// The parts of a player attribute's name, as the pattern captured them.
#[derive(Debug)]
pub struct KeyParts {
    pub team: String,
    pub player: String,
    pub field: String,
}

impl View for KeyParts {
    type V = (Seq<char>, Seq<char>, Seq<char>);

    open spec fn view(&self) -> (Seq<char>, Seq<char>, Seq<char>) {
        (self.team@, self.player@, self.field@)
    }
}

/// The parts of an optional match as plain texts.
pub open spec fn key_parts_view(parts: Option<KeyParts>) -> Option<
    (Seq<char>, Seq<char>, Seq<char>),
> {
    match parts {
        Some(p) => Some(p@),
        None => None,
    }
}

/// Picks the three parts out of the groups of a match. A match with another
/// number of groups, or with a group that took no part, yields nothing.
pub fn key_parts_from_groups(found: Option<Vec<Option<String>>>) -> (parts: Option<KeyParts>)
    ensures
        key_parts_view(parts) == key_parts_of(captures_view(found)),
{
    match found {
        None => None,
        Some(groups) => {
            if groups.len() != 4 {
                return None;
            }
            let ghost gv = groups_view(groups@);
            assert(gv[1] == match groups@[1] {
                Some(s) => Some(s@),
                None => None,
            });
            assert(gv[2] == match groups@[2] {
                Some(s) => Some(s@),
                None => None,
            });
            assert(gv[3] == match groups@[3] {
                Some(s) => Some(s@),
                None => None,
            });
            match (&groups[1], &groups[2], &groups[3]) {
                (Some(team), Some(player), Some(field)) => Some(
                    KeyParts { team: team.clone(), player: player.clone(), field: field.clone() },
                ),
                _ => None,
            }
        },
    }
}

/// The compiled pattern for the attributes of players' fields.
///
/// A value of this type always holds what `regex::Regex::new` makes of
/// `player_key_pattern_text`.
pub struct PlayerKeyPattern {
    regex: regex::Regex,
}

impl PlayerKeyPattern {
    #[verifier::type_invariant]
    spec fn holds_the_pattern(&self) -> bool {
        regex_compiled(player_key_pattern_text()) == Some(self.regex)
    }

    /// Compiles the pattern. Whether that succeeds is for the `regex` crate
    /// to say: the contract names the outcome.
    pub fn new() -> (r: Result<PlayerKeyPattern, ExtractError>)
        ensures
            r is Ok <==> regex_compiled(player_key_pattern_text()) is Some,
            r matches Err(e) ==> e == ExtractError::PatternRejected,
    {
        match compile_regex("MissionBagPlayer_(\\d+)_(\\d+)_(\\w+)") {
            Ok(regex) => Ok(PlayerKeyPattern { regex }),
            Err(_) => Err(ExtractError::PatternRejected),
        }
    }

    /// Searches `name` for the pattern and returns the parts of the leftmost
    /// match.
    pub fn captures(&self, name: &str) -> (parts: Option<KeyParts>)
        ensures
            key_parts_view(parts) == player_key_captures(name@),
    {
        proof {
            use_type_invariant(self);
        }
        key_parts_from_groups(capture_groups(&self.regex, name))
    }
}

} // verus!
