//! The names under which a dump holds the data of a match.

use crate::decimal::{decimal_text, render_decimal};
use vstd::prelude::*;

verus! {

/// The name of the attribute that holds the number of teams.
pub open spec fn team_count_key_text() -> Seq<char> {
    "MissionBagNumTeams"@
}

/// The name of the attribute that holds the number of players of team `team`.
pub open spec fn team_size_key_text(team: nat) -> Seq<char> {
    "MissionBagTeam_"@ + decimal_text(team) + "_numplayers"@
}

/// The name of the attribute that holds the field `field` of player `player`
/// of team `team`.
pub open spec fn player_field_key_text(team: nat, player: nat, field: Seq<char>) -> Seq<char> {
    "MissionBagPlayer_"@ + decimal_text(team) + "_"@ + decimal_text(player) + "_"@ + field
}

/// The fields that every player has under the fixed schema, in table order.
pub open spec fn fixed_headers() -> Seq<Seq<char>> {
    seq![
        "blood_line_name"@,
        "mmr"@,
        "skillbased"@,
        "downedbyme"@,
        "killedbyme"@,
        "downedbyteammate"@,
        "killedbyteammate"@,
        "downedme"@,
        "killedme"@,
        "downedteammate"@,
        "killedteammate"@,
        "proximitytome"@,
        "proximitytoteammate"@,
        "bountypickedup"@,
        "bountyextracted"@,
        "teamextraction"@,
        "profileid"@,
    ]
}

/// The number of fields of the fixed schema.
pub const FIXED_HEADER_COUNT: usize = 17;

/// The name of the attribute that holds the number of teams.
pub fn team_count_key() -> (key: &'static str)
    ensures
        key@ == team_count_key_text(),
{
    "MissionBagNumTeams"
}

/// The name of the attribute that holds the number of players of team `team`.
pub fn team_size_key(team: u32) -> (key: String)
    ensures
        key@ == team_size_key_text(team as nat),
{
    let mut key = String::from_str("MissionBagTeam_");
    let digits = render_decimal(team as u64);
    key.append(digits.as_str());
    key.append("_numplayers");
    key
}

/// The name of the attribute that holds the field `field` of player `player`
/// of team `team`.
pub fn player_field_key(team: u32, player: u32, field: &str) -> (key: String)
    ensures
        key@ == player_field_key_text(team as nat, player as nat, field@),
{
    let mut key = String::from_str("MissionBagPlayer_");
    let team_digits = render_decimal(team as u64);
    key.append(team_digits.as_str());
    key.append("_");
    let player_digits = render_decimal(player as u64);
    key.append(player_digits.as_str());
    key.append("_");
    key.append(field);
    key
}

/// The `i`-th field of the fixed schema.
pub fn fixed_header(i: usize) -> (name: &'static str)
    requires
        i < FIXED_HEADER_COUNT,
    ensures
        name@ == fixed_headers()[i as int],
{
    if i == 0 {
        "blood_line_name"
    } else if i == 1 {
        "mmr"
    } else if i == 2 {
        "skillbased"
    } else if i == 3 {
        "downedbyme"
    } else if i == 4 {
        "killedbyme"
    } else if i == 5 {
        "downedbyteammate"
    } else if i == 6 {
        "killedbyteammate"
    } else if i == 7 {
        "downedme"
    } else if i == 8 {
        "killedme"
    } else if i == 9 {
        "downedteammate"
    } else if i == 10 {
        "killedteammate"
    } else if i == 11 {
        "proximitytome"
    } else if i == 12 {
        "proximitytoteammate"
    } else if i == 13 {
        "bountypickedup"
    } else if i == 14 {
        "bountyextracted"
    } else if i == 15 {
        "teamextraction"
    } else {
        "profileid"
    }
}

/// The fields of the fixed schema, in table order.
pub fn fixed_header_names() -> (names: Vec<String>)
    ensures
        names@.len() == FIXED_HEADER_COUNT,
        forall|i: int| 0 <= i < names@.len() ==> (#[trigger] names@[i])@ == fixed_headers()[i],
{
    let mut names: Vec<String> = Vec::new();
    let mut i: usize = 0;
    while i < FIXED_HEADER_COUNT
        invariant
            i <= FIXED_HEADER_COUNT,
            names@.len() == i,
            forall|j: int| 0 <= j < i ==> (#[trigger] names@[j])@ == fixed_headers()[j],
        decreases FIXED_HEADER_COUNT - i,
    {
        names.push(String::from_str(fixed_header(i)));
        i = i + 1;
    }
    names
}

} // verus!
