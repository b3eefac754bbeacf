//! Discovery of players by scanning the names of the attributes.
//!
//! The attributes of players' fields are recognised by their names, kept if
//! their team lies below the declared number of teams, and grouped into rows
//! by the slot that team and player make up.

use crate::attributes::{entries_view, AttributeEntry};
use crate::decimal::{parse_u32, parse_u32_spec};
use crate::error::ExtractError;
use crate::pattern::{key_parts_view, player_key_captures, KeyParts, PlayerKeyPattern};
use crate::records::{
    fields_view, lemma_fields_view_push, lemma_pairs_view_push, lemma_records_view_push,
    lemma_texts_view_push, pairs_view, records_view, texts_view, FieldModel, PlayerField,
    PlayerRecord, RecordModel,
};
use vstd::prelude::*;

verus! {

/// What the name of an attribute says about it, as plain values.
pub enum KeyClass {
    /// No field of a player of this match: the pattern does not occur in the
    /// name, or the team lies at or beyond the number of teams.
    Other,
    /// The name has the shape of a player's field, but the team, or the
    /// player of a team of this match, is no number of 32 bits.
    Malformed,
    /// A field of a player of this match.
    Field { team: nat, player: nat, field: Seq<char> },
}

/// What the name of an attribute says about it.
#[derive(Debug)]
pub enum KeyVerdict {
    Other,
    Malformed,
    Field { team: u32, player: u32, field: String },
}

impl View for KeyVerdict {
    type V = KeyClass;

    open spec fn view(&self) -> KeyClass {
        match self {
            KeyVerdict::Other => KeyClass::Other,
            KeyVerdict::Malformed => KeyClass::Malformed,
            KeyVerdict::Field { team, player, field } => KeyClass::Field {
                team: *team as nat,
                player: *player as nat,
                field: field@,
            },
        }
    }
}

/// The class of an attribute whose name the pattern took apart into `parts`,
/// in a match of `num_teams` teams.
pub open spec fn classify_key(
    parts: Option<(Seq<char>, Seq<char>, Seq<char>)>,
    num_teams: nat,
) -> KeyClass {
    match parts {
        None => KeyClass::Other,
        Some((team_text, player_text, field)) => match parse_u32_spec(team_text) {
            None => KeyClass::Malformed,
            Some(team) => if team >= num_teams {
                KeyClass::Other
            } else {
                match parse_u32_spec(player_text) {
                    None => KeyClass::Malformed,
                    Some(player) => KeyClass::Field {
                        team: team as nat,
                        player: player as nat,
                        field,
                    },
                }
            },
        },
    }
}

/// Classifies an attribute by the parts that the pattern found in its name.
pub fn classify_key_parts(parts: Option<KeyParts>, num_teams: u32) -> (verdict: KeyVerdict)
    ensures
        verdict@ == classify_key(key_parts_view(parts), num_teams as nat),
{
    match parts {
        None => KeyVerdict::Other,
        Some(p) => match parse_u32(p.team.as_str()) {
            None => KeyVerdict::Malformed,
            Some(team) => {
                if team >= num_teams {
                    KeyVerdict::Other
                } else {
                    match parse_u32(p.player.as_str()) {
                        None => KeyVerdict::Malformed,
                        Some(player) => KeyVerdict::Field { team, player, field: p.field },
                    }
                }
            },
        },
    }
}

/// The fields of players that a dump holds for a match of `num_teams` teams,
/// in the order of the dump, or the name of the first malformed attribute.
pub open spec fn retained_fields(entries: Seq<(Seq<char>, Seq<char>)>, num_teams: nat) -> Result<
    Seq<FieldModel>,
    Seq<char>,
>
    decreases entries.len(),
{
    if entries.len() == 0 {
        Ok(Seq::empty())
    } else {
        match retained_fields(entries.drop_last(), num_teams) {
            Err(key) => Err(key),
            Ok(fields) => match classify_key(player_key_captures(entries.last().0), num_teams) {
                KeyClass::Other => Ok(fields),
                KeyClass::Malformed => Err(entries.last().0),
                KeyClass::Field { team, player, field } => Ok(
                    fields.push(FieldModel { team, player, field, value: entries.last().1 }),
                ),
            },
        }
    }
}

/// The outcome of a scan as plain values.
pub open spec fn scan_view(r: Result<Vec<PlayerField>, ExtractError>) -> Result<
    Seq<FieldModel>,
    Seq<char>,
> {
    match r {
        Ok(fields) => Ok(fields_view(fields@)),
        Err(ExtractError::MalformedInput { key }) => Err(key@),
        Err(_) => Err(Seq::empty()),
    }
}

/// Scans a dump for the fields of the players of a match of `num_teams`
/// teams. Fails with `MalformedInput` on the first attribute whose name has
/// the shape of a player's field without holding the numbers of one.
pub fn scan_player_fields(
    pattern: &PlayerKeyPattern,
    entries: &Vec<AttributeEntry>,
    num_teams: u32,
) -> (r: Result<Vec<PlayerField>, ExtractError>)
    ensures
        scan_view(r) == retained_fields(entries_view(entries@), num_teams as nat),
        r matches Err(e) ==> e is MalformedInput,
{
    let mut fields: Vec<PlayerField> = Vec::new();
    let ghost all = entries_view(entries@);
    let mut i: usize = 0;
    assert(all.subrange(0, 0) =~= Seq::empty());
    assert(fields_view(fields@) =~= Seq::empty());
    while i < entries.len()
        invariant
            i <= entries.len(),
            all == entries_view(entries@),
            retained_fields(all.subrange(0, i as int), num_teams as nat) == Ok::<
                Seq<FieldModel>,
                Seq<char>,
            >(fields_view(fields@)),
        decreases entries.len() - i,
    {
        let entry = &entries[i];
        let ghost upto = all.subrange(0, i + 1);
        proof {
            assert(upto.drop_last() =~= all.subrange(0, i as int));
            assert(upto.last() == entry@);
        }
        let verdict = classify_key_parts(pattern.captures(entry.name.as_str()), num_teams);
        match verdict {
            KeyVerdict::Other => {},
            KeyVerdict::Malformed => {
                proof {
                    lemma_retained_fields_error_stays(all, i + 1, num_teams as nat);
                }
                return Err(ExtractError::MalformedInput { key: entry.name.clone() });
            },
            KeyVerdict::Field { team, player, field } => {
                let item = PlayerField { team, player, field, value: entry.value.clone() };
                proof {
                    lemma_fields_view_push(fields@, item);
                }
                fields.push(item);
            },
        }
        i = i + 1;
    }
    assert(all.subrange(0, i as int) =~= all);
    Ok(fields)
}

/// Once a prefix of the dump has failed, the whole dump fails in the same way.
pub proof fn lemma_retained_fields_error_stays(
    entries: Seq<(Seq<char>, Seq<char>)>,
    k: int,
    num_teams: nat,
)
    requires
        0 <= k <= entries.len(),
        retained_fields(entries.subrange(0, k), num_teams) is Err,
    ensures
        retained_fields(entries, num_teams) == retained_fields(entries.subrange(0, k), num_teams),
    decreases entries.len() - k,
{
    if k == entries.len() {
        assert(entries.subrange(0, k) =~= entries);
    } else {
        let next = entries.subrange(0, k + 1);
        assert(next.drop_last() =~= entries.subrange(0, k));
        lemma_retained_fields_error_stays(entries, k + 1, num_teams);
    }
}

/// The slot of a field: three times the team plus the player. Teams are
/// taken to have at most three players, so that each slot is one player.
pub open spec fn slot_of(team: nat, player: nat) -> nat {
    3 * team + player
}

/// The headers of a scanned table: the names of the leading fields that
/// belong to the first player of the first team, as they come.
pub open spec fn scanned_headers(fields: Seq<FieldModel>) -> Seq<Seq<char>>
    decreases fields.len(),
{
    if fields.len() == 0 || slot_of(fields[0].team, fields[0].player) != 0 {
        Seq::empty()
    } else {
        seq![fields[0].field] + scanned_headers(fields.drop_first())
    }
}

/// Collects the headers of a scanned table.
pub fn scanned_header_names(fields: &Vec<PlayerField>) -> (names: Vec<String>)
    ensures
        texts_view(names@) == scanned_headers(fields_view(fields@)),
{
    let mut names: Vec<String> = Vec::new();
    let ghost all = fields_view(fields@);
    let mut i: usize = 0;
    assert(all.subrange(0, all.len() as int) =~= all);
    assert(texts_view(names@) =~= Seq::empty());
    while i < fields.len() && fields[i].team == 0 && fields[i].player == 0
        invariant
            i <= fields.len(),
            all == fields_view(fields@),
            scanned_headers(all) == texts_view(names@) + scanned_headers(
                all.subrange(i as int, all.len() as int),
            ),
        decreases fields.len() - i,
    {
        let ghost rest = all.subrange(i as int, all.len() as int);
        let name = fields[i].field.clone();
        proof {
            assert(rest[0] == fields@[i as int]@);
            assert(rest.drop_first() =~= all.subrange(i + 1, all.len() as int));
            lemma_texts_view_push(names@, name);
            assert(texts_view(names@) + (seq![rest[0].field] + scanned_headers(rest.drop_first()))
                =~= texts_view(names@).push(name@) + scanned_headers(rest.drop_first()));
        }
        names.push(name);
        i = i + 1;
    }
    proof {
        let rest = all.subrange(i as int, all.len() as int);
        if i < fields.len() {
            assert(rest[0] == fields@[i as int]@);
        }
        assert(scanned_headers(rest) =~= Seq::empty());
        assert(texts_view(names@) + Seq::<Seq<char>>::empty() =~= texts_view(names@));
    }
    names
}

/// Where a scan stands after some fields: the rows so far, the slot of the
/// field that was last looked at, whether the last row still takes fields,
/// and the team from which on everything is passed over.
pub struct ScanState {
    pub rows: Seq<RecordModel>,
    pub previous: Option<nat>,
    pub open: bool,
    pub skip_from: Option<nat>,
}

/// The state before the first field.
pub open spec fn scan_start() -> ScanState {
    ScanState { rows: Seq::empty(), previous: None, open: false, skip_from: None }
}

/// Whether a field is passed over because of an earlier empty slot.
pub open spec fn passed_over(state: ScanState, field: FieldModel) -> bool {
    state.skip_from matches Some(from) && field.team >= from
}

/// The state after one more field.
///
/// A field of a team at or beyond `skip_from` changes nothing. A field of
/// another slot than the previous one opens a row, unless its value is empty:
/// then its team and all teams after it are passed over from here on. A
/// field of the same slot goes to the row of that slot, if it has one.
pub open spec fn scan_step(state: ScanState, field: FieldModel) -> ScanState {
    let slot = slot_of(field.team, field.player);
    if passed_over(state, field) {
        state
    } else if state.previous != Some(slot) {
        if field.value.len() == 0 {
            ScanState {
                rows: state.rows,
                previous: Some(slot),
                open: false,
                skip_from: Some(field.team),
            }
        } else {
            ScanState {
                rows: state.rows.push(
                    RecordModel {
                        team: field.team,
                        player: field.player,
                        fields: seq![(field.field, field.value)],
                    },
                ),
                previous: Some(slot),
                open: true,
                skip_from: state.skip_from,
            }
        }
    } else if state.open && state.rows.len() > 0 {
        let last = state.rows.last();
        ScanState {
            rows: state.rows.drop_last().push(
                RecordModel {
                    team: last.team,
                    player: last.player,
                    fields: last.fields.push((field.field, field.value)),
                },
            ),
            previous: state.previous,
            open: state.open,
            skip_from: state.skip_from,
        }
    } else {
        state
    }
}

/// The state after all of `fields`, in order.
pub open spec fn scan_fold(fields: Seq<FieldModel>) -> ScanState
    decreases fields.len(),
{
    if fields.len() == 0 {
        scan_start()
    } else {
        scan_step(scan_fold(fields.drop_last()), fields.last())
    }
}

/// The rows of a scanned table.
pub open spec fn scanned_rows(fields: Seq<FieldModel>) -> Seq<RecordModel> {
    scan_fold(fields).rows
}

/// Whether every row belongs to a team below `team`.
pub open spec fn rows_below(rows: Seq<RecordModel>, team: nat) -> bool {
    forall|r: int| 0 <= r < rows.len() ==> (#[trigger] rows[r]).team < team
}

/// Whether a scan has closed `team` and every team after it: it passes them
/// over from here on, and no row so far belongs to one of them.
pub open spec fn hidden_from(state: ScanState, team: nat) -> bool {
    &&& state.skip_from matches Some(from) && from <= team
    &&& rows_below(state.rows, team)
}

/// A team that is closed stays closed after one more field.
proof fn lemma_step_keeps_hidden(state: ScanState, field: FieldModel, team: nat)
    requires
        hidden_from(state, team),
    ensures
        hidden_from(scan_step(state, field), team),
{
    let next = scan_step(state, field);
    assert forall|r: int| 0 <= r < next.rows.len() implies (#[trigger] next.rows[r]).team
        < team by {
        if r < state.rows.len() - 1 {
            assert(state.rows[r].team < team);
        } else if state.rows.len() > 0 {
            assert(state.rows[state.rows.len() - 1].team < team);
        }
    }
}

/// A team that is closed after `k` fields is closed after any more of them.
proof fn lemma_fold_keeps_hidden(fields: Seq<FieldModel>, k: int, n: int, team: nat)
    requires
        0 <= k <= n <= fields.len(),
        hidden_from(scan_fold(fields.subrange(0, k)), team),
    ensures
        hidden_from(scan_fold(fields.subrange(0, n)), team),
    decreases n - k,
{
    if k < n {
        lemma_fold_keeps_hidden(fields, k, n - 1, team);
        let upto = fields.subrange(0, n);
        assert(upto.drop_last() =~= fields.subrange(0, n - 1));
        lemma_step_keeps_hidden(scan_fold(fields.subrange(0, n - 1)), upto.last(), team);
    }
}

/// Fields of teams below `team` give rows of teams below `team`, and close
/// no team but one below it.
proof fn lemma_low_teams_low_rows(fields: Seq<FieldModel>, team: nat)
    requires
        forall|j: int| 0 <= j < fields.len() ==> (#[trigger] fields[j]).team < team,
    ensures
        rows_below(scan_fold(fields).rows, team),
        scan_fold(fields).skip_from matches Some(from) ==> from < team,
    decreases fields.len(),
{
    if fields.len() > 0 {
        let front = fields.drop_last();
        assert forall|j: int| 0 <= j < front.len() implies (#[trigger] front[j]).team < team by {
            assert(fields[j].team < team);
        }
        lemma_low_teams_low_rows(front, team);
        let state = scan_fold(front);
        let next = scan_step(state, fields.last());
        assert(fields[fields.len() - 1].team < team);
        assert forall|r: int| 0 <= r < next.rows.len() implies (#[trigger] next.rows[r]).team
            < team by {
            if r < state.rows.len() - 1 {
                assert(state.rows[r].team < team);
            } else if state.rows.len() > 0 {
                assert(state.rows[state.rows.len() - 1].team < team);
            }
        }
    }
}

/// While no team is closed, the previous slot is that of the last field.
proof fn lemma_previous_without_skip(fields: Seq<FieldModel>)
    requires
        scan_fold(fields).skip_from is None,
    ensures
        scan_fold(fields).previous == if fields.len() == 0 {
            None
        } else {
            Some(slot_of(fields.last().team, fields.last().player))
        },
    decreases fields.len(),
{
    if fields.len() > 0 {
        lemma_previous_without_skip(fields.drop_last());
    }
}

/// A team whose first field is empty has no row, and neither has any team
/// after it.
///
/// The field `fields[k]` is the first of its team or of any later team, it
/// opens a slot, and its value is empty. Then every row of the table
/// belongs to an earlier team, whatever the fields after it hold.
pub proof fn lemma_empty_first_field_hides_team(fields: Seq<FieldModel>, k: int)
    requires
        0 <= k < fields.len(),
        fields[k].value.len() == 0,
        forall|j: int| 0 <= j < k ==> (#[trigger] fields[j]).team < fields[k].team,
        k == 0 || slot_of(fields[k - 1].team, fields[k - 1].player) != slot_of(
            fields[k].team,
            fields[k].player,
        ),
    ensures
        rows_below(scanned_rows(fields), fields[k].team),
{
    let team = fields[k].team;
    let before = fields.subrange(0, k);
    let upto = fields.subrange(0, k + 1);
    assert forall|j: int| 0 <= j < before.len() implies (#[trigger] before[j]).team < team by {
        assert(fields[j].team < team);
    }
    lemma_low_teams_low_rows(before, team);
    assert(upto.drop_last() =~= before);
    assert(upto.last() == fields[k]);
    if scan_fold(before).skip_from is None {
        lemma_previous_without_skip(before);
        if k > 0 {
            assert(before.last() == fields[k - 1]);
        }
    }
    assert(hidden_from(scan_fold(upto), team));
    lemma_fold_keeps_hidden(fields, k + 1, fields.len() as int, team);
    assert(fields.subrange(0, fields.len() as int) =~= fields);
}

/// The rows that are finished together with the row that still takes fields.
pub open spec fn rows_with_open(
    done: Seq<RecordModel>,
    open: bool,
    team: nat,
    player: nat,
    fields: Seq<(Seq<char>, Seq<char>)>,
) -> Seq<RecordModel> {
    if open {
        done.push(RecordModel { team, player, fields })
    } else {
        done
    }
}

/// Groups scanned fields into rows, one for each slot whose first field has
/// a value. The first slot whose first field is empty ends its team and all
/// teams after it.
pub fn assemble_scanned(fields: &Vec<PlayerField>) -> (rows: Vec<PlayerRecord>)
    ensures
        records_view(rows@) == scanned_rows(fields_view(fields@)),
{
    let mut done: Vec<PlayerRecord> = Vec::new();
    let mut open: bool = false;
    let mut open_team: u32 = 0;
    let mut open_player: u32 = 0;
    let mut open_fields: Vec<(String, String)> = Vec::new();
    let mut previous: Option<u64> = None;
    let mut skip_from: Option<u32> = None;
    let ghost all = fields_view(fields@);
    let mut i: usize = 0;
    assert(all.subrange(0, 0) =~= Seq::empty());
    assert(records_view(done@) =~= Seq::empty());
    while i < fields.len()
        invariant
            i <= fields.len(),
            all == fields_view(fields@),
            scan_fold(all.subrange(0, i as int)).rows == rows_with_open(
                records_view(done@),
                open,
                open_team as nat,
                open_player as nat,
                pairs_view(open_fields@),
            ),
            scan_fold(all.subrange(0, i as int)).open == open,
            scan_fold(all.subrange(0, i as int)).previous == match previous {
                Some(slot) => Some(slot as nat),
                None => None,
            },
            scan_fold(all.subrange(0, i as int)).skip_from == match skip_from {
                Some(team) => Some(team as nat),
                None => None,
            },
        decreases fields.len() - i,
    {
        let field = &fields[i];
        let ghost before = scan_fold(all.subrange(0, i as int));
        proof {
            let upto = all.subrange(0, i + 1);
            assert(upto.drop_last() =~= all.subrange(0, i as int));
            assert(upto.last() == field@);
        }
        let skipped = match skip_from {
            Some(from) => field.team >= from,
            None => false,
        };
        if !skipped {
            let slot: u64 = 3 * (field.team as u64) + field.player as u64;
            let same = match previous {
                Some(p) => p == slot,
                None => false,
            };
            if !same {
                previous = Some(slot);
                if open {
                    let finished = PlayerRecord {
                        team_index: open_team,
                        player_index: open_player,
                        fields: open_fields,
                    };
                    proof {
                        lemma_records_view_push(done@, finished);
                    }
                    done.push(finished);
                    open_fields = Vec::new();
                    open = false;
                }
                if field.value.as_str().unicode_len() == 0 {
                    skip_from = Some(field.team);
                } else {
                    open = true;
                    open_team = field.team;
                    open_player = field.player;
                    open_fields = Vec::new();
                    let pair = (field.field.clone(), field.value.clone());
                    proof {
                        lemma_pairs_view_push(open_fields@, pair);
                        assert(pairs_view(open_fields@) =~= Seq::empty());
                        assert(Seq::<(Seq<char>, Seq<char>)>::empty().push((pair.0@, pair.1@))
                            =~= seq![(field@.field, field@.value)]);
                    }
                    open_fields.push(pair);
                }
            } else if open {
                let pair = (field.field.clone(), field.value.clone());
                proof {
                    lemma_pairs_view_push(open_fields@, pair);
                    assert(before.rows.drop_last() =~= records_view(done@));
                }
                open_fields.push(pair);
            }
        }
        i = i + 1;
    }
    assert(all.subrange(0, i as int) =~= all);
    if open {
        let finished = PlayerRecord {
            team_index: open_team,
            player_index: open_player,
            fields: open_fields,
        };
        proof {
            lemma_records_view_push(done@, finished);
        }
        done.push(finished);
    }
    done
}

} // verus!
