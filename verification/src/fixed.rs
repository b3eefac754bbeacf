//! Discovery of players from explicit counts, under the fixed schema.
//!
//! The dump declares the number of teams and, for each team, the number of
//! its players. Every declared player has every field of the fixed schema.

use crate::attributes::AttributeIndex;
use crate::decimal::{parse_u32, parse_u32_spec};
use crate::error::ExtractError;
use crate::keys::{
    fixed_header, fixed_headers, player_field_key, player_field_key_text, team_count_key,
    team_count_key_text, team_size_key, team_size_key_text, FIXED_HEADER_COUNT,
};
use crate::records::{
    lemma_pairs_view_push, lemma_records_view_push, pairs_view, records_view, PlayerRecord,
    RecordModel, TeamSlot,
};
use vstd::prelude::*;

verus! {

/// The number of teams that a dump declares: none where the attribute is
/// absent, an error with the attribute's name where it holds no number.
pub open spec fn declared_team_count(index: Map<Seq<char>, Seq<char>>) -> Result<
    Option<nat>,
    Seq<char>,
> {
    let key = team_count_key_text();
    if !index.contains_key(key) {
        Ok(None)
    } else {
        match parse_u32_spec(index[key]) {
            Some(n) => Ok(Some(n as nat)),
            None => Err(key),
        }
    }
}

/// The outcome of reading the number of teams, as plain values.
pub open spec fn team_count_view(r: Result<Option<u32>, ExtractError>) -> Result<
    Option<nat>,
    Seq<char>,
> {
    match r {
        Ok(Some(n)) => Ok(Some(n as nat)),
        Ok(None) => Ok(None),
        Err(ExtractError::MalformedInput { key }) => Err(key@),
        Err(_) => Err(Seq::empty()),
    }
}

/// Reads the number of teams. A dump without that attribute describes no
/// finished match: the result is `Ok(None)`. A value that is no number
/// fails with `MalformedInput`.
pub fn resolve_team_count(index: &AttributeIndex) -> (r: Result<Option<u32>, ExtractError>)
    ensures
        team_count_view(r) == declared_team_count(index@),
        r matches Err(e) ==> e is MalformedInput,
{
    match index.get(team_count_key()) {
        None => Ok(None),
        Some(text) => match parse_u32(text.as_str()) {
            Some(n) => Ok(Some(n)),
            None => Err(ExtractError::MalformedInput { key: String::from_str(team_count_key()) }),
        },
    }
}

/// The number of players that a dump declares for a team, if it declares one.
pub open spec fn declared_team_size(index: Map<Seq<char>, Seq<char>>, team: nat) -> Option<nat> {
    let key = team_size_key_text(team);
    if index.contains_key(key) {
        match parse_u32_spec(index[key]) {
            Some(n) => Some(n as nat),
            None => None,
        }
    } else {
        None
    }
}

/// The teams `0` to `teams - 1`, each with its number of players, or the
/// name of the attribute of the first team whose number is absent or no
/// number.
pub open spec fn team_slots(index: Map<Seq<char>, Seq<char>>, teams: nat) -> Result<
    Seq<(nat, nat)>,
    Seq<char>,
>
    decreases teams,
{
    if teams == 0 {
        Ok(Seq::empty())
    } else {
        match team_slots(index, (teams - 1) as nat) {
            Err(key) => Err(key),
            Ok(slots) => match declared_team_size(index, (teams - 1) as nat) {
                Some(size) => Ok(slots.push(((teams - 1) as nat, size))),
                None => Err(team_size_key_text((teams - 1) as nat)),
            },
        }
    }
}

/// Team slots as pairs of numbers.
pub open spec fn slots_view(slots: Seq<TeamSlot>) -> Seq<(nat, nat)> {
    Seq::new(slots.len(), |i: int| (slots[i].team_index as nat, slots[i].player_count as nat))
}

/// The outcome of reading the team slots, as plain values.
pub open spec fn team_slots_view(r: Result<Vec<TeamSlot>, ExtractError>) -> Result<
    Seq<(nat, nat)>,
    Seq<char>,
> {
    match r {
        Ok(slots) => Ok(slots_view(slots@)),
        Err(ExtractError::MalformedInput { key }) => Err(key@),
        Err(_) => Err(Seq::empty()),
    }
}

/// A prefix of the teams that fails makes every longer prefix fail alike.
pub proof fn lemma_team_slots_error_stays(index: Map<Seq<char>, Seq<char>>, k: nat, teams: nat)
    requires
        k <= teams,
        team_slots(index, k) is Err,
    ensures
        team_slots(index, teams) == team_slots(index, k),
    decreases teams - k,
{
    if k < teams {
        lemma_team_slots_error_stays(index, k + 1, teams);
    }
}

/// The slots of the teams are numbered from zero without a gap.
pub proof fn lemma_team_slots_contiguous(index: Map<Seq<char>, Seq<char>>, teams: nat)
    requires
        team_slots(index, teams) is Ok,
    ensures
        team_slots(index, teams)->Ok_0.len() == teams,
        forall|i: int|
            0 <= i < teams ==> (#[trigger] team_slots(index, teams)->Ok_0[i]).0 == i,
        forall|i: int|
            0 <= i < teams ==> declared_team_size(index, i as nat) == Some(
                (#[trigger] team_slots(index, teams)->Ok_0[i]).1,
            ),
    decreases teams,
{
    if teams > 0 {
        lemma_team_slots_contiguous(index, (teams - 1) as nat);
    }
}

/// Reads the number of players of each of `num_teams` teams. Fails with
/// `MalformedInput` on the first team whose number is absent or no number.
pub fn resolve_team_slots(index: &AttributeIndex, num_teams: u32) -> (r: Result<
    Vec<TeamSlot>,
    ExtractError,
>)
    ensures
        team_slots_view(r) == team_slots(index@, num_teams as nat),
        r matches Err(e) ==> e is MalformedInput,
{
    let mut slots: Vec<TeamSlot> = Vec::new();
    let mut team: u32 = 0;
    assert(slots_view(slots@) =~= Seq::empty());
    while team < num_teams
        invariant
            team <= num_teams,
            team_slots(index@, team as nat) == Ok::<Seq<(nat, nat)>, Seq<char>>(
                slots_view(slots@),
            ),
        decreases num_teams - team,
    {
        let key = team_size_key(team);
        let size = match index.get(key.as_str()) {
            Some(text) => parse_u32(text.as_str()),
            None => None,
        };
        match size {
            Some(player_count) => {
                let slot = TeamSlot { team_index: team, player_count };
                assert(slots_view(slots@.push(slot)) =~= slots_view(slots@).push(
                    (team as nat, player_count as nat),
                ));
                slots.push(slot);
            },
            None => {
                proof {
                    lemma_team_slots_error_stays(index@, (team + 1) as nat, num_teams as nat);
                }
                return Err(ExtractError::MalformedInput { key });
            },
        }
        team = team + 1;
    }
    Ok(slots)
}

/// The first `count` fields of a player under the fixed schema, each with its
/// header, or the name of the first attribute that the dump lacks.
pub open spec fn slot_fields(
    index: Map<Seq<char>, Seq<char>>,
    team: nat,
    player: nat,
    count: nat,
) -> Result<Seq<(Seq<char>, Seq<char>)>, Seq<char>>
    decreases count,
{
    if count == 0 {
        Ok(Seq::empty())
    } else {
        match slot_fields(index, team, player, (count - 1) as nat) {
            Err(key) => Err(key),
            Ok(fields) => {
                let header = fixed_headers()[count - 1];
                let key = player_field_key_text(team, player, header);
                if index.contains_key(key) {
                    Ok(fields.push((header, index[key])))
                } else {
                    Err(key)
                }
            },
        }
    }
}

/// The row of a player under the fixed schema.
pub open spec fn fixed_record(index: Map<Seq<char>, Seq<char>>, team: nat, player: nat) -> Result<
    RecordModel,
    Seq<char>,
> {
    match slot_fields(index, team, player, FIXED_HEADER_COUNT as nat) {
        Ok(fields) => Ok(RecordModel { team, player, fields }),
        Err(key) => Err(key),
    }
}

/// The rows of the first `players` players of a team.
pub open spec fn team_rows(index: Map<Seq<char>, Seq<char>>, team: nat, players: nat) -> Result<
    Seq<RecordModel>,
    Seq<char>,
>
    decreases players,
{
    if players == 0 {
        Ok(Seq::empty())
    } else {
        match team_rows(index, team, (players - 1) as nat) {
            Err(key) => Err(key),
            Ok(rows) => match fixed_record(index, team, (players - 1) as nat) {
                Ok(row) => Ok(rows.push(row)),
                Err(key) => Err(key),
            },
        }
    }
}

/// The rows of a table under the fixed schema: team after team in the order
/// of the slots, and within a team player after player, or the name of the
/// first attribute that the dump lacks.
pub open spec fn fixed_rows(index: Map<Seq<char>, Seq<char>>, slots: Seq<(nat, nat)>) -> Result<
    Seq<RecordModel>,
    Seq<char>,
>
    decreases slots.len(),
{
    if slots.len() == 0 {
        Ok(Seq::empty())
    } else {
        match fixed_rows(index, slots.drop_last()) {
            Err(key) => Err(key),
            Ok(rows) => match team_rows(index, slots.last().0, slots.last().1) {
                Ok(more) => Ok(rows + more),
                Err(key) => Err(key),
            },
        }
    }
}

/// A prefix of the fields that fails makes the whole slot fail alike.
pub proof fn lemma_slot_fields_error_stays(
    index: Map<Seq<char>, Seq<char>>,
    team: nat,
    player: nat,
    k: nat,
    count: nat,
)
    requires
        k <= count,
        slot_fields(index, team, player, k) is Err,
    ensures
        slot_fields(index, team, player, count) == slot_fields(index, team, player, k),
    decreases count - k,
{
    if k < count {
        lemma_slot_fields_error_stays(index, team, player, k + 1, count);
    }
}

/// A prefix of the players that fails makes the whole team fail alike.
pub proof fn lemma_team_rows_error_stays(
    index: Map<Seq<char>, Seq<char>>,
    team: nat,
    k: nat,
    players: nat,
)
    requires
        k <= players,
        team_rows(index, team, k) is Err,
    ensures
        team_rows(index, team, players) == team_rows(index, team, k),
    decreases players - k,
{
    if k < players {
        lemma_team_rows_error_stays(index, team, k + 1, players);
    }
}

/// A prefix of the slots that fails makes the whole table fail alike.
pub proof fn lemma_fixed_rows_error_stays(
    index: Map<Seq<char>, Seq<char>>,
    slots: Seq<(nat, nat)>,
    k: int,
)
    requires
        0 <= k <= slots.len(),
        fixed_rows(index, slots.subrange(0, k)) is Err,
    ensures
        fixed_rows(index, slots) == fixed_rows(index, slots.subrange(0, k)),
    decreases slots.len() - k,
{
    if k == slots.len() {
        assert(slots.subrange(0, k) =~= slots);
    } else {
        let next = slots.subrange(0, k + 1);
        assert(next.drop_last() =~= slots.subrange(0, k));
        lemma_fixed_rows_error_stays(index, slots, k + 1);
    }
}

/// Whether the dump holds the first `count` fields of a player.
pub open spec fn slot_complete(
    index: Map<Seq<char>, Seq<char>>,
    team: nat,
    player: nat,
    count: nat,
) -> bool {
    forall|i: int|
        0 <= i < count ==> index.contains_key(
            player_field_key_text(team, player, #[trigger] fixed_headers()[i]),
        )
}

/// The fields of a player are found exactly if the dump holds every one of
/// them, and then each stands under its header, in the order of the schema.
pub proof fn lemma_slot_fields_complete(
    index: Map<Seq<char>, Seq<char>>,
    team: nat,
    player: nat,
    count: nat,
)
    requires
        count <= FIXED_HEADER_COUNT,
    ensures
        slot_fields(index, team, player, count) is Ok <==> slot_complete(
            index,
            team,
            player,
            count,
        ),
        slot_fields(index, team, player, count) matches Ok(fields) ==> {
            &&& fields.len() == count
            &&& forall|i: int|
                0 <= i < count ==> (#[trigger] fields[i]) == (
                    fixed_headers()[i],
                    index[player_field_key_text(team, player, fixed_headers()[i])],
                )
        },
        slot_fields(index, team, player, count) matches Err(key) ==> !index.contains_key(key),
    decreases count,
{
    if count > 0 {
        let less = (count - 1) as nat;
        lemma_slot_fields_complete(index, team, player, less);
        if slot_complete(index, team, player, count) {
            assert forall|i: int| 0 <= i < less implies index.contains_key(
                player_field_key_text(team, player, #[trigger] fixed_headers()[i]),
            ) by {}
            assert(index.contains_key(
                player_field_key_text(team, player, fixed_headers()[count - 1]),
            ));
        }
    }
}

/// The rows of a team are found exactly if the row of each of its players
/// is, and then they are those rows, player after player.
pub proof fn lemma_team_rows_complete(
    index: Map<Seq<char>, Seq<char>>,
    team: nat,
    players: nat,
)
    ensures
        team_rows(index, team, players) is Ok <==> forall|p: int|
            0 <= p < players ==> #[trigger] slot_complete(
                index,
                team,
                p as nat,
                FIXED_HEADER_COUNT as nat,
            ),
        team_rows(index, team, players) matches Ok(rows) ==> {
            &&& rows.len() == players
            &&& forall|p: int|
                0 <= p < players ==> fixed_record(index, team, p as nat) == Ok::<
                    RecordModel,
                    Seq<char>,
                >(#[trigger] rows[p])
        },
        team_rows(index, team, players) matches Err(key) ==> !index.contains_key(key),
    decreases players,
{
    if players > 0 {
        let less = (players - 1) as nat;
        lemma_team_rows_complete(index, team, less);
        lemma_slot_fields_complete(index, team, less, FIXED_HEADER_COUNT as nat);
        if forall|p: int|
            0 <= p < players ==> #[trigger] slot_complete(
                index,
                team,
                p as nat,
                FIXED_HEADER_COUNT as nat,
            ) {
            assert(slot_complete(index, team, less as int as nat, FIXED_HEADER_COUNT as nat));
        }
    }
}

/// The number of rows that the slots declare.
pub open spec fn declared_players(slots: Seq<(nat, nat)>) -> nat
    decreases slots.len(),
{
    if slots.len() == 0 {
        0
    } else {
        declared_players(slots.drop_last()) + slots.last().1
    }
}

/// The table is built exactly if the dump holds every field of every
/// declared player. It then has one row for each declared player, and each
/// row has all the fields of the schema. Where it is not built, the
/// attribute named is one that the dump lacks.
pub proof fn lemma_fixed_rows_complete(index: Map<Seq<char>, Seq<char>>, slots: Seq<(nat, nat)>)
    ensures
        fixed_rows(index, slots) is Ok <==> forall|s: int, p: int|
            0 <= s < slots.len() && 0 <= p < slots[s].1 ==> #[trigger] slot_complete(
                index,
                slots[s].0,
                p as nat,
                FIXED_HEADER_COUNT as nat,
            ),
        fixed_rows(index, slots) matches Ok(rows) ==> {
            &&& rows.len() == declared_players(slots)
            &&& forall|r: int|
                0 <= r < rows.len() ==> (#[trigger] rows[r]).fields.len() == FIXED_HEADER_COUNT
        },
        fixed_rows(index, slots) matches Err(key) ==> !index.contains_key(key),
    decreases slots.len(),
{
    if slots.len() > 0 {
        let front = slots.drop_last();
        let last = slots.last();
        lemma_fixed_rows_complete(index, front);
        lemma_team_rows_complete(index, last.0, last.1);
        let all_front = forall|s: int, p: int|
            0 <= s < front.len() && 0 <= p < front[s].1 ==> #[trigger] slot_complete(
                index,
                front[s].0,
                p as nat,
                FIXED_HEADER_COUNT as nat,
            );
        let all_last = forall|p: int|
            0 <= p < last.1 ==> #[trigger] slot_complete(
                index,
                last.0,
                p as nat,
                FIXED_HEADER_COUNT as nat,
            );
        let all = forall|s: int, p: int|
            0 <= s < slots.len() && 0 <= p < slots[s].1 ==> #[trigger] slot_complete(
                index,
                slots[s].0,
                p as nat,
                FIXED_HEADER_COUNT as nat,
            );
        if all {
            assert forall|s: int, p: int|
                0 <= s < front.len() && 0 <= p < front[s].1 implies #[trigger] slot_complete(
                index,
                front[s].0,
                p as nat,
                FIXED_HEADER_COUNT as nat,
            ) by {
                assert(front[s] == slots[s]);
            }
            assert forall|p: int| 0 <= p < last.1 implies #[trigger] slot_complete(
                index,
                last.0,
                p as nat,
                FIXED_HEADER_COUNT as nat,
            ) by {
                assert(slots[slots.len() - 1] == last);
            }
        }
        if all_front && all_last {
            assert forall|s: int, p: int|
                0 <= s < slots.len() && 0 <= p < slots[s].1 implies #[trigger] slot_complete(
                index,
                slots[s].0,
                p as nat,
                FIXED_HEADER_COUNT as nat,
            ) by {
                if s < front.len() {
                    assert(front[s] == slots[s]);
                }
            }
        }
        if fixed_rows(index, slots) is Ok {
            let rows = fixed_rows(index, slots)->Ok_0;
            let head = fixed_rows(index, front)->Ok_0;
            let more = team_rows(index, last.0, last.1)->Ok_0;
            assert forall|r: int| 0 <= r < rows.len() implies (#[trigger] rows[r]).fields.len()
                == FIXED_HEADER_COUNT by {
                if r < head.len() {
                    assert(rows[r] == head[r]);
                } else {
                    let p = r - head.len();
                    assert(rows[r] == more[p]);
                    lemma_slot_fields_complete(index, last.0, p as nat, FIXED_HEADER_COUNT as nat);
                }
            }
        }
    }
}

/// The outcome of building one row, as plain values.
pub open spec fn record_view(r: Result<PlayerRecord, ExtractError>) -> Result<
    RecordModel,
    Seq<char>,
> {
    match r {
        Ok(record) => Ok(record@),
        Err(ExtractError::MissingField { key }) => Err(key@),
        Err(_) => Err(Seq::empty()),
    }
}

/// The outcome of building rows, as plain values.
pub open spec fn rows_view(r: Result<Vec<PlayerRecord>, ExtractError>) -> Result<
    Seq<RecordModel>,
    Seq<char>,
> {
    match r {
        Ok(rows) => Ok(records_view(rows@)),
        Err(ExtractError::MissingField { key }) => Err(key@),
        Err(_) => Err(Seq::empty()),
    }
}

/// Builds the row of one player: every field of the fixed schema, looked up
/// under the player's name for it. Fails with `MissingField` on the first
/// field that the dump lacks.
pub fn build_fixed_record(index: &AttributeIndex, team: u32, player: u32) -> (r: Result<
    PlayerRecord,
    ExtractError,
>)
    ensures
        record_view(r) == fixed_record(index@, team as nat, player as nat),
        r matches Err(e) ==> e is MissingField,
{
    let mut fields: Vec<(String, String)> = Vec::new();
    let mut i: usize = 0;
    assert(pairs_view(fields@) =~= Seq::empty());
    while i < FIXED_HEADER_COUNT
        invariant
            i <= FIXED_HEADER_COUNT,
            slot_fields(index@, team as nat, player as nat, i as nat) == Ok::<
                Seq<(Seq<char>, Seq<char>)>,
                Seq<char>,
            >(pairs_view(fields@)),
        decreases FIXED_HEADER_COUNT - i,
    {
        let header = fixed_header(i);
        let key = player_field_key(team, player, header);
        match index.get(key.as_str()) {
            Some(value) => {
                let pair = (String::from_str(header), value.clone());
                proof {
                    lemma_pairs_view_push(fields@, pair);
                }
                fields.push(pair);
            },
            None => {
                proof {
                    lemma_slot_fields_error_stays(
                        index@,
                        team as nat,
                        player as nat,
                        (i + 1) as nat,
                        FIXED_HEADER_COUNT as nat,
                    );
                }
                return Err(ExtractError::MissingField { key });
            },
        }
        i = i + 1;
    }
    Ok(PlayerRecord { team_index: team, player_index: player, fields })
}

/// Appends the rows of one team to `rows`.
fn push_team_rows(index: &AttributeIndex, slot: TeamSlot, rows: Vec<PlayerRecord>) -> (r: Result<
    Vec<PlayerRecord>,
    ExtractError,
>)
    ensures
        match team_rows(index@, slot.team_index as nat, slot.player_count as nat) {
            Ok(more) => r is Ok && records_view(r->Ok_0@) == records_view(rows@) + more,
            Err(key) => r matches Err(ExtractError::MissingField { key: missing }) && missing@
                == key,
        },
{
    let mut rows = rows;
    let ghost start = records_view(rows@);
    let mut player: u32 = 0;
    assert(start + Seq::<RecordModel>::empty() =~= start);
    while player < slot.player_count
        invariant
            player <= slot.player_count,
            team_rows(index@, slot.team_index as nat, player as nat) is Ok,
            records_view(rows@) == start + team_rows(
                index@,
                slot.team_index as nat,
                player as nat,
            )->Ok_0,
        decreases slot.player_count - player,
    {
        match build_fixed_record(index, slot.team_index, player) {
            Ok(record) => {
                proof {
                    lemma_records_view_push(rows@, record);
                    let sofar = team_rows(index@, slot.team_index as nat, player as nat)->Ok_0;
                    assert((start + sofar).push(record@) =~= start + sofar.push(record@));
                }
                rows.push(record);
            },
            Err(e) => {
                proof {
                    lemma_team_rows_error_stays(
                        index@,
                        slot.team_index as nat,
                        (player + 1) as nat,
                        slot.player_count as nat,
                    );
                }
                return Err(e);
            },
        }
        player = player + 1;
    }
    Ok(rows)
}

/// Builds the rows of a table under the fixed schema: for each slot in
/// order, one row for each of its players in order. No player is left out,
/// whatever the fields hold. Fails with `MissingField` on the first
/// attribute that the dump lacks.
pub fn assemble_fixed(index: &AttributeIndex, slots: &Vec<TeamSlot>) -> (r: Result<
    Vec<PlayerRecord>,
    ExtractError,
>)
    ensures
        rows_view(r) == fixed_rows(index@, slots_view(slots@)),
        r matches Err(e) ==> e is MissingField,
{
    let mut rows: Vec<PlayerRecord> = Vec::new();
    let ghost all = slots_view(slots@);
    let mut i: usize = 0;
    assert(all.subrange(0, 0) =~= Seq::empty());
    assert(records_view(rows@) =~= Seq::empty());
    while i < slots.len()
        invariant
            i <= slots.len(),
            all == slots_view(slots@),
            fixed_rows(index@, all.subrange(0, i as int)) == Ok::<Seq<RecordModel>, Seq<char>>(
                records_view(rows@),
            ),
        decreases slots.len() - i,
    {
        let slot = slots[i];
        proof {
            let upto = all.subrange(0, i + 1);
            assert(upto.drop_last() =~= all.subrange(0, i as int));
            assert(upto.last() == (slot.team_index as nat, slot.player_count as nat));
        }
        match push_team_rows(index, slot, rows) {
            Ok(extended) => {
                rows = extended;
            },
            Err(e) => {
                proof {
                    lemma_fixed_rows_error_stays(index@, all, i + 1);
                }
                return Err(e);
            },
        }
        i = i + 1;
    }
    assert(all.subrange(0, i as int) =~= all);
    Ok(rows)
}

} // verus!
