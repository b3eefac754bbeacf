//! The values that the stages of an extraction hand to each other.

use vstd::prelude::*;

verus! {

/// One field of one player, as plain values.
pub struct FieldModel {
    pub team: nat,
    pub player: nat,
    pub field: Seq<char>,
    pub value: Seq<char>,
}

/// One field of one player: the numbers taken from the attribute's name, the
/// field's name and the attribute's value.
#[derive(Debug)]
pub struct PlayerField {
    pub team: u32,
    pub player: u32,
    pub field: String,
    pub value: String,
}

impl View for PlayerField {
    type V = FieldModel;

    open spec fn view(&self) -> FieldModel {
        FieldModel {
            team: self.team as nat,
            player: self.player as nat,
            field: self.field@,
            value: self.value@,
        }
    }
}

/// The fields of a list as plain values.
pub open spec fn fields_view(fields: Seq<PlayerField>) -> Seq<FieldModel> {
    Seq::new(fields.len(), |i: int| fields[i]@)
}

/// One row of the table, as plain values: the player's place, counted from
/// zero, and the fields with their headers.
pub struct RecordModel {
    pub team: nat,
    pub player: nat,
    pub fields: Seq<(Seq<char>, Seq<char>)>,
}

/// One row of the table: a player's place, counted from zero, and the
/// player's fields, each with its header, in table order.
#[derive(Debug)]
pub struct PlayerRecord {
    pub team_index: u32,
    pub player_index: u32,
    pub fields: Vec<(String, String)>,
}

/// Pairs of header and value as plain texts.
pub open spec fn pairs_view(pairs: Seq<(String, String)>) -> Seq<(Seq<char>, Seq<char>)> {
    Seq::new(pairs.len(), |i: int| (pairs[i].0@, pairs[i].1@))
}

impl View for PlayerRecord {
    type V = RecordModel;

    open spec fn view(&self) -> RecordModel {
        RecordModel {
            team: self.team_index as nat,
            player: self.player_index as nat,
            fields: pairs_view(self.fields@),
        }
    }
}

/// The rows of a list as plain values.
pub open spec fn records_view(records: Seq<PlayerRecord>) -> Seq<RecordModel> {
    Seq::new(records.len(), |i: int| records[i]@)
}

/// The texts of a list of strings.
pub open spec fn texts_view(texts: Seq<String>) -> Seq<Seq<char>> {
    Seq::new(texts.len(), |i: int| texts[i]@)
}

/// A team of the match and the number of its players.
#[derive(Debug, Clone, Copy, PartialEq, Eq, Structural)]
pub struct TeamSlot {
    pub team_index: u32,
    pub player_count: u32,
}

/// Appending a pair to a list appends its texts to the list's view.
pub proof fn lemma_pairs_view_push(pairs: Seq<(String, String)>, pair: (String, String))
    ensures
        pairs_view(pairs.push(pair)) == pairs_view(pairs).push((pair.0@, pair.1@)),
{
    assert(pairs_view(pairs.push(pair)) =~= pairs_view(pairs).push((pair.0@, pair.1@)));
}

/// Appending a row to a list appends its view to the list's view.
pub proof fn lemma_records_view_push(records: Seq<PlayerRecord>, record: PlayerRecord)
    ensures
        records_view(records.push(record)) == records_view(records).push(record@),
{
    assert(records_view(records.push(record)) =~= records_view(records).push(record@));
}

/// Appending a field to a list appends its view to the list's view.
pub proof fn lemma_fields_view_push(fields: Seq<PlayerField>, field: PlayerField)
    ensures
        fields_view(fields.push(field)) == fields_view(fields).push(field@),
{
    assert(fields_view(fields.push(field)) =~= fields_view(fields).push(field@));
}

/// Appending a string to a list appends its text to the list's view.
pub proof fn lemma_texts_view_push(texts: Seq<String>, text: String)
    ensures
        texts_view(texts.push(text)) == texts_view(texts).push(text@),
{
    assert(texts_view(texts.push(text)) =~= texts_view(texts).push(text@));
}

} // verus!
