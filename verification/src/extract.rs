//! From the attributes of a dump to the text of its table.

use crate::attributes::{entries_view, index_of, AttributeEntry, AttributeIndex};
use crate::error::{ErrorModel, ExtractError};
use crate::fixed::{
    assemble_fixed, declared_team_count, fixed_rows, resolve_team_count, resolve_team_slots,
    team_slots,
};
use crate::keys::{fixed_header_names, fixed_headers, team_count_key_text};
use crate::pattern::{player_key_pattern_text, regex_compiled, PlayerKeyPattern};
use crate::records::{texts_view, RecordModel};
use crate::render::{render_snapshot, snapshot_text};
use crate::scan::{
    assemble_scanned, retained_fields, scan_player_fields, scanned_header_names, scanned_headers,
    scanned_rows,
};
use vstd::prelude::*;

verus! {

/// How the players of a match are found in a dump.
#[derive(Debug, Clone, Copy, PartialEq, Eq, Structural)]
pub enum Strategy {
    /// By the names of the attributes: whatever has the name of a player's
    /// field is one. For dumps of the older kind.
    PatternScanned,
    /// By the counts that the dump declares, with the fixed schema.
    ExplicitCount,
}

/// What an extraction yields.
#[derive(Debug)]
pub enum Extraction {
    /// The dump describes no finished match. Nothing is to be written.
    NoMatchData,
    /// The table of the match, as text.
    Snapshot(String),
}

/// A table as plain values: the headers of the fields and the rows.
pub struct TableModel {
    pub headers: Seq<Seq<char>>,
    pub rows: Seq<RecordModel>,
}

/// The table that the fixed schema finds in a dump, nothing where the dump
/// declares no number of teams, or the error that stops the extraction.
pub open spec fn fixed_table(entries: Seq<(Seq<char>, Seq<char>)>) -> Result<
    Option<TableModel>,
    ErrorModel,
> {
    let index = index_of(entries);
    match declared_team_count(index) {
        Err(key) => Err(ErrorModel::MalformedInput(key)),
        Ok(None) => Ok(None),
        Ok(Some(teams)) => match team_slots(index, teams) {
            Err(key) => Err(ErrorModel::MalformedInput(key)),
            Ok(slots) => match fixed_rows(index, slots) {
                Err(key) => Err(ErrorModel::MissingField(key)),
                Ok(rows) => Ok(Some(TableModel { headers: fixed_headers(), rows })),
            },
        },
    }
}

/// The table that a scan of the names finds in a dump, nothing where the
/// dump declares no number of teams, or the error that stops the extraction.
pub open spec fn scanned_table(entries: Seq<(Seq<char>, Seq<char>)>) -> Result<
    Option<TableModel>,
    ErrorModel,
> {
    match declared_team_count(index_of(entries)) {
        Err(key) => Err(ErrorModel::MalformedInput(key)),
        Ok(None) => Ok(None),
        Ok(Some(teams)) => match retained_fields(entries, teams) {
            Err(key) => Err(ErrorModel::MalformedInput(key)),
            Ok(fields) => Ok(
                Some(TableModel { headers: scanned_headers(fields), rows: scanned_rows(fields) }),
            ),
        },
    }
}

/// The text of a table, where there is one.
pub open spec fn rendered(table: Result<Option<TableModel>, ErrorModel>, zero_based: bool) -> Result<
    Option<Seq<char>>,
    ErrorModel,
> {
    match table {
        Err(e) => Err(e),
        Ok(None) => Ok(None),
        Ok(Some(t)) => Ok(Some(snapshot_text(t.headers, t.rows, zero_based))),
    }
}

/// The table that a strategy finds in a dump. A scan needs its pattern: where
/// that is rejected, nothing else is looked at.
pub open spec fn table_of(strategy: Strategy, entries: Seq<(Seq<char>, Seq<char>)>) -> Result<
    Option<TableModel>,
    ErrorModel,
> {
    match strategy {
        Strategy::ExplicitCount => fixed_table(entries),
        Strategy::PatternScanned => if regex_compiled(player_key_pattern_text()) is Some {
            scanned_table(entries)
        } else {
            Err(ErrorModel::PatternRejected)
        },
    }
}

/// The outcome of an extraction as plain values.
pub open spec fn extraction_view(r: Result<Extraction, ExtractError>) -> Result<
    Option<Seq<char>>,
    ErrorModel,
> {
    match r {
        Ok(Extraction::NoMatchData) => Ok(None),
        Ok(Extraction::Snapshot(text)) => Ok(Some(text@)),
        Err(e) => Err(e@),
    }
}

/// Extracts the table of a dump under the fixed schema.
///
/// A dump without the number of teams yields `NoMatchData`, and only such a
/// dump does. A count that is absent or no number fails with
/// `MalformedInput`, a field that a declared player lacks with
/// `MissingField`; each names the attribute.
pub fn extract_fixed(entries: &Vec<AttributeEntry>, zero_based: bool) -> (r: Result<
    Extraction,
    ExtractError,
>)
    ensures
        extraction_view(r) == rendered(fixed_table(entries_view(entries@)), zero_based),
        r matches Ok(Extraction::NoMatchData) <==> !index_of(entries_view(entries@)).contains_key(
            team_count_key_text(),
        ),
{
    let index = AttributeIndex::build(entries);
    let teams = match resolve_team_count(&index) {
        Err(e) => {
            return Err(e);
        },
        Ok(None) => {
            return Ok(Extraction::NoMatchData);
        },
        Ok(Some(n)) => n,
    };
    let slots = match resolve_team_slots(&index, teams) {
        Err(e) => {
            return Err(e);
        },
        Ok(slots) => slots,
    };
    let rows = match assemble_fixed(&index, &slots) {
        Err(e) => {
            return Err(e);
        },
        Ok(rows) => rows,
    };
    let headers = fixed_header_names();
    assert(texts_view(headers@) =~= fixed_headers());
    Ok(Extraction::Snapshot(render_snapshot(&headers, &rows, zero_based)))
}

/// Extracts the table of a dump by scanning the names of its attributes.
///
/// A dump without the number of teams yields `NoMatchData`, and only such a
/// dump does. A number of teams that is no number, or a player attribute
/// whose numbers are none, fails with `MalformedInput`, which names the
/// attribute.
pub fn extract_scanned(
    pattern: &PlayerKeyPattern,
    entries: &Vec<AttributeEntry>,
    zero_based: bool,
) -> (r: Result<Extraction, ExtractError>)
    ensures
        extraction_view(r) == rendered(scanned_table(entries_view(entries@)), zero_based),
        r matches Ok(Extraction::NoMatchData) <==> !index_of(entries_view(entries@)).contains_key(
            team_count_key_text(),
        ),
{
    let index = AttributeIndex::build(entries);
    let teams = match resolve_team_count(&index) {
        Err(e) => {
            return Err(e);
        },
        Ok(None) => {
            return Ok(Extraction::NoMatchData);
        },
        Ok(Some(n)) => n,
    };
    let fields = match scan_player_fields(pattern, entries, teams) {
        Err(e) => {
            return Err(e);
        },
        Ok(fields) => fields,
    };
    let headers = scanned_header_names(&fields);
    let rows = assemble_scanned(&fields);
    Ok(Extraction::Snapshot(render_snapshot(&headers, &rows, zero_based)))
}

/// Extracts the table of a dump under the given strategy.
pub fn extract(strategy: Strategy, entries: &Vec<AttributeEntry>, zero_based: bool) -> (r: Result<
    Extraction,
    ExtractError,
>)
    ensures
        extraction_view(r) == rendered(table_of(strategy, entries_view(entries@)), zero_based),
        r matches Ok(Extraction::NoMatchData) ==> !index_of(entries_view(entries@)).contains_key(
            team_count_key_text(),
        ),
        strategy == Strategy::ExplicitCount && !index_of(entries_view(entries@)).contains_key(
            team_count_key_text(),
        ) ==> r matches Ok(Extraction::NoMatchData),
{
    match strategy {
        Strategy::ExplicitCount => extract_fixed(entries, zero_based),
        Strategy::PatternScanned => match PlayerKeyPattern::new() {
            Ok(pattern) => extract_scanned(&pattern, entries, zero_based),
            Err(e) => Err(e),
        },
    }
}

} // verus!
