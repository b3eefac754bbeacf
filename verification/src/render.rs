//! The table as comma-separated text.
//!
//! The first line names the columns. Each further line is one row: the
//! team's number, the player's number and the values of the fields. Lines are
//! separated by a newline and the text does not end in one. Values are
//! written as they are: a comma or a newline inside a value is not escaped.

use crate::decimal::{decimal_text, render_decimal};
use crate::records::{records_view, texts_view, PlayerRecord, RecordModel};
use vstd::prelude::*;

verus! {

/// The number at which the counting of teams and players starts.
pub open spec fn first_number(zero_based: bool) -> nat {
    if zero_based {
        0
    } else {
        1
    }
}

/// The number shown for a row's team.
pub open spec fn team_column(row: RecordModel, zero_based: bool) -> nat {
    row.team + first_number(zero_based)
}

/// The number shown for a row's player.
pub open spec fn player_column(row: RecordModel, zero_based: bool) -> nat {
    row.player + first_number(zero_based)
}


/// The texts of a list, each with a comma in front of it.
pub open spec fn comma_joined(values: Seq<Seq<char>>) -> Seq<char>
    decreases values.len(),
{
    if values.len() == 0 {
        Seq::empty()
    } else {
        comma_joined(values.drop_last()) + ","@ + values.last()
    }
}

/// The first line of the table.
pub open spec fn header_line(headers: Seq<Seq<char>>) -> Seq<char> {
    "Team,Player"@ + comma_joined(headers)
}

/// The values of a row's fields, without their headers.
pub open spec fn row_values(row: RecordModel) -> Seq<Seq<char>> {
    Seq::new(row.fields.len(), |i: int| row.fields[i].1)
}

/// The line of one row.
pub open spec fn row_line(row: RecordModel, zero_based: bool) -> Seq<char> {
    decimal_text(team_column(row, zero_based)) + ","@ + decimal_text(
        player_column(row, zero_based),
    ) + comma_joined(row_values(row))
}

/// Counted from one, the team and the player of a row are each one more than
/// counted from zero, and nothing else in the row's line differs.
pub proof fn lemma_one_based_is_one_more(row: RecordModel)
    ensures
        team_column(row, false) == team_column(row, true) + 1,
        player_column(row, false) == player_column(row, true) + 1,
        row_line(row, false) == decimal_text(team_column(row, true) + 1) + ","@ + decimal_text(
            player_column(row, true) + 1,
        ) + comma_joined(row_values(row)),
        row_line(row, true) == decimal_text(team_column(row, true)) + ","@ + decimal_text(
            player_column(row, true),
        ) + comma_joined(row_values(row)),
{
}

/// The numbering changes neither the header line nor the number of lines:
/// the rows are the same rows, each with its two numbers shifted.
pub proof fn lemma_numbering_keeps_rows(headers: Seq<Seq<char>>, rows: Seq<RecordModel>)
    ensures
        snapshot_text(headers, rows, false) == header_line(headers) + row_lines(rows, false),
        snapshot_text(headers, rows, true) == header_line(headers) + row_lines(rows, true),
        forall|i: int|
            0 <= i < rows.len() ==> team_column(#[trigger] rows[i], false) == team_column(
                rows[i],
                true,
            ) + 1 && player_column(rows[i], false) == player_column(rows[i], true) + 1,
{
}

/// The lines of the rows, each with a newline in front of it.
pub open spec fn row_lines(rows: Seq<RecordModel>, zero_based: bool) -> Seq<char>
    decreases rows.len(),
{
    if rows.len() == 0 {
        Seq::empty()
    } else {
        row_lines(rows.drop_last(), zero_based) + "\n"@ + row_line(rows.last(), zero_based)
    }
}

/// The whole table as text.
pub open spec fn snapshot_text(
    headers: Seq<Seq<char>>,
    rows: Seq<RecordModel>,
    zero_based: bool,
) -> Seq<char> {
    header_line(headers) + row_lines(rows, zero_based)
}

/// Renders the first line of the table.
pub fn render_header_line(headers: &Vec<String>) -> (line: String)
    ensures
        line@ == header_line(texts_view(headers@)),
{
    let mut line = String::from_str("Team,Player");
    let ghost all = texts_view(headers@);
    let mut i: usize = 0;
    assert(all.subrange(0, 0) =~= Seq::empty());
    assert("Team,Player"@ + Seq::<char>::empty() =~= "Team,Player"@);
    while i < headers.len()
        invariant
            i <= headers.len(),
            all == texts_view(headers@),
            line@ == "Team,Player"@ + comma_joined(all.subrange(0, i as int)),
        decreases headers.len() - i,
    {
        proof {
            let upto = all.subrange(0, i + 1);
            let sofar = comma_joined(all.subrange(0, i as int));
            assert(upto.drop_last() =~= all.subrange(0, i as int));
            assert(upto.last() == headers@[i as int]@);
            assert("Team,Player"@ + sofar + ","@ + headers@[i as int]@ =~= "Team,Player"@ + (sofar
                + ","@ + headers@[i as int]@));
        }
        line.append(",");
        line.append(headers[i].as_str());
        i = i + 1;
    }
    assert(all.subrange(0, i as int) =~= all);
    line
}

/// Renders the line of one row, with teams and players counted from zero or
/// from one.
pub fn render_row_line(row: &PlayerRecord, zero_based: bool) -> (line: String)
    ensures
        line@ == row_line(row@, zero_based),
{
    let first: u64 = if zero_based {
        0
    } else {
        1
    };
    let mut line = render_decimal(row.team_index as u64 + first);
    line.append(",");
    let player_text = render_decimal(row.player_index as u64 + first);
    line.append(player_text.as_str());
    let ghost numbers = line@;
    let ghost values = row_values(row@);
    let mut i: usize = 0;
    assert(values.subrange(0, 0) =~= Seq::empty());
    assert(numbers + Seq::<char>::empty() =~= numbers);
    while i < row.fields.len()
        invariant
            i <= row.fields.len(),
            values == row_values(row@),
            values.len() == row.fields.len(),
            line@ == numbers + comma_joined(values.subrange(0, i as int)),
        decreases row.fields.len() - i,
    {
        proof {
            let upto = values.subrange(0, i + 1);
            let sofar = comma_joined(values.subrange(0, i as int));
            let value = row.fields@[i as int].1@;
            assert(upto.drop_last() =~= values.subrange(0, i as int));
            assert(upto.last() == value);
            assert(numbers + sofar + ","@ + value =~= numbers + (sofar + ","@ + value));
        }
        line.append(",");
        line.append(row.fields[i].1.as_str());
        i = i + 1;
    }
    assert(values.subrange(0, i as int) =~= values);
    line
}

/// Renders the table: the header line, then one line for each row.
pub fn render_snapshot(headers: &Vec<String>, rows: &Vec<PlayerRecord>, zero_based: bool) -> (text:
    String)
    ensures
        text@ == snapshot_text(texts_view(headers@), records_view(rows@), zero_based),
{
    let mut text = render_header_line(headers);
    let ghost head = text@;
    let ghost all = records_view(rows@);
    let mut i: usize = 0;
    assert(all.subrange(0, 0) =~= Seq::empty());
    assert(head + Seq::<char>::empty() =~= head);
    while i < rows.len()
        invariant
            i <= rows.len(),
            all == records_view(rows@),
            text@ == head + row_lines(all.subrange(0, i as int), zero_based),
        decreases rows.len() - i,
    {
        let line = render_row_line(&rows[i], zero_based);
        proof {
            let upto = all.subrange(0, i + 1);
            let sofar = row_lines(all.subrange(0, i as int), zero_based);
            assert(upto.drop_last() =~= all.subrange(0, i as int));
            assert(upto.last() == rows@[i as int]@);
            assert(head + sofar + "\n"@ + line@ =~= head + (sofar + "\n"@ + line@));
        }
        text.append("\n");
        text.append(line.as_str());
        i = i + 1;
    }
    assert(all.subrange(0, i as int) =~= all);
    text
}

} // verus!
