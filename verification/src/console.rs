//! What the shell prints of results and values in each of its modes.
use vstd::prelude::*;
use comfy_table::presets::UTF8_FULL;
use comfy_table::Table;
use crate::human::{human_query_result_text, human_value_text, result_text, value_text};
use crate::json::{items_view, json_print_pretty, print_yaml, yaml_print, Json, JsonV};
use crate::output::{generic_table_text, is_generic_table};
use crate::render::{
    cell_text, column_names, columns_of, csv_result_text, csv_text, json_output_text, output_value,
    structured_output, table_cell_value,
};
use crate::session::OutputMode;
use crate::text::{char_count, decimal, digits_of_usize, views};

verus! {

// ---------------------------------------------------------------------------
// Records
// ---------------------------------------------------------------------------
/// The value of a column in a row, as a cell shows it.
pub open spec fn cell_of(row: JsonV, column: Seq<char>) -> Seq<char> {
    cell_text(JsonV::or_null(row.get(column)))
}

/// Spaces.
pub open spec fn blanks(n: int) -> Seq<char> {
    if n <= 0 {
        Seq::empty()
    } else {
        Seq::new(n as nat, |i: int| ' ')
    }
}

/// A text followed by spaces up to a width.
pub open spec fn padded(s: Seq<char>, width: int) -> Seq<char> {
    s + blanks(width - s.len())
}

fn push_padded(out: &mut String, s: &str, width: usize)
    ensures
        final(out)@ == old(out)@ + padded(s@, width as int),
{
    let ghost before = out@;
    out.push_str(s);
    let mut n: usize = char_count(s);
    assert(before + s@ =~= before + s@ + blanks(0));
    while n < width
        invariant
            s@.len() <= n,
            n <= width || n == s@.len(),
            out@ == before + s@ + blanks(n - s@.len()),
        decreases width - n,
    {
        out.push(' ');
        assert(blanks(n - s@.len()).push(' ') =~= blanks(n + 1 - s@.len()));
        assert(out@ =~= before + s@ + blanks(n + 1 - s@.len()));
        n += 1;
    }
    assert(out@ =~= before + padded(s@, width as int));
}

/// The first `n` columns of a record, one line each.
pub open spec fn record_lines(columns: Seq<Seq<char>>, row: JsonV, n: int) -> Seq<char>
    decreases n,
{
    if n <= 0 {
        Seq::empty()
    } else {
        record_lines(columns, row, n - 1) + padded(columns[n - 1], 20) + " "@ + cell_of(
            row,
            columns[n - 1],
        ) + "\n"@
    }
}

/// The first `n` records, each under its number.
pub open spec fn records(columns: Seq<Seq<char>>, rows: Seq<JsonV>, n: int) -> Seq<char>
    decreases n,
{
    if n <= 0 {
        Seq::empty()
    } else {
        records(columns, rows, n - 1) + "-[ RECORD "@ + decimal(n as nat)
            + " ]-------------------------\n"@ + record_lines(
            columns,
            rows[n - 1],
            columns.len() as int,
        )
    }
}

pub open spec fn row_count(n: nat) -> Seq<char> {
    "("@ + decimal(n) + " rows)\n"@
}

fn push_record(out: &mut String, columns: &Vec<String>, row: &Json)
    ensures
        final(out)@ == old(out)@ + record_lines(views(columns@), row@, columns@.len() as int),
{
    let ghost names = views(columns@);
    let ghost before = out@;
    let mut i: usize = 0;
    assert(before + Seq::<char>::empty() =~= before);
    while i < columns.len()
        invariant
            i <= columns@.len(),
            names == views(columns@),
            out@ == before + record_lines(names, row@, i as int),
        decreases columns@.len() - i,
    {
        assert(names[i as int] == columns@[i as int]@);
        push_padded(out, columns[i].as_str(), 20);
        out.push_str(" ");
        let cell = table_cell_value(&row.at_or_null(columns[i].as_str()));
        out.push_str(cell.as_str());
        out.push_str("\n");
        assert(out@ =~= before + record_lines(names, row@, i as int + 1));
        i += 1;
    }
}

fn push_count(out: &mut String, n: usize)
    ensures
        final(out)@ == old(out)@ + row_count(n as nat),
{
    let ghost before = out@;
    out.push_str("(");
    out.push_str(digits_of_usize(n).as_str());
    out.push_str(" rows)\n");
    assert(out@ =~= before + row_count(n as nat));
}

/// The rows of a result as records.
pub open spec fn expanded_text(value: JsonV) -> Seq<char> {
    let rows = value.items_at("rows"@);
    records(columns_of(value), rows, rows.len() as int) + row_count(rows.len())
}

pub fn expanded_result_text(value: &Json) -> (r: String)
    ensures
        r@ == expanded_text(value@),
{
    let columns = column_names(value);
    let rows = value.items_at("rows");
    let ghost names = views(columns@);
    let ghost rv = items_view(rows@);
    let mut out = String::new();
    let mut i: usize = 0;
    while i < rows.len()
        invariant
            i <= rows@.len(),
            names == views(columns@),
            rv == items_view(rows@),
            out@ == records(names, rv, i as int),
        decreases rows@.len() - i,
    {
        assert(rv[i as int] == rows@[i as int]@);
        let ghost before = out@;
        out.push_str("-[ RECORD ");
        out.push_str(digits_of_usize(i + 1).as_str());
        out.push_str(" ]-------------------------\n");
        push_record(&mut out, &columns, &rows[i]);
        i += 1;
    }
    push_count(&mut out, rows.len());
    out
}

// ---------------------------------------------------------------------------
// Tables
// ---------------------------------------------------------------------------
/// What `comfy_table::Table` shows of a header and rows in the preset of full lines.
pub uninterp spec fn boxed(header: Seq<Seq<char>>, rows: Seq<Seq<Seq<char>>>) -> Seq<char>;

pub open spec fn cells_views(rows: Seq<Vec<String>>) -> Seq<Seq<Seq<char>>> {
    rows.map_values(|r: Vec<String>| views(r@))
}

/// The `Display` of `comfy_table::Table` with a header and rows in the preset of full
/// lines, its columns as wide as they need: the text is a function of the header and the
/// rows.
#[verifier::external_body]
fn boxed_table(header: &Vec<String>, rows: &Vec<Vec<String>>) -> (r: String)
    ensures
        r@ == boxed(views(header@), cells_views(rows@)),
{
    let mut table = Table::new();
    table.load_preset(UTF8_FULL);
    table.set_header(header.clone());
    table.add_rows(rows.clone());
    table.to_string()
}

pub open spec fn row_cells(columns: Seq<Seq<char>>, row: JsonV) -> Seq<Seq<char>> {
    columns.map_values(|c: Seq<char>| cell_of(row, c))
}

fn cells_of(columns: &Vec<String>, row: &Json) -> (r: Vec<String>)
    ensures
        views(r@) == row_cells(views(columns@), row@),
{
    let ghost all = row_cells(views(columns@), row@);
    let mut out: Vec<String> = Vec::new();
    let mut i: usize = 0;
    assert(views(out@) =~= all.take(0));
    while i < columns.len()
        invariant
            i <= columns@.len(),
            all == row_cells(views(columns@), row@),
            views(out@) == all.take(i as int),
        decreases columns@.len() - i,
    {
        let ghost before = views(out@);
        let cell = table_cell_value(&row.at_or_null(columns[i].as_str()));
        let ghost next = cell@;
        out.push(cell);
        assert(views(out@) =~= before.push(next));
        assert(all[i as int] == next);
        assert(all.take(i as int + 1) =~= before.push(next));
        i += 1;
    }
    assert(all.take(i as int) =~= all);
    out
}

/// The rows of a result in a table, and their number.
pub open spec fn table_text(value: JsonV) -> Seq<char> {
    let columns = columns_of(value);
    let rows = value.items_at("rows"@);
    boxed(columns, rows.map_values(|r: JsonV| row_cells(columns, r))) + "\n"@ + row_count(
        rows.len(),
    )
}

pub fn table_result_text(value: &Json) -> (r: String)
    ensures
        r@ == table_text(value@),
{
    let columns = column_names(value);
    let rows = value.items_at("rows");
    let ghost names = views(columns@);
    let ghost all = items_view(rows@).map_values(|r: JsonV| row_cells(names, r));
    let mut cells: Vec<Vec<String>> = Vec::new();
    let mut i: usize = 0;
    assert(cells_views(cells@) =~= all.take(0));
    while i < rows.len()
        invariant
            i <= rows@.len(),
            names == views(columns@),
            all == items_view(rows@).map_values(|r: JsonV| row_cells(names, r)),
            cells_views(cells@) == all.take(i as int),
        decreases rows@.len() - i,
    {
        let ghost before = cells_views(cells@);
        let row = cells_of(&columns, &rows[i]);
        let ghost next = views(row@);
        cells.push(row);
        assert(cells_views(cells@) =~= before.push(next));
        assert(all[i as int] == next);
        assert(all.take(i as int + 1) =~= before.push(next));
        i += 1;
    }
    assert(all.take(i as int) =~= all);
    let mut out = boxed_table(&columns, &cells);
    out.push_str("\n");
    push_count(&mut out, rows.len());
    out
}

// ---------------------------------------------------------------------------
// Modes
// ---------------------------------------------------------------------------
/// What is printed of the result of a query.
pub fn print_query_result(value: &Json, mode: OutputMode, expanded: bool) -> (r: String)
    ensures
        r@ == (match mode {
            OutputMode::Human => result_text(value@),
            OutputMode::Json => json_print_pretty(output_value(value@)) + "\n"@,
            OutputMode::Yaml => yaml_print(output_value(value@)),
            OutputMode::Csv => csv_text(value@),
            OutputMode::Table => if expanded {
                expanded_text(value@)
            } else {
                table_text(value@)
            },
        }),
{
    match mode {
        OutputMode::Human => human_query_result_text(value),
        OutputMode::Json => json_output_text(value),
        OutputMode::Yaml => print_yaml(&structured_output(value)),
        OutputMode::Csv => csv_result_text(value),
        OutputMode::Table => if expanded {
            expanded_result_text(value)
        } else {
            table_result_text(value)
        },
    }
}

/// What is printed of any other value.
pub fn print_session_value(value: &Json, mode: OutputMode) -> (r: String)
    ensures
        match mode {
            OutputMode::Human => r@ == value_text(value@),
            OutputMode::Json => r@ == json_print_pretty(output_value(value@)) + "\n"@,
            OutputMode::Yaml => r@ == yaml_print(output_value(value@)),
            _ => is_generic_table(r@, value@),
        },
{
    match mode {
        OutputMode::Human => human_value_text(value),
        OutputMode::Json => json_output_text(value),
        OutputMode::Yaml => print_yaml(&structured_output(value)),
        _ => generic_table_text(value),
    }
}

} // verus!
