//! The text of the `list` command: the services as plain lines or as a
//! table.

use vstd::prelude::*;
use vstd::string::StringExecFns;
use crate::listing::{ServiceRecord, ServiceRecordView};
use crate::numeral::{decimal, decimal_text, push_decimal};

verus! {

/// How a truth value is shown.
pub open spec fn bool_text(b: bool) -> Seq<char> {
    if b {
        "true"@
    } else {
        "false"@
    }
}

/// What a record is shown as, field by field: the name, whether the service
/// is active, whether it is enabled, and its memory in bytes.
pub open spec fn fields(record: ServiceRecordView) -> Seq<Seq<char>> {
    seq![
        record.name,
        bool_text(record.is_active),
        bool_text(record.is_enabled),
        decimal(record.memory as nat),
    ]
}

/// The line of one record in the raw format: its fields with one blank
/// between them.
pub open spec fn raw_line(record: ServiceRecordView) -> Seq<char> {
    record.name + " "@ + bool_text(record.is_active) + " "@ + bool_text(record.is_enabled) + " "@
        + decimal(record.memory as nat)
}

/// The lines of the records in the raw format, one for each record.
pub open spec fn raw_lines(records: Seq<ServiceRecordView>) -> Seq<Seq<char>> {
    Seq::new(records.len(), |i: int| raw_line(records[i]))
}

/// The first row of the table: the names of the fields.
pub open spec fn table_header() -> Seq<Seq<char>> {
    seq!["name"@, "is_active"@, "is_enabled"@, "memory"@]
}

/// The rows of the table: the header, then the fields of each record.
pub open spec fn table_rows(records: Seq<ServiceRecordView>) -> Seq<Seq<Seq<char>>> {
    seq![table_header()] + Seq::new(records.len(), |i: int| fields(records[i]))
}

/// Trusted: the text that the `tabled` crate draws the table with these rows
/// as, in its default style.
pub uninterp spec fn table_text(rows: Seq<Seq<Seq<char>>>) -> Seq<char>;

/// Trusted: calls `Builder::from`, `Builder::build` and the `to_string` of
/// `Table`, all of `tabled`. The text depends on the rows alone.
#[verifier::external_body]
fn draw_table(rows: Vec<Vec<String>>) -> (text: String)
    ensures
        text@ == table_text(rows.deep_view()),
{
    tabled::builder::Builder::from(rows).build().to_string()
}

/// How a truth value is shown.
fn bool_word(b: bool) -> (word: &'static str)
    ensures
        word@ == bool_text(b),
{
    if b {
        "true"
    } else {
        "false"
    }
}

/// The line of one record in the raw format.
pub fn raw_line_of(record: &ServiceRecord) -> (line: String)
    ensures
        line@ == raw_line(record@),
{
    let mut line = record.name.clone();
    line.append(" ");
    line.append(bool_word(record.is_active));
    line.append(" ");
    line.append(bool_word(record.is_enabled));
    line.append(" ");
    push_decimal(&mut line, record.memory);
    line
}

/// The fields of one record as the table shows them.
fn fields_of(record: &ServiceRecord) -> (row: Vec<String>)
    ensures
        row.deep_view() == fields(record@),
{
    let mut row: Vec<String> = Vec::new();
    row.push(record.name.clone());
    row.push(bool_word(record.is_active).to_owned());
    row.push(bool_word(record.is_enabled).to_owned());
    row.push(decimal_text(record.memory));
    row
}

/// The rows of the table of `services`.
pub fn table_rows_of(services: &Vec<ServiceRecord>) -> (rows: Vec<Vec<String>>)
    ensures
        rows.deep_view() == table_rows(services.deep_view()),
{
    let mut header: Vec<String> = Vec::new();
    header.push("name".to_owned());
    header.push("is_active".to_owned());
    header.push("is_enabled".to_owned());
    header.push("memory".to_owned());
    assert(header.deep_view() =~= table_header());
    let mut rows: Vec<Vec<String>> = Vec::new();
    rows.push(header);
    let n: usize = services.len();
    let mut i: usize = 0;
    while i < n
        invariant
            i <= n,
            n == services.len(),
            rows.deep_view() == table_rows(services.deep_view().take(i as int)),
        decreases n - i,
    {
        let ghost before = rows.deep_view();
        rows.push(fields_of(&services[i]));
        assert(rows.deep_view() =~= before.push(fields(services[i as int]@)));
        i += 1;
    }
    rows
}

/// The `list` command.
#[derive(Clone, Copy, Debug, PartialEq, Eq)]
pub struct List {
    raw: bool,
}

impl List {
    /// Whether the list is shown in the raw format.
    pub closed spec fn is_raw(&self) -> bool {
        self.raw
    }

    /// The command with the raw format switched on or off.
    pub fn new(raw: bool) -> (command: List)
        ensures
            command.is_raw() == raw,
    {
        List { raw }
    }

    /// Whether the list is shown in the raw format.
    pub fn raw(&self) -> (raw: bool)
        ensures
            raw == self.is_raw(),
    {
        self.raw
    }

    /// What the command prints for `services`, piece by piece; each piece is
    /// to be followed by a line feed. In the raw format there is one piece
    /// for each service, its line; otherwise there is one piece, the table
    /// of all services under a header.
    pub fn execute(&self, services: &Vec<ServiceRecord>) -> (pieces: Vec<String>)
        ensures
            self.is_raw() ==> pieces.deep_view() == raw_lines(services.deep_view()),
            !self.is_raw() ==> pieces.deep_view() == seq![
                table_text(table_rows(services.deep_view())),
            ],
    {
        let mut pieces: Vec<String> = Vec::new();
        if self.raw {
            let n: usize = services.len();
            let mut i: usize = 0;
            while i < n
                invariant
                    i <= n,
                    n == services.len(),
                    pieces.deep_view() == raw_lines(services.deep_view().take(i as int)),
                decreases n - i,
            {
                let ghost before = pieces.deep_view();
                pieces.push(raw_line_of(&services[i]));
                assert(pieces.deep_view() =~= before.push(raw_line(services[i as int]@)));
                i += 1;
            }
        } else {
            let table = draw_table(table_rows_of(services));
            pieces.push(table);
        }
        pieces
    }
}

} // verus!
