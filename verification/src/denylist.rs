//! Reading the denylist from a tab-separated document.
//!
//! The document has a header row, one of whose columns is named `Entity`.
//! Each row's cell in that column may hold an address, written as `0x` and
//! hexadecimal digits; rows whose cell holds anything else are passed over.

use crate::address::{views_of, Address, AddressSet};
use crate::base16::{is_hex, is_hex_digit, lemma_hex_ignores_case, same_text_ignoring_case};
use crate::text::{is_white_space, same_text, trim, trim_end, trim_start, trim_text};
use crate::utils::{address_from_digits, address_of_digits};
use vstd::prelude::*;
use vstd::string::*;

verus! {

/// Why no denylist could be read from a document.
#[derive(Debug, Clone, Copy, PartialEq, Eq, Structural)]
pub enum LoadError {
    /// The document cannot be read as tab-separated rows.
    Unreadable,
    /// The header row has no column named `Entity`.
    MissingEntityColumn,
    /// No row of the document holds an address.
    EmptyDenylist,
}

/// The error of the `csv` crate, carried through unread.
#[verifier::external_type_specification]
#[verifier::external_body]
pub struct ExCsvError(csv::Error);

/// The fields of the header row that `csv::Reader::headers` reads from a
/// tab-separated document, or `None` where it reports an error.
pub uninterp spec fn tsv_header(text: Seq<char>) -> Option<Seq<Seq<char>>>;

/// The fields of the rows behind the header row that `csv::Reader::records`
/// reads from a tab-separated document, or `None` where it reports an error
/// in any of them.
pub uninterp spec fn tsv_rows(text: Seq<char>) -> Option<Seq<Seq<Seq<char>>>>;

/// Reads the header row with `csv::Reader::headers`, from a reader built by
/// `csv::ReaderBuilder` with the tab as delimiter and with headers. The
/// result depends on the text alone.
#[verifier::external_body]
fn read_header(text: &str) -> (r: Result<Vec<String>, csv::Error>)
    ensures
        r matches Ok(fields) ==> tsv_header(text@) == Some(fields.deep_view()),
        r is Err ==> tsv_header(text@) is None,
{
    let mut reader = csv::ReaderBuilder::new().delimiter(b'\t').has_headers(true).from_reader(
        text.as_bytes(),
    );
    reader.headers().map(|header| header.iter().map(String::from).collect())
}

/// Reads the rows behind the header row with `csv::Reader::records`, from a
/// reader built in the same way, up to the first error. The result depends
/// on the text alone.
#[verifier::external_body]
fn read_rows(text: &str) -> (r: Result<Vec<Vec<String>>, csv::Error>)
    ensures
        r matches Ok(rows) ==> tsv_rows(text@) == Some(rows.deep_view()),
        r is Err ==> tsv_rows(text@) is None,
{
    let mut reader = csv::ReaderBuilder::new().delimiter(b'\t').has_headers(true).from_reader(
        text.as_bytes(),
    );
    let rows = reader.records();
    rows.map(|row| row.map(|record| record.iter().map(String::from).collect())).collect()
}

/// What a cell of the address column is found to hold.
#[derive(Debug, Clone, Copy, PartialEq, Eq)]
pub enum CellKind {
    /// Nothing but white space.
    Empty,
    /// Text that does not begin with `0x`.
    NoPrefix,
    /// `0x` and text that spells no address.
    NotHex,
    /// An address.
    Address(Address),
}

/// A [`CellKind`] with the address as plain bytes.
pub enum Cell {
    Empty,
    NoPrefix,
    NotHex,
    Address(Seq<u8>),
}

impl View for CellKind {
    type V = Cell;

    open spec fn view(&self) -> Cell {
        match *self {
            CellKind::Empty => Cell::Empty,
            CellKind::NoPrefix => Cell::NoPrefix,
            CellKind::NotHex => Cell::NotHex,
            CellKind::Address(a) => Cell::Address(a@),
        }
    }
}

/// What an entry holds, a cell without the white space around it: the empty
/// entry holds nothing; any other must begin with `0x`, and what follows
/// must be hexadecimal digits that spell an address, as
/// [`address_of_digits`] says.
pub open spec fn entry_kind(entry: Seq<char>) -> Cell {
    if entry.len() == 0 {
        Cell::Empty
    } else if !(entry.len() >= 2 && entry[0] == '0' && entry[1] == 'x') {
        Cell::NoPrefix
    } else {
        match address_of_digits(entry.skip(2)) {
            None => Cell::NotHex,
            Some(a) => Cell::Address(a),
        }
    }
}

/// What a cell holds: what its entry holds, see [`entry_kind`].
pub open spec fn cell_kind(cell: Seq<char>) -> Cell {
    entry_kind(trim(cell))
}

/// The address that a cell holds, if it holds one.
pub open spec fn cell_address(cell: Seq<char>) -> Option<Seq<u8>> {
    match cell_kind(cell) {
        Cell::Address(a) => Some(a),
        _ => None,
    }
}

/// Why a cell that is not empty gave no address.
#[derive(Debug, Clone, Copy, PartialEq, Eq, Structural)]
pub enum SkipReason {
    /// The entry does not begin with `0x`.
    NoPrefix,
    /// The entry spells no address behind `0x`.
    NotHex,
}

/// A cell that was passed over: the number of its row among the rows behind
/// the header, counted from zero, the reason, and the entry.
#[derive(Debug, PartialEq, Eq)]
pub struct Skipped {
    pub row: usize,
    pub reason: SkipReason,
    pub entry: String,
}

/// A [`Skipped`] as plain values.
pub struct SkippedEntry {
    pub row: int,
    pub reason: SkipReason,
    pub entry: Seq<char>,
}

impl View for Skipped {
    type V = SkippedEntry;

    open spec fn view(&self) -> SkippedEntry {
        SkippedEntry { row: self.row as int, reason: self.reason, entry: self.entry@ }
    }
}

/// The cells that were passed over, each as plain values, in their order.
pub open spec fn skipped_views(skipped: Seq<Skipped>) -> Seq<SkippedEntry> {
    Seq::new(skipped.len(), |i: int| skipped[i]@)
}

/// The report on the cell that the row of the given number holds in the
/// given column, where that cell is passed over for a reason.
pub open spec fn row_skipped(row: Seq<Seq<char>>, column: int, number: int) -> Option<
    SkippedEntry,
> {
    if 0 <= column < row.len() {
        let entry = trim(row[column]);
        match cell_kind(row[column]) {
            Cell::NoPrefix => Some(
                SkippedEntry { row: number, reason: SkipReason::NoPrefix, entry },
            ),
            Cell::NotHex => Some(SkippedEntry { row: number, reason: SkipReason::NotHex, entry }),
            _ => None,
        }
    } else {
        None
    }
}

/// The reports on the cells of the given column that are passed over for a
/// reason, in the order of the rows.
pub open spec fn column_skipped(rows: Seq<Seq<Seq<char>>>, column: int) -> Seq<SkippedEntry>
    decreases rows.len(),
{
    if rows.len() == 0 {
        Seq::empty()
    } else {
        let before = column_skipped(rows.drop_last(), column);
        match row_skipped(rows.last(), column, rows.len() - 1) {
            Some(report) => before.push(report),
            None => before,
        }
    }
}

/// The address that a row holds in the given column. A row that is too
/// short to have the column holds none.
pub open spec fn row_address(row: Seq<Seq<char>>, column: int) -> Option<Seq<u8>> {
    if 0 <= column < row.len() {
        cell_address(row[column])
    } else {
        None
    }
}

/// The addresses that rows hold in the given column, in the order of the
/// rows. A row that holds none adds nothing.
pub open spec fn column_entries(rows: Seq<Seq<Seq<char>>>, column: int) -> Seq<Seq<u8>>
    decreases rows.len(),
{
    if rows.len() == 0 {
        Seq::empty()
    } else {
        let before = column_entries(rows.drop_last(), column);
        match row_address(rows.last(), column) {
            Some(a) => before.push(a),
            None => before,
        }
    }
}

/// The first column with the given name, if there is one.
pub open spec fn column_named(header: Seq<Seq<char>>, name: Seq<char>) -> Option<int>
    decreases header.len(),
{
    if header.len() == 0 {
        None
    } else if header.last() == name && column_named(header.drop_last(), name) is None {
        Some(header.len() - 1)
    } else {
        column_named(header.drop_last(), name)
    }
}

/// The denylist that a header row and the rows behind it give: the
/// addresses in the first column named `Entity`. A header without that
/// column is an error, and so are rows that hold no address at all: there is
/// no screening against an empty denylist.
pub open spec fn denylist_of(header: Seq<Seq<char>>, rows: Seq<Seq<Seq<char>>>) -> Result<
    Set<Seq<u8>>,
    LoadError,
> {
    match column_named(header, "Entity"@) {
        None => Err(LoadError::MissingEntityColumn),
        Some(column) => if column_entries(rows, column).len() == 0 {
            Err(LoadError::EmptyDenylist)
        } else {
            Ok(column_entries(rows, column).to_set())
        },
    }
}

/// The denylist that a tab-separated document gives. The rows are read
/// only where the header row has the column named `Entity`.
pub open spec fn denylist_of_document(text: Seq<char>) -> Result<Set<Seq<u8>>, LoadError> {
    match tsv_header(text) {
        None => Err(LoadError::Unreadable),
        Some(header) => if column_named(header, "Entity"@) is None {
            Err(LoadError::MissingEntityColumn)
        } else {
            match tsv_rows(text) {
                None => Err(LoadError::Unreadable),
                Some(rows) => denylist_of(header, rows),
            }
        },
    }
}

/// The reports on the cells that are passed over for a reason where a
/// denylist is read from a header row and the rows behind it.
pub open spec fn skipped_of(header: Seq<Seq<char>>, rows: Seq<Seq<Seq<char>>>) -> Seq<
    SkippedEntry,
> {
    match column_named(header, "Entity"@) {
        None => Seq::empty(),
        Some(column) => column_skipped(rows, column),
    }
}

/// The reports on the cells that are passed over for a reason where a
/// denylist is read from a tab-separated document.
pub open spec fn skipped_of_document(text: Seq<char>) -> Seq<SkippedEntry> {
    match (tsv_header(text), tsv_rows(text)) {
        (Some(header), Some(rows)) => skipped_of(header, rows),
        _ => Seq::empty(),
    }
}

/// Tells what an entry holds, a cell without the white space around it.
pub fn classify_entry(entry: &str) -> (k: CellKind)
    ensures
        k@ == entry_kind(entry@),
{
    let n = entry.unicode_len();
    if n == 0 {
        return CellKind::Empty;
    }
    if n < 2 || entry.get_char(0) != '0' || entry.get_char(1) != 'x' {
        return CellKind::NoPrefix;
    }
    let digits = entry.substring_char(2, n);
    assert(digits@ =~= entry@.skip(2));
    match address_from_digits(digits) {
        None => CellKind::NotHex,
        Some(a) => CellKind::Address(a),
    }
}

/// Tells what a cell holds.
pub fn classify_cell(cell: &str) -> (k: CellKind)
    ensures
        k@ == cell_kind(cell@),
{
    classify_entry(trim_text(cell))
}

/// Reads the address that a cell holds, if it holds one.
pub fn parse_cell(cell: &str) -> (r: Option<Address>)
    ensures
        r matches Some(a) ==> cell_address(cell@) == Some(a@),
        r is None ==> cell_address(cell@) is None,
{
    match classify_cell(cell) {
        CellKind::Address(a) => Some(a),
        _ => None,
    }
}

/// Finds the first column with the given name.
pub fn find_column(header: &Vec<String>, name: &str) -> (r: Option<usize>)
    ensures
        r matches Some(i) ==> column_named(header.deep_view(), name@) == Some(i as int),
        r is None ==> column_named(header.deep_view(), name@) is None,
{
    let ghost fields = header.deep_view();
    let mut i: usize = 0;
    while i < header.len()
        invariant
            i <= header@.len(),
            fields == header.deep_view(),
            column_named(fields.take(i as int), name@) is None,
        decreases header@.len() - i,
    {
        proof {
            assert(fields.take(i + 1).drop_last() =~= fields.take(i as int));
            assert(fields.take(i + 1).last() == header@[i as int]@);
        }
        if same_text(header[i].as_str(), name) {
            proof {
                lemma_column_found(fields, name@, i as int);
            }
            return Some(i);
        }
        i += 1;
    }
    assert(fields.take(i as int) =~= fields);
    None
}

/// A column that is the first of its name among the columns up to it is the
/// first of its name in the whole header.
proof fn lemma_column_found(header: Seq<Seq<char>>, name: Seq<char>, i: int)
    requires
        0 <= i < header.len(),
        column_named(header.take(i + 1), name) == Some(i),
    ensures
        column_named(header, name) == Some(i),
    decreases header.len(),
{
    if header.len() > i + 1 {
        assert(header.drop_last().take(i + 1) =~= header.take(i + 1));
        lemma_column_found(header.drop_last(), name, i);
    } else {
        assert(header.take(i + 1) =~= header);
    }
}

/// What was read from one column: the addresses, and the cells that were
/// passed over for a reason.
#[derive(Debug)]
pub struct Column {
    pub entries: Vec<Address>,
    pub skipped: Vec<Skipped>,
}

/// What came of reading a denylist: the list or the reason why there is
/// none, and in either case the cells that were passed over for a reason.
#[derive(Debug)]
pub struct Loaded {
    pub list: Result<AddressSet, LoadError>,
    pub skipped: Vec<Skipped>,
}

impl Loaded {
    /// The addresses of the list that was read, or the reason why there is
    /// none.
    pub open spec fn addresses(self) -> Result<Set<Seq<u8>>, LoadError> {
        match self.list {
            Ok(set) => Ok(set@),
            Err(e) => Err(e),
        }
    }
}

/// Reads the addresses that rows hold in the given column, and reports the
/// cells that are passed over for a reason.
pub fn collect_column(rows: &Vec<Vec<String>>, column: usize) -> (read: Column)
    ensures
        views_of(read.entries@) == column_entries(rows.deep_view(), column as int),
        skipped_views(read.skipped@) == column_skipped(rows.deep_view(), column as int),
{
    let ghost all = rows.deep_view();
    let mut entries: Vec<Address> = Vec::new();
    let mut skipped: Vec<Skipped> = Vec::new();
    let mut i: usize = 0;
    assert(views_of(entries@) =~= column_entries(all.take(0), column as int));
    assert(skipped_views(skipped@) =~= column_skipped(all.take(0), column as int));
    while i < rows.len()
        invariant
            i <= rows@.len(),
            all == rows.deep_view(),
            views_of(entries@) == column_entries(all.take(i as int), column as int),
            skipped_views(skipped@) == column_skipped(all.take(i as int), column as int),
        decreases rows@.len() - i,
    {
        let row = &rows[i];
        let ghost before = entries@;
        let ghost reports = skipped@;
        proof {
            assert(all[i as int] == row.deep_view());
            assert(all.take(i + 1).drop_last() =~= all.take(i as int));
            assert(all.take(i + 1).last() == all[i as int]);
            assert(all.take(i + 1).len() - 1 == i);
        }
        if column < row.len() {
            assert(all[i as int][column as int] == row@[column as int]@);
            let entry = trim_text(row[column].as_str());
            match classify_entry(entry) {
                CellKind::Address(a) => {
                    entries.push(a);
                    assert(views_of(entries@) =~= views_of(before).push(a@));
                },
                CellKind::NoPrefix => {
                    let report = Skipped {
                        row: i,
                        reason: SkipReason::NoPrefix,
                        entry: entry.to_owned(),
                    };
                    skipped.push(report);
                    assert(skipped_views(skipped@) =~= skipped_views(reports).push(report@));
                },
                CellKind::NotHex => {
                    let report = Skipped {
                        row: i,
                        reason: SkipReason::NotHex,
                        entry: entry.to_owned(),
                    };
                    skipped.push(report);
                    assert(skipped_views(skipped@) =~= skipped_views(reports).push(report@));
                },
                CellKind::Empty => {},
            }
        }
        i += 1;
    }
    assert(all.take(i as int) =~= all);
    Column { entries, skipped }
}

/// Builds the denylist from a header row and the rows behind it.
pub fn denylist_from_rows(header: &Vec<String>, rows: &Vec<Vec<String>>) -> (loaded: Loaded)
    ensures
        loaded.addresses() == denylist_of(header.deep_view(), rows.deep_view()),
        skipped_views(loaded.skipped@) == skipped_of(header.deep_view(), rows.deep_view()),
{
    let column = match find_column(header, "Entity") {
        None => {
            return failed(LoadError::MissingEntityColumn);
        },
        Some(column) => column,
    };
    let read = collect_column(rows, column);
    if read.entries.len() == 0 {
        Loaded { list: Err(LoadError::EmptyDenylist), skipped: read.skipped }
    } else {
        Loaded { list: Ok(AddressSet::from_vec(read.entries)), skipped: read.skipped }
    }
}

/// A reading that failed before any cell was looked at.
fn failed(e: LoadError) -> (loaded: Loaded)
    ensures
        loaded.list == Err::<AddressSet, LoadError>(e),
        skipped_views(loaded.skipped@) == Seq::<SkippedEntry>::empty(),
{
    let skipped: Vec<Skipped> = Vec::new();
    assert(skipped_views(skipped@) =~= Seq::<SkippedEntry>::empty());
    Loaded { list: Err(e), skipped }
}

/// Reads the denylist from a tab-separated document.
pub fn parse_alert_list(text: &str) -> (loaded: Loaded)
    ensures
        loaded.addresses() == denylist_of_document(text@),
        skipped_views(loaded.skipped@) == skipped_of_document(text@),
{
    let header = match read_header(text) {
        Err(_) => {
            return failed(LoadError::Unreadable);
        },
        Ok(header) => header,
    };
    if find_column(&header, "Entity").is_none() {
        return failed(LoadError::MissingEntityColumn);
    }
    match read_rows(text) {
        Err(_) => failed(LoadError::Unreadable),
        Ok(rows) => denylist_from_rows(&header, &rows),
    }
}

/// The addresses read from a column are exactly those that its rows hold:
/// none is lost and none is made up.
pub proof fn lemma_column_entries_are_the_row_addresses(
    rows: Seq<Seq<Seq<char>>>,
    column: int,
    a: Seq<u8>,
)
    ensures
        column_entries(rows, column).contains(a) <==> exists|i: int|
            0 <= i < rows.len() && #[trigger] row_address(rows[i], column) == Some(a),
    decreases rows.len(),
{
    if rows.len() > 0 {
        let before = rows.drop_last();
        let last = rows.len() - 1;
        lemma_column_entries_are_the_row_addresses(before, column, a);
        let entries = column_entries(rows, column);
        let earlier = column_entries(before, column);
        if entries.contains(a) {
            let k = choose|k: int| 0 <= k < entries.len() && entries[k] == a;
            if k < earlier.len() {
                assert(earlier[k] == a);
                let i = choose|i: int|
                    0 <= i < before.len() && #[trigger] row_address(before[i], column) == Some(a);
                assert(rows[i] == before[i]);
            } else {
                assert(row_address(rows[last], column) == Some(a));
            }
        }
        if exists|i: int|
            0 <= i < rows.len() && #[trigger] row_address(rows[i], column) == Some(a) {
            let i = choose|i: int|
                0 <= i < rows.len() && #[trigger] row_address(rows[i], column) == Some(a);
            if i < last {
                assert(before[i] == rows[i]);
                assert(earlier.contains(a));
                let k = choose|k: int| 0 <= k < earlier.len() && earlier[k] == a;
                assert(entries[k] == a);
            } else {
                assert(entries[entries.len() - 1] == a);
            }
        }
    }
}

/// A denylist entry and a recipient whose digits differ at most in the case
/// of their letters stand for the same address.
pub proof fn lemma_entry_matches_in_any_case(entry_digits: Seq<char>, to_digits: Seq<char>)
    requires
        is_hex(to_digits),
        to_digits.len() > 0,
        same_text_ignoring_case(entry_digits, to_digits),
    ensures
        cell_address(seq!['0', 'x'] + entry_digits) == address_of_digits(to_digits),
        address_of_digits(to_digits) is Some,
{
    let entry = seq!['0', 'x'] + entry_digits;
    lemma_hex_ignores_case(entry_digits, to_digits);
    assert(!is_white_space(entry[0]));
    assert(trim_start(entry) == entry);
    if entry_digits.len() > 0 {
        assert(entry.last() == entry_digits.last());
        assert(is_hex_digit(entry_digits[entry_digits.len() - 1]));
    } else {
        assert(entry.last() == 'x');
    }
    assert(!is_white_space(entry.last()));
    assert(trim_end(entry) == entry);
    assert(entry.skip(2) =~= entry_digits);
}

impl LoadError {
    /// What went wrong, in words.
    pub fn message(&self) -> (text: String)
        ensures
            text@ == match *self {
                LoadError::Unreadable => "unreadable document"@,
                LoadError::MissingEntityColumn => "missing Entity column"@,
                LoadError::EmptyDenylist => "empty denylist"@,
            },
    {
        match self {
            LoadError::Unreadable => "unreadable document".to_owned(),
            LoadError::MissingEntityColumn => "missing Entity column".to_owned(),
            LoadError::EmptyDenylist => "empty denylist".to_owned(),
        }
    }
}

} // verus!
