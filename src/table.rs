//! Delimited tables: the rows that the csv reader yields, and their
//! decoding into typed records.
use crate::fields::FieldError;
use vstd::prelude::*;

verus! {

/// A table as the csv reader yields it: the header row, if it can be read,
/// and each data row, or `None` where the reader rejects the row.
pub struct Table {
    pub header: Option<Vec<String>>,
    pub rows: Vec<Option<Vec<String>>>,
}

pub open spec fn row_view(r: Option<Vec<String>>) -> Option<Seq<String>> {
    match r {
        Some(v) => Some(v@),
        None => None,
    }
}

/// The header row and the data rows of a table.
pub type TableView = (Option<Seq<String>>, Seq<Option<Seq<String>>>);

impl View for Table {
    type V = TableView;

    open spec fn view(&self) -> TableView {
        (row_view(self.header), self.rows@.map_values(|r: Option<Vec<String>>| row_view(r)))
    }
}

/// What the csv reader yields on the given bytes.
pub uninterp spec fn csv_table(bytes: Seq<u8>) -> TableView;

/// Relies on csv::Reader over a byte slice, with its defaults (a header row,
/// comma separated, fields not trimmed): `headers` gives the header row and
/// `records` each data row; a row that the reader rejects, for a field count
/// unlike the header's or text that is not UTF-8, comes out as `None`: the
/// reader is not flexible, so every record has as many fields as the first.
#[verifier::external_body]
pub(crate) fn read_table(bytes: &[u8]) -> (r: Table)
    ensures
        r@ == csv_table(bytes@),
        r@.0 matches Some(h) ==> forall|i: int|
            0 <= i < r@.1.len() && #[trigger] r@.1[i] is Some ==> r@.1[i]->Some_0.len() == h.len(),
{
    let mut reader = csv::Reader::from_reader(bytes);
    let header = reader.headers().ok().map(|h| h.iter().map(String::from).collect());
    let rows = reader.records().map(|rec| rec.ok().map(|r| r.iter().map(String::from).collect())).collect();
    Table { header, rows }
}

/// A record type of a table, decoded from one row by the header's names.
pub trait Record: Sized {
    spec fn spec_decode(header: Seq<String>, row: Seq<String>) -> Result<Self, FieldError>;

    fn decode(header: &Vec<String>, row: &Vec<String>) -> (r: Result<Self, FieldError>)
        ensures
            r == Self::spec_decode(header@, row@),
    ;
}

/// The records of the rows that decode, in the order of the rows; a row that
/// the reader rejected or that does not decode is left out.
pub open spec fn decode_rows<T: Record>(header: Seq<String>, rows: Seq<Option<Seq<String>>>) -> Seq<T>
    decreases rows.len(),
{
    if rows.len() == 0 {
        Seq::empty()
    } else {
        let prev = decode_rows::<T>(header, rows.drop_last());
        match rows.last() {
            Some(row) => match T::spec_decode(header, row) {
                Ok(t) => prev.push(t),
                Err(_) => prev,
            },
            None => prev,
        }
    }
}

/// The records of a table; a table without a readable header row has none.
pub open spec fn decode_table<T: Record>(t: TableView) -> Seq<T> {
    match t.0 {
        Some(h) => decode_rows::<T>(h, t.1),
        None => Seq::empty(),
    }
}

/// The records of the table that `bytes` holds.
pub open spec fn records_of<T: Record>(bytes: Seq<u8>) -> Seq<T> {
    decode_table::<T>(csv_table(bytes))
}

pub fn decode_all<T: Record>(bytes: &[u8]) -> (r: Vec<T>)
    ensures
        r@ == records_of::<T>(bytes@),
{
    let table = read_table(bytes);
    let mut out: Vec<T> = Vec::new();
    match &table.header {
        None => {},
        Some(header) => {
            let ghost rows = table@.1;
            let mut i: usize = 0;
            while i < table.rows.len()
                invariant
                    i <= table.rows.len(),
                    rows == table@.1,
                    table@ == csv_table(bytes@),
                    table@.0 == Some(header@),
                    rows.len() == table.rows@.len(),
                    out@ == decode_rows::<T>(header@, rows.subrange(0, i as int)),
                decreases table.rows.len() - i,
            {
                let ghost sub = rows.subrange(0, i + 1);
                assert(sub.drop_last() =~= rows.subrange(0, i as int));
                assert(sub.last() == row_view(table.rows@[i as int]));
                match &table.rows[i] {
                    Some(row) => match T::decode(header, row) {
                        Ok(t) => out.push(t),
                        Err(_) => {},
                    },
                    None => {},
                }
                i = i + 1;
            }
            assert(rows.subrange(0, i as int) =~= rows);
        },
    }
    out
}

} // verus!
