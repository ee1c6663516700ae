//! CSV as records of fields, read and written by the `csv` crate.

use crate::error::ParseError;
use crate::text::{chars_of, string_of, texts};
use vstd::prelude::*;

verus! {

/// A `csv::Writer` over a buffer of bytes.
#[verifier::external_body]
pub struct RecordWriter {
    inner: csv::Writer<Vec<u8>>,
}

/// The fields that a record of strings holds.
pub open spec fn fields_view(record: Seq<String>) -> Seq<Seq<char>> {
    record.map_values(|f: String| f@)
}

/// The records that a list of records of strings holds.
pub open spec fn records_view(records: Seq<Vec<String>>) -> Seq<Seq<Seq<char>>> {
    records.map_values(|r: Vec<String>| fields_view(r@))
}

/// The records that a list of records of texts holds.
pub open spec fn cells(rows: Seq<Vec<Vec<char>>>) -> Seq<Seq<Seq<char>>> {
    rows.map_values(|r: Vec<Vec<char>>| texts(r@))
}

/// The records that the `csv` crate reads from a text, without a header row
/// and with any number of fields in a record; where it fails, the reason
/// that it gives.
pub uninterp spec fn csv_records(content: Seq<char>) -> Result<Seq<Seq<Seq<char>>>, Seq<char>>;

/// The records that a writer has been given.
pub uninterp spec fn written_records(writer: RecordWriter) -> Seq<Seq<Seq<char>>>;

/// The text that the `csv` crate makes of records, with any number of
/// fields in a record.
pub uninterp spec fn csv_document(records: Seq<Seq<Seq<char>>>) -> Seq<u8>;

/// `csv::Reader::records` over the text, with `has_headers` off and
/// `flexible` on: all records with their fields, or the reason of the
/// failure.
#[verifier::external_body]
pub(crate) fn read_all(content: &str) -> (r: Result<Vec<Vec<String>>, String>)
    ensures
        match r {
            Ok(records) => csv_records(content@) == Ok::<Seq<Seq<Seq<char>>>, Seq<char>>(
                records_view(records@),
            ),
            Err(reason) => csv_records(content@) == Err::<Seq<Seq<Seq<char>>>, Seq<char>>(reason@),
        },
{
    let mut reader = csv::ReaderBuilder::new().has_headers(false).flexible(true).from_reader(
        content.as_bytes(),
    );
    reader.records().map(|r| r.map(|f| f.iter().map(String::from).collect())).collect::<
        Result<Vec<Vec<String>>, csv::Error>,
    >().map_err(|e| e.to_string())
}

/// `csv::WriterBuilder::from_writer` over an empty buffer, with `flexible`
/// on.
#[verifier::external_body]
pub(crate) fn open_writer() -> (writer: RecordWriter)
    ensures
        written_records(writer) == Seq::<Seq<Seq<char>>>::empty(),
{
    RecordWriter { inner: csv::WriterBuilder::new().flexible(true).from_writer(Vec::new()) }
}

/// `csv::Writer::write_record`: one more record. With `flexible` on, the
/// writer fails only where its sink does, and a buffer of bytes takes all
/// that is written to it.
#[verifier::external_body]
pub(crate) fn write_record(writer: &mut RecordWriter, record: &Vec<String>) -> (r: Result<
    (),
    String,
>)
    ensures
        r is Ok,
        written_records(*final(writer)) == written_records(*old(writer)).push(
            fields_view(record@),
        ),
{
    writer.inner.write_record(record).map_err(|e| e.to_string())
}

/// `csv::Writer::into_inner`: the text made of the records given. It fails
/// only where flushing to the sink does, and a buffer of bytes takes all
/// that is written to it.
#[verifier::external_body]
pub(crate) fn close_writer(writer: RecordWriter) -> (r: Result<Vec<u8>, String>)
    ensures
        r is Ok,
        r matches Ok(bytes) ==> bytes@ == csv_document(written_records(writer)),
{
    writer.inner.into_inner().map_err(|e| e.to_string())
}

/// The records of a text as rows of texts.
pub fn read_rows(content: &str) -> (r: Result<Vec<Vec<Vec<char>>>, ParseError>)
    ensures
        match r {
            Ok(rows) => csv_records(content@) == Ok::<Seq<Seq<Seq<char>>>, Seq<char>>(cells(rows@)),
            Err(e) => csv_records(content@) is Err && e@ == crate::error::ErrorView::CsvError(
                csv_records(content@)->Err_0,
            ),
        },
{
    let records = match read_all(content) {
        Ok(r) => r,
        Err(reason) => {
            return Err(ParseError::CsvError(reason));
        },
    };
    let mut rows: Vec<Vec<Vec<char>>> = Vec::new();
    let mut i: usize = 0;
    assert(cells(rows@) =~= records_view(records@.take(0)));
    while i < records.len()
        invariant
            i <= records.len(),
            cells(rows@) == records_view(records@.take(i as int)),
        decreases records.len() - i,
    {
        let ghost before = cells(rows@);
        let record = &records[i];
        let mut row: Vec<Vec<char>> = Vec::new();
        let mut j: usize = 0;
        assert(texts(row@) =~= fields_view(record@.take(0)));
        while j < record.len()
            invariant
                j <= record.len(),
                texts(row@) == fields_view(record@.take(j as int)),
            decreases record.len() - j,
        {
            let ghost earlier = texts(row@);
            row.push(chars_of(record[j].as_str()));
            j += 1;
            assert(texts(row@) =~= earlier.push(record@[j - 1]@));
            assert(fields_view(record@.take(j as int)) =~= fields_view(record@.take(j - 1)).push(
                record@[j - 1]@,
            ));
        }
        assert(record@.take(j as int) =~= record@);
        rows.push(row);
        i += 1;
        assert(cells(rows@) =~= before.push(fields_view(record@)));
        assert(records_view(records@.take(i as int)) =~= records_view(records@.take(i - 1)).push(
            fields_view(records@[i - 1]@),
        ));
    }
    assert(records@.take(i as int) =~= records@);
    Ok(rows)
}

/// The text that the rows make.
pub fn write_rows(rows: &Vec<Vec<Vec<char>>>) -> (r: Result<Vec<u8>, ParseError>)
    ensures
        r matches Ok(bytes) && bytes@ == csv_document(cells(rows@)),
{
    let mut writer = open_writer();
    let mut i: usize = 0;
    assert(cells(rows@.take(0)) =~= Seq::<Seq<Seq<char>>>::empty());
    while i < rows.len()
        invariant
            i <= rows.len(),
            written_records(writer) == cells(rows@.take(i as int)),
        decreases rows.len() - i,
    {
        let row = &rows[i];
        let mut record: Vec<String> = Vec::new();
        let mut j: usize = 0;
        assert(fields_view(record@) =~= texts(row@.take(0)));
        while j < row.len()
            invariant
                j <= row.len(),
                fields_view(record@) == texts(row@.take(j as int)),
            decreases row.len() - j,
        {
            let ghost earlier = fields_view(record@);
            record.push(string_of(row[j].as_slice()));
            j += 1;
            assert(fields_view(record@) =~= earlier.push(row@[j - 1]@));
            assert(texts(row@.take(j as int)) =~= texts(row@.take(j - 1)).push(row@[j - 1]@));
        }
        assert(row@.take(j as int) =~= row@);
        match write_record(&mut writer, &record) {
            Ok(_) => {},
            Err(reason) => {
                return Err(ParseError::CsvError(reason));
            },
        }
        i += 1;
        assert(cells(rows@.take(i as int)) =~= cells(rows@.take(i - 1)).push(texts(rows@[i - 1]@)));
    }
    assert(rows@.take(i as int) =~= rows@);
    match close_writer(writer) {
        Ok(bytes) => Ok(bytes),
        Err(reason) => Err(ParseError::CsvError(reason)),
    }
}

} // verus!
