//! Record-source adapters: turning CSV text and JSON text into schemas and
//! records. The outside parsers are called through trusted wrappers; every
//! decision about cells, types and per-record errors is made here and
//! verified.
//!
//! A text whose overall structure cannot be read (JSON that is not an array
//! of objects, a CSV text without a readable header row) is a fatal source
//! error: the schema cannot be established and no record is produced. A data
//! row that is malformed — at the CSV level or against the declared field
//! types — is a recoverable per-record error: the row is skipped, one error
//! is recorded, and the rest of the input is still processed.

use vstd::prelude::*;
use vstd::string::StrSliceExecFns;
use crate::record::{Schema, Record, FieldValue, FieldType};
use crate::aggregate::FieldError;
use crate::text::parsed_int;

verus! {

/// What the csv crate reads out of a text, record by record (headers treated
/// as an ordinary first row): the cells of each row that parses, nothing for
/// a row the crate reports as an error. A function of the text alone.
pub uninterp spec fn csv_rows_of(text: Seq<char>) -> Seq<Option<Seq<Seq<char>>>>;

/// The characters of each cell of one parsed row.
pub open spec fn cells_view(row: Seq<String>) -> Seq<Seq<char>> {
    row.map_values(|s: String| s@)
}

/// The characters of every cell of a parsed table, keeping the per-row
/// outcome (cells, or an error marker).
pub open spec fn opt_table_view(rows: Seq<Option<Vec<String>>>) -> Seq<Option<Seq<Seq<char>>>> {
    rows.map_values(
        |row: Option<Vec<String>>|
            match row {
                Some(cells) => Some(cells_view(cells@)),
                None => None,
            },
    )
}

/// Relies on csv::Reader (with headers off): its record iterator yields
/// every record of the text in order and keeps going past a record it
/// reports as an error (reading from an in-memory text, errors are
/// per-record, never fatal), so each entry is either the row's cells or an
/// error marker; the whole outcome is a function of the text alone.
#[verifier::external_body]
fn csv_parse_rows(text: &str) -> (r: Vec<Option<Vec<String>>>)
    ensures
        opt_table_view(r@) == csv_rows_of(text@),
{
    let mut rdr = csv::ReaderBuilder::new().has_headers(false).from_reader(text.as_bytes());
    rdr.records()
        .map(|rec| rec.ok().map(|sr| sr.iter().map(|cell| cell.to_string()).collect()))
        .collect()
}

/// A fatal problem with a source: the schema cannot be established, the run
/// aborts before any record is produced.
#[derive(Clone, Copy, Debug, PartialEq, Eq, Structural)]
pub enum SourceError {
    /// The text could not be read as a document at all (JSON that does not
    /// parse or is not an array).
    Malformed,
    /// The text holds no readable header row (no record at all, or a first
    /// row that does not parse).
    MissingHeader,
    /// The header width does not fit the declared field types.
    SchemaMismatch,
}

/// Whether one cell fits the declared field type: any text fits a text
/// field; a number field takes an empty cell (absent data) or a decimal
/// integer in the 64-bit signed range.
pub open spec fn cell_ok(kind: FieldType, cell: Seq<char>) -> bool {
    match kind {
        FieldType::Text => true,
        FieldType::Number => cell.len() == 0 || parsed_int(cell) is Some,
    }
}

/// The value a cell converts to: its text, the parsed number, or absent for
/// an empty numeric cell.
pub open spec fn value_matches_cell(kind: FieldType, cell: Seq<char>, v: FieldValue) -> bool {
    match kind {
        FieldType::Text => match v {
            FieldValue::Text(s) => s@ == cell,
            _ => false,
        },
        FieldType::Number => if cell.len() == 0 {
            v is Absent
        } else {
            match v {
                FieldValue::Number(n) => parsed_int(cell) == Some(n as int),
                _ => false,
            }
        },
    }
}

/// Converts one cell by the declared field type, exactly as
/// `value_matches_cell` says; a cell that does not fit is a parse failure.
pub fn cell_value(kind: FieldType, cell: &String) -> (r: Result<FieldValue, FieldError>)
    ensures
        match r {
            Ok(v) => cell_ok(kind, cell@) && value_matches_cell(kind, cell@, v),
            Err(e) => !cell_ok(kind, cell@) && e == FieldError::ParseFailure,
        },
{
    match kind {
        FieldType::Text => Ok(FieldValue::Text(cell.clone())),
        FieldType::Number => {
            if cell.as_str().unicode_len() == 0 {
                Ok(FieldValue::Absent)
            } else {
                match crate::text::parse_i64(cell.as_str()) {
                    Some(n) => Ok(FieldValue::Number(n)),
                    None => Err(FieldError::ParseFailure),
                }
            }
        },
    }
}

/// Whether a whole row fits the declared field types, cell by cell.
pub open spec fn row_ok(kinds: Seq<FieldType>, trow: Seq<Seq<char>>) -> bool {
    trow.len() == kinds.len() && forall|j: int|
        0 <= j < kinds.len() ==> cell_ok(kinds[j], #[trigger] trow[j])
}

/// Whether a record holds exactly the converted cells of a row.
pub open spec fn row_record_matches(
    kinds: Seq<FieldType>,
    trow: Seq<Seq<char>>,
    row: Seq<FieldValue>,
) -> bool {
    row.len() == kinds.len() && trow.len() == kinds.len() && forall|j: int|
        0 <= j < kinds.len() ==> value_matches_cell(kinds[j], trow[j], #[trigger] row[j])
}

/// A parsed row that converts: the right width, every cell fitting its
/// declared type.
pub open spec fn csv_row_good(kinds: Seq<FieldType>, trow: Option<Seq<Seq<char>>>) -> bool {
    trow is Some && row_ok(kinds, trow->0)
}

/// Converts one parsed row into a record, cell by cell; a row of the wrong
/// width or with a cell that does not fit its declared type is a parse
/// failure and yields no record.
pub fn row_record(kinds: &Vec<FieldType>, row: &Vec<String>) -> (r: Result<Record, FieldError>)
    ensures
        match r {
            Ok(rec) => row_ok(kinds@, cells_view(row@)) && row_record_matches(
                kinds@,
                cells_view(row@),
                rec@,
            ),
            Err(e) => !row_ok(kinds@, cells_view(row@)) && e == FieldError::ParseFailure,
        },
{
    let n = kinds.len();
    if row.len() != n {
        return Err(FieldError::ParseFailure);
    }
    let mut values: Vec<FieldValue> = Vec::new();
    let mut j: usize = 0;
    while j < n
        invariant
            n == kinds@.len(),
            row@.len() == n,
            0 <= j <= n,
            values@.len() == j,
            forall|t: int| 0 <= t < j ==> cell_ok(kinds@[t], cells_view(row@)[t]),
            forall|t: int|
                0 <= t < j ==> value_matches_cell(
                    kinds@[t],
                    cells_view(row@)[t],
                    #[trigger] values@[t],
                ),
        decreases n - j,
    {
        match cell_value(kinds[j], &row[j]) {
            Ok(v) => {
                values.push(v);
            },
            Err(e) => {
                proof {
                    assert(cells_view(row@)[j as int] == row@[j as int]@);
                }
                return Err(e);
            },
        }
        j += 1;
    }
    Ok(Record { values })
}

/// Builds a schema and records from CSV text. The first parsed record is the
/// header and gives the field names; the declared types come from the
/// caller. A data row that the csv crate reports as malformed, or that does
/// not fit the declared types, is skipped with one parse failure each; rows
/// that fit become records, in order. The run is fatal only when no header
/// can be read or its width does not fit the declared types.
pub fn ingest_csv(text: &str, kinds: &Vec<FieldType>) -> (r: Result<
    (Schema, Vec<Record>, Vec<FieldError>),
    SourceError,
>)
    ensures
        match r {
            Ok(out) => ({
                let table = csv_rows_of(text@);
                let data = table.drop_first();
                let good = data.filter(
                    |tr: Option<Seq<Seq<char>>>| csv_row_good(kinds@, tr),
                );
                &&& table.len() >= 1
                &&& table[0] is Some
                &&& table[0]->0.len() == kinds@.len()
                &&& out.0.wf()
                &&& out.0.kinds@ == kinds@
                &&& cells_view(out.0.names@) == table[0]->0
                &&& out.1@.len() == good.len()
                &&& forall|i: int|
                    0 <= i < good.len() ==> row_record_matches(
                        kinds@,
                        (#[trigger] good[i])->0,
                        out.1@[i]@,
                    )
                &&& forall|i: int| 0 <= i < out.1@.len() ==> (#[trigger] out.1@[i]).wf(&out.0)
                &&& out.2@.len() == data.len() - good.len()
                &&& forall|i: int|
                    0 <= i < out.2@.len() ==> (#[trigger] out.2@[i])
                        == FieldError::ParseFailure
            }),
            Err(e) => ({
                let table = csv_rows_of(text@);
                match e {
                    SourceError::MissingHeader => table.len() == 0 || table[0] is None,
                    SourceError::SchemaMismatch => table.len() >= 1 && table[0] is Some
                        && table[0]->0.len() != kinds@.len(),
                    SourceError::Malformed => false,
                }
            }),
        },
{
    let rows = csv_parse_rows(text);
    let ghost table = csv_rows_of(text@);
    proof {
        assert(table.len() == rows@.len());
    }
    if rows.len() == 0 {
        return Err(SourceError::MissingHeader);
    }
    let nfields = kinds.len();
    let mut names: Vec<String> = Vec::new();
    match &rows[0] {
        None => {
            return Err(SourceError::MissingHeader);
        },
        Some(header) => {
            proof {
                assert(table[0] == Some(cells_view(rows@[0]->0@)));
            }
            if header.len() != nfields {
                return Err(SourceError::SchemaMismatch);
            }
            let mut j: usize = 0;
            while j < nfields
                invariant
                    nfields == kinds@.len(),
                    header@.len() == nfields,
                    0 <= j <= nfields,
                    names@.len() == j,
                    forall|t: int| 0 <= t < j ==> names@[t] == header@[t],
                decreases nfields - j,
            {
                names.push(header[j].clone());
                j += 1;
            }
            proof {
                assert(names@ =~= header@);
            }
        },
    }
    let mut kinds_copy: Vec<FieldType> = Vec::new();
    let mut j: usize = 0;
    while j < nfields
        invariant
            nfields == kinds@.len(),
            0 <= j <= nfields,
            kinds_copy@.len() == j,
            forall|t: int| 0 <= t < j ==> kinds_copy@[t] == kinds@[t],
        decreases nfields - j,
    {
        kinds_copy.push(kinds[j]);
        j += 1;
    }
    proof {
        assert(kinds_copy@ =~= kinds@);
    }
    let schema = Schema { names, kinds: kinds_copy };
    let ghost data = table.drop_first();
    let ghost pred = |tr: Option<Seq<Seq<char>>>| csv_row_good(kinds@, tr);
    let mut records: Vec<Record> = Vec::new();
    let mut errors: Vec<FieldError> = Vec::new();
    let nrows = rows.len();
    let mut i: usize = 1;
    proof {
        assert(data.take(0) =~= Seq::<Option<Seq<Seq<char>>>>::empty());
        assert(Seq::<Option<Seq<Seq<char>>>>::empty().filter(pred) =~= Seq::<
            Option<Seq<Seq<char>>>,
        >::empty());
    }
    while i < nrows
        invariant
            nrows == rows@.len(),
            1 <= i <= nrows,
            table == csv_rows_of(text@),
            table == opt_table_view(rows@),
            table.len() == nrows,
            data == table.drop_first(),
            pred == (|tr: Option<Seq<Seq<char>>>| csv_row_good(kinds@, tr)),
            schema.wf(),
            schema.kinds@ == kinds@,
            schema.names@.len() == kinds@.len(),
            records@.len() == data.take(i - 1).filter(pred).len(),
            forall|t: int|
                0 <= t < records@.len() ==> row_record_matches(
                    kinds@,
                    data.take(i - 1).filter(pred)[t]->0,
                    (#[trigger] records@[t])@,
                ),
            errors@.len() == (i - 1) - data.take(i - 1).filter(pred).len(),
            forall|t: int|
                0 <= t < errors@.len() ==> (#[trigger] errors@[t]) == FieldError::ParseFailure,
        decreases nrows - i,
    {
        let ghost prefix = data.take(i - 1);
        let ghost trow = data[i - 1];
        proof {
            assert(trow == table[i as int]);
            assert(data.take(i as int) =~= prefix.push(trow));
            prefix.lemma_filter_push(trow, pred);
        }
        match &rows[i] {
            None => {
                proof {
                    assert(trow is None);
                }
                errors.push(FieldError::ParseFailure);
            },
            Some(row) => {
                proof {
                    assert(trow == Some(cells_view(rows@[i as int]->0@)));
                }
                match row_record(kinds, row) {
                    Ok(rec) => {
                        records.push(rec);
                    },
                    Err(e) => {
                        errors.push(e);
                    },
                }
            },
        }
        i += 1;
    }
    proof {
        assert(data.take(nrows - 1) =~= data);
    }
    Ok((schema, records, errors))
}

/// What one scalar JSON value holds, as spec-level data: text, an integer,
/// null (or a missing key), or anything else.
pub enum LeafView {
    Text(Seq<char>),
    Int(int),
    Null,
    Other,
}

/// What one scalar JSON value holds, as plain data the verified code can
/// examine: text, a 64-bit integer, null (or a missing key), or anything
/// else.
#[derive(Debug)]
pub enum JsonLeaf {
    Text(String),
    Int(i64),
    Null,
    Other,
}

impl View for JsonLeaf {
    type V = LeafView;

    open spec fn view(&self) -> LeafView {
        match self {
            JsonLeaf::Text(s) => LeafView::Text(s@),
            JsonLeaf::Int(n) => LeafView::Int(*n as int),
            JsonLeaf::Null => LeafView::Null,
            JsonLeaf::Other => LeafView::Other,
        }
    }
}

/// The leaves of one extracted row, as spec-level data.
pub open spec fn leaf_row_view(row: Seq<JsonLeaf>) -> Seq<LeafView> {
    row.map_values(|l: JsonLeaf| l@)
}

/// The leaves of every extracted row.
pub open spec fn leaf_table_view(rows: Seq<Vec<JsonLeaf>>) -> Seq<Seq<LeafView>> {
    rows.map_values(|r: Vec<JsonLeaf>| leaf_row_view(r@))
}

/// What the serde_json crate reads out of a text for the given field names:
/// when the text is a JSON array document, one row per element, holding for
/// each name the classified value under that key; nothing when it is not
/// such a document. A function of the text and the names alone.
pub uninterp spec fn json_leaf_rows_of(text: Seq<char>, names: Seq<Seq<char>>) -> Option<
    Seq<Seq<LeafView>>,
>;

/// Relies on serde_json::from_str and Value::{as_array, get, as_str, as_i64,
/// is_null}: when the text parses as a JSON array, classifies, for each
/// element and each field name, the value under that key (text, a 64-bit
/// integer, null or a missing key, anything else); nothing when the text is
/// not such a document. Parsing an in-memory text is deterministic, so the
/// outcome is a function of the text and the names alone; each returned row
/// holds one leaf per name.
#[verifier::external_body]
fn json_leaf_rows(text: &str, names: &Vec<String>) -> (r: Option<Vec<Vec<JsonLeaf>>>)
    ensures
        match r {
            Some(rows) => json_leaf_rows_of(text@, cells_view(names@)) == Some(
                leaf_table_view(rows@),
            ) && forall|i: int|
                0 <= i < rows@.len() ==> (#[trigger] rows@[i])@.len() == names@.len(),
            None => json_leaf_rows_of(text@, cells_view(names@)) is None,
        },
{
    let doc: serde_json::Value = match serde_json::from_str(text) {
        Ok(d) => d,
        Err(_) => return None,
    };
    let arr = doc.as_array()?;
    Some(arr.iter().map(|e| names.iter().map(|n| match e.get(n.as_str()) {
        Some(x) => x.as_str().map(|s| JsonLeaf::Text(s.to_string()))
            .or_else(|| x.as_i64().map(JsonLeaf::Int))
            .unwrap_or(if x.is_null() { JsonLeaf::Null } else { JsonLeaf::Other }),
        None => JsonLeaf::Null,
    }).collect()).collect())
}

/// Whether one leaf fits the declared field type: text or null fits a text
/// field, an integer or null fits a numeric field.
pub open spec fn leaf_ok(kind: FieldType, leaf: LeafView) -> bool {
    match kind {
        FieldType::Text => leaf is Text || leaf is Null,
        FieldType::Number => leaf is Int || leaf is Null,
    }
}

/// The error a leaf that does not fit raises: a parse failure for a value of
/// no supported shape, a type mismatch otherwise.
pub open spec fn leaf_error(kind: FieldType, leaf: LeafView) -> FieldError {
    if leaf is Other {
        FieldError::ParseFailure
    } else {
        FieldError::TypeMismatch
    }
}

/// The value a leaf converts to under a declared field type.
pub open spec fn value_matches_leaf(kind: FieldType, leaf: LeafView, v: FieldValue) -> bool {
    match kind {
        FieldType::Text => match leaf {
            LeafView::Text(s) => match v {
                FieldValue::Text(t) => t@ == s,
                _ => false,
            },
            LeafView::Null => v is Absent,
            _ => false,
        },
        FieldType::Number => match leaf {
            LeafView::Int(n) => match v {
                FieldValue::Number(m) => m as int == n,
                _ => false,
            },
            LeafView::Null => v is Absent,
            _ => false,
        },
    }
}

/// Whether a whole row of leaves fits the declared field types.
pub open spec fn leaf_row_ok(kinds: Seq<FieldType>, lrow: Seq<LeafView>) -> bool {
    lrow.len() == kinds.len() && forall|j: int|
        0 <= j < kinds.len() ==> leaf_ok(kinds[j], #[trigger] lrow[j])
}

/// Whether a record holds exactly the converted leaves of a row.
pub open spec fn row_matches_leaves(
    kinds: Seq<FieldType>,
    lrow: Seq<LeafView>,
    row: Seq<FieldValue>,
) -> bool {
    row.len() == kinds.len() && lrow.len() == kinds.len() && forall|j: int|
        0 <= j < kinds.len() ==> value_matches_leaf(kinds[j], lrow[j], #[trigger] row[j])
}

/// `e` is the error of the first leaf of the row that does not fit its
/// declared type.
pub open spec fn err_for_row(kinds: Seq<FieldType>, lrow: Seq<LeafView>, e: FieldError) -> bool {
    exists|j: int|
        #![auto]
        0 <= j < kinds.len() && !leaf_ok(kinds[j], lrow[j]) && e == leaf_error(kinds[j], lrow[j])
            && (forall|k: int| 0 <= k < j ==> leaf_ok(kinds[k], lrow[k]))
}

/// Converts one leaf by the declared field type, exactly as `leaf_ok`,
/// `leaf_error` and `value_matches_leaf` say.
pub fn leaf_to_value(kind: FieldType, leaf: &JsonLeaf) -> (r: Result<FieldValue, FieldError>)
    ensures
        match r {
            Ok(v) => leaf_ok(kind, leaf@) && value_matches_leaf(kind, leaf@, v),
            Err(e) => !leaf_ok(kind, leaf@) && e == leaf_error(kind, leaf@),
        },
{
    match kind {
        FieldType::Text => match leaf {
            JsonLeaf::Text(s) => Ok(FieldValue::Text(s.clone())),
            JsonLeaf::Null => Ok(FieldValue::Absent),
            JsonLeaf::Int(_) => Err(FieldError::TypeMismatch),
            JsonLeaf::Other => Err(FieldError::ParseFailure),
        },
        FieldType::Number => match leaf {
            JsonLeaf::Int(n) => Ok(FieldValue::Number(*n)),
            JsonLeaf::Null => Ok(FieldValue::Absent),
            JsonLeaf::Text(_) => Err(FieldError::TypeMismatch),
            JsonLeaf::Other => Err(FieldError::ParseFailure),
        },
    }
}

/// Builds one record from a row of leaves: each leaf converted by its
/// declared type, in order. The first leaf that does not fit fails the whole
/// record with its error.
pub fn record_from_leaves(kinds: &Vec<FieldType>, leaves: &Vec<JsonLeaf>) -> (r: Result<
    Record,
    FieldError,
>)
    requires
        leaves@.len() == kinds@.len(),
    ensures
        match r {
            Ok(rec) => leaf_row_ok(kinds@, leaf_row_view(leaves@)) && row_matches_leaves(
                kinds@,
                leaf_row_view(leaves@),
                rec@,
            ),
            Err(e) => !leaf_row_ok(kinds@, leaf_row_view(leaves@)) && err_for_row(
                kinds@,
                leaf_row_view(leaves@),
                e,
            ),
        },
{
    let n = kinds.len();
    let ghost lrow = leaf_row_view(leaves@);
    let mut values: Vec<FieldValue> = Vec::new();
    let mut j: usize = 0;
    while j < n
        invariant
            n == kinds@.len(),
            leaves@.len() == n,
            lrow == leaf_row_view(leaves@),
            0 <= j <= n,
            values@.len() == j,
            forall|t: int| 0 <= t < j ==> leaf_ok(kinds@[t], lrow[t]),
            forall|t: int|
                0 <= t < j ==> value_matches_leaf(kinds@[t], lrow[t], #[trigger] values@[t]),
        decreases n - j,
    {
        proof {
            assert(lrow[j as int] == leaves@[j as int]@);
        }
        match leaf_to_value(kinds[j], &leaves[j]) {
            Ok(v) => {
                values.push(v);
            },
            Err(e) => {
                proof {
                    assert(!leaf_ok(kinds@[j as int], lrow[j as int]));
                }
                return Err(e);
            },
        }
        j += 1;
    }
    Ok(Record { values })
}

/// Builds records from JSON text: the document must be an array, each
/// element read against the schema's field names. An element whose fields do
/// not fit the declared types is skipped with one recoverable error (the
/// first offending field's error); a text that is not a JSON array document
/// is a fatal source error, reported before any record is produced.
pub fn ingest_json(text: &str, schema: &Schema) -> (r: Result<
    (Vec<Record>, Vec<FieldError>),
    SourceError,
>)
    requires
        schema.wf(),
    ensures
        match r {
            Ok(out) => ({
                let parsed = json_leaf_rows_of(text@, cells_view(schema.names@));
                &&& parsed is Some
                &&& ({
                    let lrows = parsed->0;
                    let good = lrows.filter(
                        |lr: Seq<LeafView>| leaf_row_ok(schema.kinds@, lr),
                    );
                    let bad = lrows.filter(
                        |lr: Seq<LeafView>| !leaf_row_ok(schema.kinds@, lr),
                    );
                    &&& out.0@.len() == good.len()
                    &&& forall|i: int|
                        0 <= i < good.len() ==> row_matches_leaves(
                            schema.kinds@,
                            good[i],
                            (#[trigger] out.0@[i])@,
                        )
                    &&& forall|i: int|
                        0 <= i < out.0@.len() ==> (#[trigger] out.0@[i]).wf(schema)
                    &&& out.1@.len() == bad.len()
                    &&& forall|i: int|
                        0 <= i < bad.len() ==> err_for_row(
                            schema.kinds@,
                            bad[i],
                            #[trigger] out.1@[i],
                        )
                })
            }),
            Err(e) => e == SourceError::Malformed && json_leaf_rows_of(
                text@,
                cells_view(schema.names@),
            ) is None,
        },
{
    let rows = match json_leaf_rows(text, &schema.names) {
        Some(rows) => rows,
        None => {
            return Err(SourceError::Malformed);
        },
    };
    let ghost lrows = leaf_table_view(rows@);
    let ghost goodp = |lr: Seq<LeafView>| leaf_row_ok(schema.kinds@, lr);
    let ghost badp = |lr: Seq<LeafView>| !leaf_row_ok(schema.kinds@, lr);
    let mut records: Vec<Record> = Vec::new();
    let mut errors: Vec<FieldError> = Vec::new();
    let n = rows.len();
    let mut i: usize = 0;
    proof {
        assert(lrows.take(0) =~= Seq::<Seq<LeafView>>::empty());
        assert(Seq::<Seq<LeafView>>::empty().filter(goodp) =~= Seq::<Seq<LeafView>>::empty());
        assert(Seq::<Seq<LeafView>>::empty().filter(badp) =~= Seq::<Seq<LeafView>>::empty());
    }
    while i < n
        invariant
            n == rows@.len(),
            0 <= i <= n,
            schema.wf(),
            lrows == leaf_table_view(rows@),
            lrows.len() == n,
            forall|t: int| 0 <= t < n ==> (#[trigger] rows@[t])@.len() == schema.names@.len(),
            goodp == (|lr: Seq<LeafView>| leaf_row_ok(schema.kinds@, lr)),
            badp == (|lr: Seq<LeafView>| !leaf_row_ok(schema.kinds@, lr)),
            records@.len() == lrows.take(i as int).filter(goodp).len(),
            forall|t: int|
                0 <= t < records@.len() ==> row_matches_leaves(
                    schema.kinds@,
                    lrows.take(i as int).filter(goodp)[t],
                    (#[trigger] records@[t])@,
                ),
            forall|t: int| 0 <= t < records@.len() ==> (#[trigger] records@[t]).wf(schema),
            errors@.len() == lrows.take(i as int).filter(badp).len(),
            forall|t: int|
                0 <= t < errors@.len() ==> err_for_row(
                    schema.kinds@,
                    lrows.take(i as int).filter(badp)[t],
                    #[trigger] errors@[t],
                ),
        decreases n - i,
    {
        let ghost prefix = lrows.take(i as int);
        let ghost lrow = lrows[i as int];
        proof {
            assert(lrow == leaf_row_view(rows@[i as int]@));
            assert(lrows.take(i + 1) =~= prefix.push(lrow));
            prefix.lemma_filter_push(lrow, goodp);
            prefix.lemma_filter_push(lrow, badp);
            assert(rows@[i as int]@.len() == schema.names@.len());
        }
        match record_from_leaves(&schema.kinds, &rows[i]) {
            Ok(rec) => {
                records.push(rec);
            },
            Err(e) => {
                errors.push(e);
            },
        }
        i += 1;
    }
    proof {
        assert(lrows.take(n as int) =~= lrows);
    }
    Ok((records, errors))
}

} // verus!
