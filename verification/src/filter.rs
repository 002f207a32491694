//! The filter stage: a pure predicate over one record, and a batch helper
//! that keeps the matching records of a list.

use vstd::prelude::*;
use crate::record::{Schema, Record, FieldValue, field_value, clone_record};
use crate::text::is_substring;

verus! {

/// How a filter compares a field against its comparison value.
#[derive(Clone, Copy, Debug, PartialEq, Eq, Structural)]
pub enum MatchKind {
    Exact,
    Contains,
}

/// A filter: field name, comparison value, and match semantics.
#[derive(Debug)]
pub struct FilterSpec {
    pub field: String,
    pub value: String,
    pub kind: MatchKind,
}

/// Whether one field value satisfies the comparison. Only text fields can
/// match; an absent or numeric field never does (and that is not an error).
pub open spec fn value_matches(v: FieldValue, pat: Seq<char>, kind: MatchKind) -> bool {
    match v {
        FieldValue::Text(s) => match kind {
            MatchKind::Exact => s@ == pat,
            MatchKind::Contains => is_substring(s@, pat),
        },
        _ => false,
    }
}

/// Whether a record satisfies the filter: the named field exists, holds text,
/// and that text matches the comparison value.
pub open spec fn record_matches(schema: Schema, row: Seq<FieldValue>, fs: FilterSpec) -> bool {
    match field_value(schema, row, fs.field@) {
        Some(v) => value_matches(v, fs.value@, fs.kind),
        None => false,
    }
}

/// Applies the filter to one record. Pure: no state is read or written
/// besides the arguments.
pub fn apply(schema: &Schema, rec: &Record, fs: &FilterSpec) -> (r: bool)
    requires
        rec.wf(schema),
    ensures
        r == record_matches(*schema, rec@, *fs),
{
    match schema.index_of(&fs.field) {
        None => false,
        Some(i) => match &rec.values[i] {
            FieldValue::Text(s) => match fs.kind {
                MatchKind::Exact => *s == fs.value,
                MatchKind::Contains => crate::text::contains_substring(
                    s.as_str(),
                    fs.value.as_str(),
                ),
            },
            _ => false,
        },
    }
}

/// The views of the records in a list, in order.
pub open spec fn rows_of(records: Seq<Record>) -> Seq<Seq<FieldValue>> {
    records.map_values(|r: Record| r@)
}

/// The rows that satisfy the filter, in their original order.
pub open spec fn retained(schema: Schema, rows: Seq<Seq<FieldValue>>, fs: Option<FilterSpec>) -> Seq<
    Seq<FieldValue>,
> {
    match fs {
        None => rows,
        Some(f) => rows.filter(|row: Seq<FieldValue>| record_matches(schema, row, f)),
    }
}

/// Keeps the records that satisfy the filter, in their original order.
pub fn filter_data(schema: &Schema, records: &Vec<Record>, fs: &FilterSpec) -> (r: Vec<Record>)
    requires
        forall|i: int| 0 <= i < records@.len() ==> (#[trigger] records@[i]).wf(schema),
    ensures
        rows_of(r@) == retained(*schema, rows_of(records@), Some(*fs)),
{
    broadcast use vstd::prelude::Seq::lemma_filter_push;

    let ghost pred = |row: Seq<FieldValue>| record_matches(*schema, row, *fs);
    let n = records.len();
    let mut out: Vec<Record> = Vec::new();
    let mut i: usize = 0;
    proof {
        assert(rows_of(records@.subrange(0, 0)) =~= Seq::<Seq<FieldValue>>::empty());
        assert(rows_of(out@) =~= Seq::<Seq<FieldValue>>::empty().filter(pred));
    }
    while i < n
        invariant
            n == records@.len(),
            0 <= i <= n,
            forall|k: int| 0 <= k < n ==> (#[trigger] records@[k]).wf(schema),
            rows_of(out@) == rows_of(records@.subrange(0, i as int)).filter(pred),
            pred == (|row: Seq<FieldValue>| record_matches(*schema, row, *fs)),
        decreases n - i,
    {
        let ghost prefix = rows_of(records@.subrange(0, i as int));
        let keep = apply(schema, &records[i], fs);
        if keep {
            out.push(clone_record(&records[i]));
        }
        proof {
            let rv = records@[i as int]@;
            assert(rows_of(records@.subrange(0, i + 1)) =~= prefix.push(rv));
            prefix.lemma_filter_push(rv, pred);
            assert(prefix.push(rv).filter(pred) == if pred(rv) {
                prefix.filter(pred).push(rv)
            } else {
                prefix.filter(pred)
            });
            if keep {
                assert(rows_of(out@) =~= prefix.filter(pred).push(rv));
            }
        }
        i += 1;
    }
    proof {
        assert(records@.subrange(0, n as int) =~= records@);
    }
    out
}

} // verus!
