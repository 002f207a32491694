//! The aggregation stage: a running accumulator folded over records one at a
//! time, and a pure final read of the accumulated state.

use vstd::prelude::*;
use crate::record::{Schema, Record, FieldValue, field_value};

verus! {

/// The reduction a run computes over the target field.
#[derive(Clone, Copy, Debug, PartialEq, Eq, Structural)]
pub enum ReductionKind {
    Sum,
    Count,
    Average,
    Min,
    Max,
}

/// An aggregation: target field name and reduction kind.
#[derive(Debug)]
pub struct AggregationSpec {
    pub field: String,
    pub kind: ReductionKind,
}

/// A recoverable, per-record failure: the record is skipped, the run goes on.
#[derive(Clone, Copy, Debug, PartialEq, Eq, Structural)]
pub enum FieldError {
    /// The target field is absent from the record.
    Missing,
    /// The target field holds text where a number is needed.
    TypeMismatch,
    /// A cell could not be read as a value of the declared field type.
    ParseFailure,
}

/// The final value of a completed aggregation. `Average` is reported as the
/// exact pair of sum and count; `NoData` is the defined result of `average`,
/// `min` or `max` over zero successfully folded records.
#[derive(Clone, Copy, Debug, PartialEq, Eq)]
pub enum AggregationResult {
    Sum(i128),
    Count(usize),
    Average { sum: i128, count: usize },
    Min(i64),
    Max(i64),
    NoData,
}

/// Running aggregation state: how many records folded successfully, their
/// sum, and their least and greatest value (meaningful once `count > 0`).
#[derive(Clone, Copy, Debug)]
pub struct AggregationAccumulator {
    pub count: usize,
    pub sum: i128,
    pub min: i64,
    pub max: i64,
}

/// Sum of a sequence of integers.
pub open spec fn sum_of(s: Seq<int>) -> int
    decreases s.len(),
{
    if s.len() == 0 {
        0
    } else {
        sum_of(s.drop_last()) + s.last()
    }
}

/// Least element of a non-empty sequence of integers.
pub open spec fn min_of(s: Seq<int>) -> int
    recommends
        s.len() > 0,
    decreases s.len(),
{
    if s.len() <= 1 {
        s.last()
    } else {
        vstd::math::min(min_of(s.drop_last()), s.last())
    }
}

/// Greatest element of a non-empty sequence of integers.
pub open spec fn max_of(s: Seq<int>) -> int
    recommends
        s.len() > 0,
    decreases s.len(),
{
    if s.len() <= 1 {
        s.last()
    } else {
        vstd::math::max(max_of(s.drop_last()), s.last())
    }
}

/// The per-record outcome of folding one record: no error, or the one field
/// error it raises. `count` needs no field at all, so it never fails.
pub open spec fn record_error(schema: Schema, row: Seq<FieldValue>, agg: AggregationSpec) -> Option<
    FieldError,
> {
    if agg.kind is Count {
        None
    } else {
        match field_value(schema, row, agg.field@) {
            Some(v) => match v {
                FieldValue::Number(_) => None,
                FieldValue::Text(_) => Some(FieldError::TypeMismatch),
                FieldValue::Absent => Some(FieldError::Missing),
            },
            None => Some(FieldError::Missing),
        }
    }
}

/// The numeric value one record contributes (meaningful when `record_error`
/// is `None` and the kind is not `count`).
pub open spec fn record_value(schema: Schema, row: Seq<FieldValue>, agg: AggregationSpec) -> int {
    match field_value(schema, row, agg.field@) {
        Some(v) => match v {
            FieldValue::Number(n) => n as int,
            _ => 0,
        },
        None => 0,
    }
}

impl AggregationAccumulator {
    /// The sum stays within what `count` many 64-bit values can reach, so
    /// folding one more value can never overflow.
    pub open spec fn inv(&self) -> bool {
        -(self.count as int) * 0x8000000000000000 <= self.sum as int <= (self.count as int)
            * 0x8000000000000000
    }

    /// The accumulator is exactly the fold of `vals`: their count, their sum,
    /// and (once any value arrived) their least and greatest element.
    pub open spec fn models(&self, vals: Seq<int>) -> bool {
        &&& self.count == vals.len()
        &&& self.sum as int == sum_of(vals)
        &&& vals.len() > 0 ==> self.min as int == min_of(vals) && self.max as int == max_of(
            vals,
        )
    }

    /// Fresh state: nothing folded yet.
    pub fn new() -> (r: AggregationAccumulator)
        ensures
            r.count == 0,
            r.sum == 0,
            r.inv(),
            r.models(Seq::<int>::empty()),
    {
        AggregationAccumulator { count: 0, sum: 0, min: 0, max: 0 }
    }
}

/// Folds one record into the accumulator. On success the state advances by
/// the record's value; on a field error the state is left exactly as it was
/// and the error is returned, so one bad record never corrupts the run.
pub fn fold(
    acc: &mut AggregationAccumulator,
    schema: &Schema,
    rec: &Record,
    agg: &AggregationSpec,
) -> (r: Result<(), FieldError>)
    requires
        old(acc).inv(),
        old(acc).count < usize::MAX,
        rec.wf(schema),
    ensures
        final(acc).inv(),
        r == (match record_error(*schema, rec@, *agg) {
            None => Result::<(), FieldError>::Ok(()),
            Some(e) => Result::<(), FieldError>::Err(e),
        }),
        r is Err ==> *final(acc) == *old(acc),
        r is Ok && agg.kind is Count ==> final(acc).count == old(acc).count + 1
            && final(acc).sum == old(acc).sum && final(acc).min == old(acc).min
            && final(acc).max == old(acc).max,
        r is Ok && !(agg.kind is Count) ==> ({
            let v = record_value(*schema, rec@, *agg);
            &&& final(acc).count == old(acc).count + 1
            &&& final(acc).sum as int == old(acc).sum as int + v
            &&& final(acc).min as int == (if old(acc).count == 0 {
                v
            } else {
                vstd::math::min(old(acc).min as int, v)
            })
            &&& final(acc).max as int == (if old(acc).count == 0 {
                v
            } else {
                vstd::math::max(old(acc).max as int, v)
            })
        }),
{
    match agg.kind {
        ReductionKind::Count => {
            acc.count = acc.count + 1;
            Ok(())
        },
        _ => {
            match schema.index_of(&agg.field) {
                None => Err(FieldError::Missing),
                Some(i) => {
                    match &rec.values[i] {
                        FieldValue::Number(n) => {
                            let v = *n;
                            acc.count = acc.count + 1;
                            acc.sum = acc.sum + (v as i128);
                            if acc.count == 1 {
                                acc.min = v;
                                acc.max = v;
                            } else {
                                if v < acc.min {
                                    acc.min = v;
                                }
                                if v > acc.max {
                                    acc.max = v;
                                }
                            }
                            Ok(())
                        },
                        FieldValue::Text(_) => Err(FieldError::TypeMismatch),
                        FieldValue::Absent => Err(FieldError::Missing),
                    }
                },
            }
        },
    }
}

/// A pure read of the final aggregation value; the accumulator is untouched
/// and can only be read, never folded again, through the returned result.
pub fn finalize(acc: &AggregationAccumulator, kind: ReductionKind) -> (r: AggregationResult)
    ensures
        r == spec_finalize(*acc, kind),
{
    match kind {
        ReductionKind::Count => AggregationResult::Count(acc.count),
        ReductionKind::Sum => AggregationResult::Sum(acc.sum),
        ReductionKind::Average => {
            if acc.count == 0 {
                AggregationResult::NoData
            } else {
                AggregationResult::Average { sum: acc.sum, count: acc.count }
            }
        },
        ReductionKind::Min => {
            if acc.count == 0 {
                AggregationResult::NoData
            } else {
                AggregationResult::Min(acc.min)
            }
        },
        ReductionKind::Max => {
            if acc.count == 0 {
                AggregationResult::NoData
            } else {
                AggregationResult::Max(acc.max)
            }
        },
    }
}

/// What `finalize` reads out of a given accumulator state.
pub open spec fn spec_finalize(acc: AggregationAccumulator, kind: ReductionKind)
    -> AggregationResult {
    match kind {
        ReductionKind::Count => AggregationResult::Count(acc.count),
        ReductionKind::Sum => AggregationResult::Sum(acc.sum),
        ReductionKind::Average => if acc.count == 0 {
            AggregationResult::NoData
        } else {
            AggregationResult::Average { sum: acc.sum, count: acc.count }
        },
        ReductionKind::Min => if acc.count == 0 {
            AggregationResult::NoData
        } else {
            AggregationResult::Min(acc.min)
        },
        ReductionKind::Max => if acc.count == 0 {
            AggregationResult::NoData
        } else {
            AggregationResult::Max(acc.max)
        },
    }
}

/// The numeric values that fold successfully out of `rows`, in order.
pub open spec fn folded_values(schema: Schema, rows: Seq<Seq<FieldValue>>, agg: AggregationSpec)
    -> Seq<int>
    decreases rows.len(),
{
    if rows.len() == 0 {
        Seq::empty()
    } else {
        let rest = folded_values(schema, rows.drop_last(), agg);
        if record_error(schema, rows.last(), agg) is None && !(agg.kind is Count) {
            rest.push(record_value(schema, rows.last(), agg))
        } else {
            rest
        }
    }
}

/// The per-record errors that folding `rows` raises, in order.
pub open spec fn fold_errors(schema: Schema, rows: Seq<Seq<FieldValue>>, agg: AggregationSpec) -> Seq<
    FieldError,
>
    decreases rows.len(),
{
    if rows.len() == 0 {
        Seq::empty()
    } else {
        let rest = fold_errors(schema, rows.drop_last(), agg);
        match record_error(schema, rows.last(), agg) {
            Some(e) => rest.push(e),
            None => rest,
        }
    }
}

/// The aggregation value a run over `rows` reports: the reduction computed
/// directly over the successfully folded values.
pub open spec fn spec_aggregate(schema: Schema, rows: Seq<Seq<FieldValue>>, agg: AggregationSpec)
    -> AggregationResult {
    let vals = folded_values(schema, rows, agg);
    match agg.kind {
        ReductionKind::Count => AggregationResult::Count(rows.len() as usize),
        ReductionKind::Sum => AggregationResult::Sum(sum_of(vals) as i128),
        ReductionKind::Average => if vals.len() == 0 {
            AggregationResult::NoData
        } else {
            AggregationResult::Average {
                sum: sum_of(vals) as i128,
                count: vals.len() as usize,
            }
        },
        ReductionKind::Min => if vals.len() == 0 {
            AggregationResult::NoData
        } else {
            AggregationResult::Min(min_of(vals) as i64)
        },
        ReductionKind::Max => if vals.len() == 0 {
            AggregationResult::NoData
        } else {
            AggregationResult::Max(max_of(vals) as i64)
        },
    }
}

} // verus!
