//! The pipeline runner: configuration validation, the pull-based record
//! source contract, and the single loop that drives records from the source
//! through the filter into the aggregation accumulator.

use vstd::prelude::*;
use crate::record::{Schema, Record, FieldValue, first_index, row_wf, clone_record};
use crate::filter::{FilterSpec, retained, rows_of, apply};
use crate::aggregate::{
    AggregationSpec, AggregationAccumulator, AggregationResult, FieldError, fold, finalize,
    folded_values, fold_errors, spec_aggregate, record_error, record_value,
};

verus! {

/// A configuration problem, found before the run starts; nothing is
/// processed when one is reported.
#[derive(Clone, Copy, Debug, PartialEq, Eq, Structural)]
pub enum ConfigError {
    /// The filter names a field that the schema does not declare.
    UnknownFilterField,
    /// The aggregation names a field that the schema does not declare.
    UnknownAggregationField,
    /// The aggregation needs a numeric field, but the named field is not
    /// declared numeric (`count` is exempt).
    NonNumericAggregationField,
}

/// The configuration check a run performs before touching any record: the
/// filter field (when a filter is given) must exist in the schema, the
/// aggregation field must exist, and for every reduction but `count` it must
/// be declared numeric.
pub open spec fn spec_validate(
    schema: Schema,
    fs: Option<FilterSpec>,
    agg: AggregationSpec,
) -> Option<ConfigError> {
    let filter_ok = match fs {
        None => true,
        Some(f) => first_index(schema.names@, f.field@) is Some,
    };
    if !filter_ok {
        Some(ConfigError::UnknownFilterField)
    } else {
        match first_index(schema.names@, agg.field@) {
            None => Some(ConfigError::UnknownAggregationField),
            Some(i) => if agg.kind is Count || schema.kinds@[i] is Number {
                None
            } else {
                Some(ConfigError::NonNumericAggregationField)
            },
        }
    }
}

/// Checks the configuration against the schema, exactly as `spec_validate`
/// says.
pub fn validate(schema: &Schema, fs: &Option<FilterSpec>, agg: &AggregationSpec) -> (r: Result<
    (),
    ConfigError,
>)
    requires
        schema.wf(),
    ensures
        r == (match spec_validate(*schema, *fs, *agg) {
            None => Result::<(), ConfigError>::Ok(()),
            Some(e) => Result::<(), ConfigError>::Err(e),
        }),
{
    match fs {
        Some(f) => {
            if schema.index_of(&f.field).is_none() {
                return Err(ConfigError::UnknownFilterField);
            }
        },
        None => {},
    }
    match schema.index_of(&agg.field) {
        None => Err(ConfigError::UnknownAggregationField),
        Some(i) => {
            match agg.kind {
                crate::aggregate::ReductionKind::Count => Ok(()),
                _ => {
                    match schema.kinds[i] {
                        crate::record::FieldType::Number => Ok(()),
                        crate::record::FieldType::Text => Err(
                            ConfigError::NonNumericAggregationField,
                        ),
                    }
                },
            }
        },
    }
}

/// A pull-based producer of records: a lazy, finite, non-restartable
/// sequence. `remaining()` is the abstract list of record contents still to
/// come; `next` hands them out in order and signals the end with `None`.
pub trait RecordSource {
    spec fn remaining(&self) -> Seq<Seq<FieldValue>>;

    fn next(&mut self) -> (r: Option<Record>)
        ensures
            match r {
                Some(rec) => old(self).remaining().len() > 0 && rec@ == old(
                    self,
                ).remaining()[0] && final(self).remaining() == old(self).remaining().drop_first(),
                None => old(self).remaining().len() == 0 && final(self).remaining() == old(
                    self,
                ).remaining(),
            },
    ;
}

/// A record source over an in-memory list of records.
pub struct VecSource {
    pub records: Vec<Record>,
    pub pos: usize,
}

impl VecSource {
    /// A source that will yield exactly the given records, in order.
    pub fn new(records: Vec<Record>) -> (r: VecSource)
        ensures
            r.remaining() == rows_of(records@),
    {
        let r = VecSource { records, pos: 0 };
        proof {
            assert(r.records@.skip(0) =~= r.records@);
        }
        r
    }
}

impl RecordSource for VecSource {
    open spec fn remaining(&self) -> Seq<Seq<FieldValue>> {
        if self.pos <= self.records@.len() {
            rows_of(self.records@.skip(self.pos as int))
        } else {
            Seq::empty()
        }
    }

    fn next(&mut self) -> (r: Option<Record>) {
        if self.pos < self.records.len() {
            let rec = clone_record(&self.records[self.pos]);
            let ghost before = self.records@.skip(self.pos as int);
            self.pos = self.pos + 1;
            proof {
                assert(before[0] == self.records@[old(self).pos as int]);
                assert(self.records@.skip(self.pos as int) =~= before.drop_first());
                assert(rows_of(before).drop_first() =~= rows_of(before.drop_first()));
            }
            Some(rec)
        } else {
            proof {
                if self.pos <= self.records@.len() {
                    assert(self.records@.skip(self.pos as int) =~= Seq::<Record>::empty());
                    assert(rows_of(self.records@.skip(self.pos as int)) =~= Seq::<
                        Seq<FieldValue>,
                    >::empty());
                }
            }
            None
        }
    }
}

/// The terminal output of one run: how many records the filter retained, the
/// final aggregation value, and the per-record errors in the order they
/// arose.
#[derive(Debug)]
pub struct PipelineResult {
    pub filtered_count: usize,
    pub value: AggregationResult,
    pub errors: Vec<FieldError>,
}

/// Drives the pipeline to completion: validates the configuration, then
/// pulls records one at a time, filters them, folds the retained ones into
/// the accumulator (collecting per-record errors), and reads the final
/// result. Field errors never halt the loop; a configuration error aborts
/// before any record is pulled.
pub fn run<S: RecordSource>(
    source: &mut S,
    schema: &Schema,
    fs: &Option<FilterSpec>,
    agg: &AggregationSpec,
) -> (r: Result<PipelineResult, ConfigError>)
    requires
        schema.wf(),
        old(source).remaining().len() <= usize::MAX,
        forall|i: int|
            0 <= i < old(source).remaining().len() ==> row_wf(
                *schema,
                #[trigger] old(source).remaining()[i],
            ),
    ensures
        match r {
            Ok(res) => spec_validate(*schema, *fs, *agg) is None && ({
                let kept = retained(*schema, old(source).remaining(), *fs);
                &&& res.filtered_count == kept.len()
                &&& res.errors@ == fold_errors(*schema, kept, *agg)
                &&& res.value == spec_aggregate(*schema, kept, *agg)
                &&& final(source).remaining().len() == 0
            }),
            Err(e) => spec_validate(*schema, *fs, *agg) == Some(e) && final(source).remaining()
                == old(source).remaining(),
        },
{
    match validate(schema, fs, agg) {
        Err(e) => {
            return Err(e);
        },
        Ok(_) => {},
    }
    let ghost all = source.remaining();
    let ghost pred = |row: Seq<FieldValue>| crate::filter::record_matches(*schema, row, fs->0);
    let mut filtered: usize = 0;
    let mut acc = AggregationAccumulator::new();
    let mut errors: Vec<FieldError> = Vec::new();
    let ghost mut k: int = 0;
    proof {
        assert(all.take(0) =~= Seq::<Seq<FieldValue>>::empty());
        if fs is Some {
            assert(Seq::<Seq<FieldValue>>::empty().filter(pred) =~= Seq::<Seq<FieldValue>>::empty());
        }
    }
    loop
        invariant
            schema.wf(),
            0 <= k <= all.len(),
            all.len() <= usize::MAX,
            source.remaining() == all.skip(k),
            forall|i: int| 0 <= i < all.len() ==> row_wf(*schema, #[trigger] all[i]),
            pred == (|row: Seq<FieldValue>| crate::filter::record_matches(*schema, row, fs->0)),
            fs is Some ==> retained(*schema, all.take(k), *fs) == all.take(k).filter(pred),
            filtered as int == retained(*schema, all.take(k), *fs).len(),
            errors@ == fold_errors(*schema, retained(*schema, all.take(k), *fs), *agg),
            acc.inv(),
            acc.count <= filtered <= k,
            agg.kind is Count ==> acc.count as int == retained(*schema, all.take(k), *fs).len()
                && acc.sum == 0,
            !(agg.kind is Count) ==> acc.models(
                folded_values(*schema, retained(*schema, all.take(k), *fs), *agg),
            ),
        ensures
            k == all.len(),
            source.remaining().len() == 0,
        decreases all.len() - k,
    {
        let nxt = source.next();
        match nxt {
            None => {
                proof {
                    assert(all.skip(k).len() == 0);
                }
                break ;
            },
            Some(rec) => {
                proof {
                    assert(all.skip(k)[0] == all[k]);
                }
                let ghost kept = retained(*schema, all.take(k), *fs);
                let ghost rv = rec@;
                let keep = match fs {
                    None => true,
                    Some(f) => apply(schema, &rec, f),
                };
                if keep {
                    filtered = filtered + 1;
                    match fold(&mut acc, schema, &rec, agg) {
                        Ok(_) => {},
                        Err(e) => {
                            errors.push(e);
                        },
                    }
                    proof {
                        let vals = folded_values(*schema, kept, *agg);
                        assert(kept.push(rv).drop_last() =~= kept);
                        if !(agg.kind is Count) && record_error(*schema, rv, *agg) is None {
                            let v = record_value(*schema, rv, *agg);
                            assert(vals.push(v).drop_last() =~= vals);
                        }
                    }
                }
                proof {
                    assert(all.take(k + 1) =~= all.take(k).push(all[k]));
                    assert(rv == all[k]);
                    if fs is Some {
                        all.take(k).lemma_filter_push(rv, pred);
                    }
                    assert(retained(*schema, all.take(k + 1), *fs) == if keep {
                        kept.push(rv)
                    } else {
                        kept
                    });
                    assert(source.remaining() == all.skip(k + 1)) by {
                        assert(all.skip(k).drop_first() =~= all.skip(k + 1));
                    }
                    k = k + 1;
                }
            },
        }
    }
    proof {
        assert(all.take(k) =~= all);
    }
    let value = finalize(&acc, agg.kind);
    let result = PipelineResult { filtered_count: filtered, value, errors };
    proof {
        let kept = retained(*schema, all, *fs);
        let vals = folded_values(*schema, kept, *agg);
        assert(result.value == spec_aggregate(*schema, kept, *agg));
    }
    Ok(result)
}

/// Runs the pipeline over an in-memory list of records.
pub fn run_records(
    schema: &Schema,
    records: Vec<Record>,
    fs: &Option<FilterSpec>,
    agg: &AggregationSpec,
) -> (r: Result<PipelineResult, ConfigError>)
    requires
        schema.wf(),
        forall|i: int| 0 <= i < records@.len() ==> (#[trigger] records@[i]).wf(schema),
    ensures
        match r {
            Ok(res) => spec_validate(*schema, *fs, *agg) is None && ({
                let kept = retained(*schema, rows_of(records@), *fs);
                &&& res.filtered_count == kept.len()
                &&& res.errors@ == fold_errors(*schema, kept, *agg)
                &&& res.value == spec_aggregate(*schema, kept, *agg)
            }),
            Err(e) => spec_validate(*schema, *fs, *agg) == Some(e),
        },
{
    let ghost rows = rows_of(records@);
    let n = records.len();
    proof {
        assert(rows.len() == records@.len());
        assert(forall|i: int| 0 <= i < rows.len() ==> row_wf(*schema, #[trigger] rows[i]));
    }
    let mut source = VecSource::new(records);
    run(&mut source, schema, fs, agg)
}

/// An explicit deep copy of a list of records.
pub fn clone_records(records: &Vec<Record>) -> (r: Vec<Record>)
    ensures
        rows_of(r@) == rows_of(records@),
        r@.len() == records@.len(),
        forall|i: int| 0 <= i < records@.len() ==> (#[trigger] r@[i])@ == records@[i]@,
{
    let n = records.len();
    let mut out: Vec<Record> = Vec::new();
    let mut i: usize = 0;
    while i < n
        invariant
            n == records@.len(),
            0 <= i <= n,
            out@.len() == i,
            forall|j: int| 0 <= j < i ==> (#[trigger] out@[j])@ == records@[j]@,
        decreases n - i,
    {
        out.push(clone_record(&records[i]));
        i += 1;
    }
    proof {
        assert(rows_of(out@) =~= rows_of(records@));
    }
    out
}

/// Aggregates every record of the list (no filter), reporting the final
/// value and the per-record errors in order.
pub fn aggregate_data(schema: &Schema, records: &Vec<Record>, agg: &AggregationSpec) -> (r:
    Result<(AggregationResult, Vec<FieldError>), ConfigError>)
    requires
        schema.wf(),
        forall|i: int| 0 <= i < records@.len() ==> (#[trigger] records@[i]).wf(schema),
    ensures
        match r {
            Ok(res) => spec_validate(*schema, None, *agg) is None && res.0 == spec_aggregate(
                *schema,
                rows_of(records@),
                *agg,
            ) && res.1@ == fold_errors(*schema, rows_of(records@), *agg),
            Err(e) => spec_validate(*schema, None, *agg) == Some(e),
        },
{
    let copy = clone_records(records);
    proof {
        assert(forall|i: int| 0 <= i < copy@.len() ==> (#[trigger] copy@[i]).wf(schema));
    }
    match run_records(schema, copy, &None, agg) {
        Ok(res) => Ok((res.value, res.errors)),
        Err(e) => Err(e),
    }
}

} // verus!
