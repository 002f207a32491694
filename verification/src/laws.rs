//! Laws of the aggregation reductions: the fold is order-independent for
//! sum, count, min and max, and folding rows whose target field is always
//! present and numeric contributes every row's value, with no error.

use vstd::prelude::*;
use vstd::seq_lib::lemma_fold_right_permutation;
use crate::record::{Schema, FieldValue};
use crate::aggregate::{
    AggregationSpec, sum_of, min_of, max_of, folded_values, fold_errors, record_error,
    record_value, spec_aggregate,
};

verus! {

proof fn lemma_sum_of_fold_right(s: Seq<int>)
    ensures
        s.fold_right(|x: int, b: int| x + b, 0) == sum_of(s),
    decreases s.len(),
{
    let f = |x: int, b: int| x + b;
    if s.len() > 0 {
        lemma_sum_of_fold_right(s.drop_last());
        s.drop_last().lemma_fold_right_commute_one(s.last(), f, 0);
    }
}

/// The sum of a sequence of values does not depend on the order in which
/// they are folded: any rearrangement of the values has the same sum.
pub proof fn lemma_sum_of_permutation(a: Seq<int>, b: Seq<int>)
    requires
        a.to_multiset() == b.to_multiset(),
    ensures
        sum_of(a) == sum_of(b),
{
    let f = |x: int, acc: int| x + acc;
    assert(vstd::seq_lib::commutative_foldr(f));
    lemma_fold_right_permutation(a, b, f, 0);
    lemma_sum_of_fold_right(a);
    lemma_sum_of_fold_right(b);
}

/// The least value of a non-empty sequence is one of its elements and is a
/// lower bound for all of them.
pub proof fn lemma_min_of_props(s: Seq<int>)
    requires
        s.len() > 0,
    ensures
        s.contains(min_of(s)),
        forall|i: int| 0 <= i < s.len() ==> min_of(s) <= #[trigger] s[i],
    decreases s.len(),
{
    if s.len() == 1 {
        assert(s[0] == s.last());
    } else {
        let rest = s.drop_last();
        lemma_min_of_props(rest);
        if min_of(rest) <= s.last() {
            let i = choose|i: int| 0 <= i < rest.len() && rest[i] == min_of(rest);
            assert(s[i] == min_of(s));
        } else {
            assert(s[s.len() - 1] == min_of(s));
        }
        assert(forall|i: int| 0 <= i < rest.len() ==> #[trigger] s[i] == rest[i]);
    }
}

/// The greatest value of a non-empty sequence is one of its elements and is
/// an upper bound for all of them.
pub proof fn lemma_max_of_props(s: Seq<int>)
    requires
        s.len() > 0,
    ensures
        s.contains(max_of(s)),
        forall|i: int| 0 <= i < s.len() ==> s[i] <= #[trigger] max_of(s),
    decreases s.len(),
{
    if s.len() == 1 {
        assert(s[0] == s.last());
    } else {
        let rest = s.drop_last();
        lemma_max_of_props(rest);
        if max_of(rest) >= s.last() {
            let i = choose|i: int| 0 <= i < rest.len() && rest[i] == max_of(rest);
            assert(s[i] == max_of(s));
        } else {
            assert(s[s.len() - 1] == max_of(s));
        }
        assert(forall|i: int| 0 <= i < rest.len() ==> #[trigger] s[i] == rest[i]);
    }
}

/// The least value of a non-empty sequence does not depend on the order of
/// its elements: any rearrangement has the same minimum.
pub proof fn lemma_min_of_permutation(a: Seq<int>, b: Seq<int>)
    requires
        a.to_multiset() == b.to_multiset(),
        a.len() > 0,
    ensures
        min_of(a) == min_of(b),
{
    a.to_multiset_ensures();
    b.to_multiset_ensures();
    assert(a.to_multiset().len() == b.to_multiset().len());
    assert(b.len() > 0);
    lemma_min_of_props(a);
    lemma_min_of_props(b);
    assert(a.to_multiset().count(min_of(a)) > 0);
    assert(b.to_multiset().count(min_of(b)) > 0);
    assert(b.contains(min_of(a)));
    assert(a.contains(min_of(b)));
    let i = choose|i: int| 0 <= i < b.len() && b[i] == min_of(a);
    let j = choose|j: int| 0 <= j < a.len() && a[j] == min_of(b);
    assert(min_of(b) <= b[i]);
    assert(min_of(a) <= a[j]);
}

/// The greatest value of a non-empty sequence does not depend on the order
/// of its elements: any rearrangement has the same maximum.
pub proof fn lemma_max_of_permutation(a: Seq<int>, b: Seq<int>)
    requires
        a.to_multiset() == b.to_multiset(),
        a.len() > 0,
    ensures
        max_of(a) == max_of(b),
{
    a.to_multiset_ensures();
    b.to_multiset_ensures();
    assert(a.to_multiset().len() == b.to_multiset().len());
    assert(b.len() > 0);
    lemma_max_of_props(a);
    lemma_max_of_props(b);
    assert(a.to_multiset().count(max_of(a)) > 0);
    assert(b.to_multiset().count(max_of(b)) > 0);
    assert(b.contains(max_of(a)));
    assert(a.contains(max_of(b)));
    let i = choose|i: int| 0 <= i < b.len() && b[i] == max_of(a);
    let j = choose|j: int| 0 <= j < a.len() && a[j] == max_of(b);
    assert(b[i] <= max_of(b));
    assert(a[j] <= max_of(a));
}

/// The reported aggregation value does not depend on the order in which the
/// records were processed: two runs over equally many rows whose
/// successfully folded values are a rearrangement of one another report the
/// same value, for every reduction kind.
pub proof fn lemma_aggregate_order_independent(
    schema: Schema,
    rows1: Seq<Seq<FieldValue>>,
    rows2: Seq<Seq<FieldValue>>,
    agg: AggregationSpec,
)
    requires
        folded_values(schema, rows1, agg).to_multiset() == folded_values(
            schema,
            rows2,
            agg,
        ).to_multiset(),
        rows1.len() == rows2.len(),
    ensures
        spec_aggregate(schema, rows1, agg) == spec_aggregate(schema, rows2, agg),
{
    let v1 = folded_values(schema, rows1, agg);
    let v2 = folded_values(schema, rows2, agg);
    v1.to_multiset_ensures();
    v2.to_multiset_ensures();
    assert(v1.len() == v2.len());
    lemma_sum_of_permutation(v1, v2);
    if v1.len() > 0 {
        lemma_min_of_permutation(v1, v2);
        lemma_max_of_permutation(v1, v2);
    }
}

/// When the target field is present and numeric in every row, folding skips
/// nothing: the folded values are exactly each row's value, in order, and no
/// field error is raised.
pub proof fn lemma_all_present_fold(schema: Schema, rows: Seq<Seq<FieldValue>>, agg: AggregationSpec)
    requires
        !(agg.kind is Count),
        forall|i: int|
            0 <= i < rows.len() ==> record_error(schema, #[trigger] rows[i], agg) is None,
    ensures
        folded_values(schema, rows, agg) == rows.map_values(
            |row: Seq<FieldValue>| record_value(schema, row, agg),
        ),
        fold_errors(schema, rows, agg) == Seq::<crate::aggregate::FieldError>::empty(),
    decreases rows.len(),
{
    let f = |row: Seq<FieldValue>| record_value(schema, row, agg);
    if rows.len() == 0 {
        assert(folded_values(schema, rows, agg) =~= rows.map_values(f));
    } else {
        let rest = rows.drop_last();
        assert(forall|i: int| 0 <= i < rest.len() ==> rest[i] == #[trigger] rows[i]);
        lemma_all_present_fold(schema, rest, agg);
        assert(rows[rows.len() - 1] == rows.last());
        assert(folded_values(schema, rows, agg) =~= rows.map_values(f));
    }
}

} // verus!
