//! The data model: typed field values, the schema fixed for one run, and the
//! records that flow through the pipeline.

use vstd::prelude::*;

verus! {

/// Declared type of a schema field.
#[derive(Clone, Copy, Debug, PartialEq, Eq, Structural)]
pub enum FieldType {
    Text,
    Number,
}

/// One field's value inside a record: a string, a 64-bit signed integer, or
/// nothing at all (optional data).
#[derive(Debug, PartialEq, Eq)]
pub enum FieldValue {
    Text(String),
    Number(i64),
    Absent,
}

/// The fixed, ordered list of field names and declared types shared by every
/// record of one run.
#[derive(Debug)]
pub struct Schema {
    pub names: Vec<String>,
    pub kinds: Vec<FieldType>,
}

/// One row of data; `values` is aligned positionally with the schema.
#[derive(Debug)]
pub struct Record {
    pub values: Vec<FieldValue>,
}

/// Index of the first name in `names` whose characters equal `name`.
pub open spec fn first_index(names: Seq<String>, name: Seq<char>) -> Option<int>
    decreases names.len(),
{
    if names.len() == 0 {
        None
    } else if names[0]@ == name {
        Some(0)
    } else {
        match first_index(names.drop_first(), name) {
            Some(i) => Some(i + 1),
            None => None,
        }
    }
}

pub proof fn lemma_first_index_props(names: Seq<String>, name: Seq<char>)
    ensures
        match first_index(names, name) {
            Some(i) => 0 <= i < names.len() && names[i]@ == name && forall|k: int|
                0 <= k < i ==> names[k]@ != name,
            None => forall|k: int| 0 <= k < names.len() ==> names[k]@ != name,
        },
    decreases names.len(),
{
    if names.len() > 0 && names[0]@ != name {
        let rest = names.drop_first();
        lemma_first_index_props(rest, name);
        assert(forall|k: int| 1 <= k < names.len() ==> #[trigger] names[k] == rest[k - 1]);
    }
}

pub proof fn lemma_first_index_at(names: Seq<String>, name: Seq<char>, j: int)
    requires
        0 <= j < names.len(),
        names[j]@ == name,
        forall|k: int| 0 <= k < j ==> names[k]@ != name,
    ensures
        first_index(names, name) == Some(j),
    decreases names.len(),
{
    if j > 0 {
        lemma_first_index_at(names.drop_first(), name, j - 1);
    }
}

impl Schema {
    /// A well-formed schema pairs every field name with a declared type.
    pub open spec fn wf(&self) -> bool {
        self.names@.len() == self.kinds@.len()
    }

    pub open spec fn spec_index_of(&self, name: Seq<char>) -> Option<int> {
        first_index(self.names@, name)
    }

    /// Position of the first schema field called `name`, if any.
    pub fn index_of(&self, name: &String) -> (r: Option<usize>)
        ensures
            match r {
                Some(i) => self.spec_index_of(name@) == Some(i as int) && i
                    < self.names@.len() && self.names@[i as int]@ == name@,
                None => self.spec_index_of(name@) is None,
            },
    {
        let n = self.names.len();
        let mut j: usize = 0;
        while j < n
            invariant
                n == self.names@.len(),
                0 <= j <= n,
                forall|k: int| 0 <= k < j ==> self.names@[k]@ != name@,
            decreases n - j,
        {
            if self.names[j] == *name {
                proof {
                    lemma_first_index_at(self.names@, name@, j as int);
                }
                return Some(j);
            }
            j += 1;
        }
        proof {
            lemma_first_index_props(self.names@, name@);
            if self.spec_index_of(name@) is Some {
                let i = self.spec_index_of(name@)->0;
                assert(self.names@[i]@ != name@);
            }
        }
        None
    }
}

impl View for Record {
    type V = Seq<FieldValue>;

    open spec fn view(&self) -> Seq<FieldValue> {
        self.values@
    }
}

impl Record {
    /// A record is well formed for a schema when it has one value per field.
    pub open spec fn wf(&self, schema: &Schema) -> bool {
        self@.len() == schema.names@.len()
    }
}

/// A row is well formed for a schema when it has one value per field.
pub open spec fn row_wf(schema: Schema, row: Seq<FieldValue>) -> bool {
    row.len() == schema.names@.len()
}

/// The value a row holds for the named schema field, if the field exists.
pub open spec fn field_value(schema: Schema, row: Seq<FieldValue>, name: Seq<char>) -> Option<
    FieldValue,
> {
    match first_index(schema.names@, name) {
        Some(i) => if 0 <= i < row.len() {
            Some(row[i])
        } else {
            None
        },
        None => None,
    }
}

/// An explicit deep copy of a value, with its contents pinned down.
pub fn clone_value(v: &FieldValue) -> (r: FieldValue)
    ensures
        r == *v,
{
    match v {
        FieldValue::Text(s) => FieldValue::Text(s.clone()),
        FieldValue::Number(n) => FieldValue::Number(*n),
        FieldValue::Absent => FieldValue::Absent,
    }
}

/// An explicit deep copy of a record, with its contents pinned down.
pub fn clone_record(rec: &Record) -> (r: Record)
    ensures
        r@ == rec@,
{
    let n = rec.values.len();
    let mut values: Vec<FieldValue> = Vec::new();
    let mut i: usize = 0;
    while i < n
        invariant
            n == rec.values@.len(),
            0 <= i <= n,
            values@ =~= rec.values@.subrange(0, i as int),
        decreases n - i,
    {
        values.push(clone_value(&rec.values[i]));
        proof {
            assert(values@ =~= rec.values@.subrange(0, i + 1));
        }
        i += 1;
    }
    proof {
        assert(values@ =~= rec.values@);
    }
    Record { values }
}

} // verus!
