//! Columnar batches: an immutable chunk of a table, one same-length
//! array per schema field. A batch is never mutated after construction;
//! narrowing it means building a new batch.

use vstd::prelude::*;
use crate::schema::{DataType, FieldView, Schema, spec_field_index};

verus! {

/// The values of one column.
#[derive(Debug, PartialEq, Eq)]
pub enum ColumnData {
    Int32(Vec<i32>),
    Utf8(Vec<String>),
}

/// The mathematical content of a column.
pub enum ColumnView {
    Int32(Seq<i32>),
    Utf8(Seq<Seq<char>>),
}

impl View for ColumnData {
    type V = ColumnView;

    open spec fn view(&self) -> ColumnView {
        match self {
            ColumnData::Int32(v) => ColumnView::Int32(v@),
            ColumnData::Utf8(v) => ColumnView::Utf8(v@.map_values(|s: String| s@)),
        }
    }
}

pub open spec fn col_len(c: ColumnView) -> nat {
    match c {
        ColumnView::Int32(v) => v.len(),
        ColumnView::Utf8(v) => v.len(),
    }
}

/// Whether a column's representation agrees with a declared field type.
pub open spec fn col_matches(c: ColumnView, dt: DataType) -> bool {
    match c {
        ColumnView::Int32(_) => dt == DataType::Int32,
        ColumnView::Utf8(_) => dt == DataType::Utf8,
    }
}

impl ColumnData {
    pub fn len(&self) -> (n: usize)
        ensures
            n == col_len(self@),
    {
        match self {
            ColumnData::Int32(v) => v.len(),
            ColumnData::Utf8(v) => v.len(),
        }
    }
}

/// The mathematical content of a batch: a schema and the columns.
pub struct BatchView {
    pub schema: Seq<FieldView>,
    pub columns: Seq<ColumnView>,
}

impl BatchView {
    /// One column per field, each column of the declared type, and all
    /// columns of one length.
    pub open spec fn wf(self) -> bool {
        &&& self.columns.len() == self.schema.len()
        &&& forall|i: int| 0 <= i < self.columns.len()
            ==> col_matches(#[trigger] self.columns[i], self.schema[i].data_type)
        &&& forall|i: int| 0 <= i < self.columns.len()
            ==> col_len(#[trigger] self.columns[i]) == self.num_rows()
    }

    pub open spec fn num_rows(self) -> nat {
        if self.columns.len() == 0 {
            0
        } else {
            col_len(self.columns[0])
        }
    }

    pub open spec fn num_columns(self) -> nat {
        self.columns.len()
    }
}

/// An immutable columnar chunk: a schema plus one same-length array per
/// field. Constructed only through `try_new`, so every value is
/// well-formed.
#[derive(Debug, PartialEq, Eq)]
pub struct Batch {
    schema: Schema,
    columns: Vec<ColumnData>,
}

impl View for Batch {
    type V = BatchView;

    closed spec fn view(&self) -> BatchView {
        BatchView {
            schema: self.schema@,
            columns: self.columns@.map_values(|c: ColumnData| c@),
        }
    }
}

impl Batch {
    /// Holds of every batch value: construction goes through `try_new`.
    #[verifier::type_invariant]
    pub open spec fn inv(self) -> bool {
        self@.wf()
    }

    /// Builds a batch after checking that the columns fit the schema:
    /// one column per field, of the declared type, all of one length.
    /// Returns `None` exactly when the check fails.
    pub fn try_new(schema: Schema, columns: Vec<ColumnData>) -> (r: Option<Batch>)
        ensures
            match r {
                Some(b) => b@ == (BatchView {
                    schema: schema@,
                    columns: columns@.map_values(|c: ColumnData| c@),
                }) && b@.wf(),
                None => !(BatchView {
                    schema: schema@,
                    columns: columns@.map_values(|c: ColumnData| c@),
                }).wf(),
            },
    {
        let ghost bv = BatchView {
            schema: schema@,
            columns: columns@.map_values(|c: ColumnData| c@),
        };
        if columns.len() != schema.num_fields() {
            return None;
        }
        let rows: usize = if columns.len() == 0 { 0 } else { columns[0].len() };
        let n = columns.len();
        for i in 0..n
            invariant
                n == columns.len(),
                bv == (BatchView {
                    schema: schema@,
                    columns: columns@.map_values(|c: ColumnData| c@),
                }),
                bv.columns.len() == bv.schema.len(),
                rows == bv.num_rows(),
                forall|j: int| 0 <= j < i
                    ==> col_matches(#[trigger] bv.columns[j], bv.schema[j].data_type),
                forall|j: int| 0 <= j < i ==> col_len(#[trigger] bv.columns[j]) == rows,
        {
            proof {
                assert(bv.columns[i as int] == columns@[i as int]@);
                assert(bv.schema[i as int] == schema.fields@[i as int]@);
            }
            if columns[i].len() != rows {
                return None;
            }
            let type_ok = match (&columns[i], schema.field(i).data_type) {
                (ColumnData::Int32(_), DataType::Int32) => true,
                (ColumnData::Utf8(_), DataType::Utf8) => true,
                _ => false,
            };
            if !type_ok {
                return None;
            }
        }
        Some(Batch { schema, columns })
    }

    pub fn schema(&self) -> (s: &Schema)
        ensures
            s@ == self@.schema,
    {
        &self.schema
    }

    pub fn num_rows(&self) -> (n: usize)
        ensures
            n == self@.num_rows(),
    {
        proof {
            use_type_invariant(self);
        }
        if self.columns.len() == 0 {
            0
        } else {
            proof {
                assert(self@.columns[0] == self.columns@[0]@);
            }
            self.columns[0].len()
        }
    }

    pub fn num_columns(&self) -> (n: usize)
        ensures
            n == self@.num_columns(),
    {
        self.columns.len()
    }

    pub fn column(&self, i: usize) -> (c: &ColumnData)
        requires
            i < self@.num_columns(),
        ensures
            c@ == self@.columns[i as int],
    {
        proof {
            assert(self@.columns[i as int] == self.columns@[i as int]@);
        }
        &self.columns[i]
    }

    /// The first column whose field is called `name`, as arrow's
    /// `column_by_name` resolves it.
    pub fn column_by_name(&self, name: &str) -> (r: Option<&ColumnData>)
        ensures
            match r {
                Some(c) => spec_field_index(self@.schema, name@) matches Some(i)
                    && c@ == self@.columns[i],
                None => spec_field_index(self@.schema, name@) is None,
            },
    {
        proof {
            use_type_invariant(self);
        }
        match self.schema.field_index(name) {
            Some(i) => {
                proof {
                    crate::schema::lemma_field_index(self@.schema, name@);
                    assert(self@.columns[i as int] == self.columns@[i as int]@);
                }
                Some(&self.columns[i])
            },
            None => None,
        }
    }
}

} // verus!
