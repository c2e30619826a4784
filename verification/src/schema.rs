//! Table schemas: a schema is an ordered list of named, typed columns.

use vstd::prelude::*;

verus! {

/// The primitive type of a column.
#[derive(Clone, Copy, Debug, PartialEq, Eq, Structural)]
pub enum DataType {
    Int32,
    Utf8,
}

/// A named, typed column slot of a schema.
#[derive(Clone, Debug, PartialEq, Eq)]
pub struct Field {
    pub name: String,
    pub data_type: DataType,
}

/// The mathematical content of a `Field`: its name as a character
/// sequence together with its type.
pub struct FieldView {
    pub name: Seq<char>,
    pub data_type: DataType,
}

impl View for Field {
    type V = FieldView;

    open spec fn view(&self) -> FieldView {
        FieldView { name: self.name@, data_type: self.data_type }
    }
}

impl Field {
    pub fn new(name: String, data_type: DataType) -> (f: Field)
        ensures
            f@.name == name@,
            f@.data_type == data_type,
    {
        Field { name, data_type }
    }

    /// A copy whose mathematical content equals this field's.
    pub fn duplicate(&self) -> (f: Field)
        ensures
            f@ == self@,
    {
        Field { name: self.name.clone(), data_type: self.data_type }
    }
}

/// An ordered list of fields, fixed at construction.
#[derive(Clone, Debug, PartialEq, Eq)]
pub struct Schema {
    pub fields: Vec<Field>,
}

impl View for Schema {
    type V = Seq<FieldView>;

    open spec fn view(&self) -> Seq<FieldView> {
        self.fields@.map_values(|f: Field| f@)
    }
}

/// The position of the first field called `name`, if any field is.
pub open spec fn spec_field_index(fields: Seq<FieldView>, name: Seq<char>) -> Option<int>
    decreases fields.len(),
{
    if fields.len() == 0 {
        None
    } else if fields.first().name == name {
        Some(0)
    } else {
        match spec_field_index(fields.drop_first(), name) {
            Some(i) => Some(i + 1),
            None => None,
        }
    }
}

/// `spec_field_index` finds a position exactly when some field bears the
/// name, and the position it finds is in range and bears it.
pub proof fn lemma_field_index(fields: Seq<FieldView>, name: Seq<char>)
    ensures
        spec_field_index(fields, name) is Some <==> exists|i: int|
            0 <= i < fields.len() && fields[i].name == name,
        spec_field_index(fields, name) matches Some(i) ==> 0 <= i < fields.len()
            && fields[i].name == name,
    decreases fields.len(),
{
    if fields.len() > 0 && fields.first().name != name {
        lemma_field_index(fields.drop_first(), name);
        if exists|i: int| 0 <= i < fields.len() && fields[i].name == name {
            let i = choose|i: int| 0 <= i < fields.len() && fields[i].name == name;
            assert(fields.drop_first()[i - 1] == fields[i]);
        }
    }
}

impl Schema {
    pub fn new(fields: Vec<Field>) -> (s: Schema)
        ensures
            s@ == fields@.map_values(|f: Field| f@),
    {
        Schema { fields }
    }

    pub fn empty() -> (s: Schema)
        ensures
            s@ == Seq::<FieldView>::empty(),
    {
        let fields: Vec<Field> = Vec::new();
        let s = Schema { fields };
        proof {
            assert(s@ =~= Seq::<FieldView>::empty());
        }
        s
    }

    /// A copy whose mathematical content equals this schema's.
    pub fn duplicate(&self) -> (s: Schema)
        ensures
            s@ == self@,
    {
        let mut fields: Vec<Field> = Vec::new();
        let n = self.fields.len();
        for i in 0..n
            invariant
                n == self.fields.len(),
                fields@.len() == i,
                forall|j: int| 0 <= j < i ==> #[trigger] fields@[j]@ == self.fields@[j]@,
        {
            fields.push(self.fields[i].duplicate());
        }
        let s = Schema { fields };
        proof {
            assert(s@ =~= self@);
        }
        s
    }

    pub fn num_fields(&self) -> (n: usize)
        ensures
            n == self@.len(),
    {
        self.fields.len()
    }

    pub fn field(&self, i: usize) -> (f: &Field)
        requires
            i < self@.len(),
        ensures
            f@ == self@[i as int],
    {
        &self.fields[i]
    }

    /// The position of the first field called `name`, searched front to back.
    pub fn field_index(&self, name: &str) -> (r: Option<usize>)
        ensures
            match r {
                Some(i) => spec_field_index(self@, name@) == Some(i as int),
                None => spec_field_index(self@, name@) is None,
            },
    {
        let ghost fields = self@;
        let wanted = name.to_owned();
        let n = self.fields.len();
        for i in 0..n
            invariant
                n == self.fields.len(),
                fields == self@,
                wanted@ == name@,
                forall|j: int| 0 <= j < i ==> fields[j].name != name@,
        {
            proof {
                assert(fields[i as int] == self.fields[i as int]@);
            }
            if self.fields[i].name == wanted {
                proof {
                    lemma_field_index_prefix(fields, name@, i as int);
                }
                return Some(i);
            }
        }
        proof {
            lemma_field_index(fields, name@);
            assert(!exists|i: int| 0 <= i < fields.len() && fields[i].name == name@);
        }
        None
    }
}

/// If no field before position `i` bears `name` and the field at `i` does,
/// then `i` is the first position bearing it.
proof fn lemma_field_index_prefix(fields: Seq<FieldView>, name: Seq<char>, i: int)
    requires
        0 <= i < fields.len(),
        fields[i].name == name,
        forall|j: int| 0 <= j < i ==> fields[j].name != name,
    ensures
        spec_field_index(fields, name) == Some(i),
    decreases fields.len(),
{
    if i > 0 {
        lemma_field_index_prefix(fields.drop_first(), name, i - 1);
    }
}

} // verus!
