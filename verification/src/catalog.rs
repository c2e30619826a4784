//! Table-metadata resolution: a catalog maps table names to schemas,
//! and may fail a lookup with "table not found".

use vstd::prelude::*;
use vstd::string::StringExecFns;
use crate::schema::{FieldView, Schema};

verus! {

#[derive(Debug, Clone, PartialEq, Eq)]
pub enum CatalogError {
    TableNotFound(String),
}

/// The mathematical content of a `CatalogError`.
pub enum CatalogErrorView {
    TableNotFound { name: Seq<char> },
}

impl View for CatalogError {
    type V = CatalogErrorView;

    open spec fn view(&self) -> CatalogErrorView {
        match self {
            CatalogError::TableNotFound(n) => CatalogErrorView::TableNotFound { name: n@ },
        }
    }
}

impl CatalogError {
    /// The error's display text.
    pub fn message(&self) -> (m: String)
        ensures
            match self {
                CatalogError::TableNotFound(n) => m@ == "Catalog Error: Table with name "@
                    + n@ + " not found in catalog"@,
            },
    {
        match self {
            CatalogError::TableNotFound(table_name) => {
                let mut m = "Catalog Error: Table with name ".to_owned();
                m.append(table_name.as_str());
                m.append(" not found in catalog");
                m
            },
        }
    }
}

/// A table name → schema lookup service. `spec_get` fixes, per
/// implementor, which tables exist and what schema each has;
/// `get_schema` answers exactly according to it.
pub trait Catalog: Sized {
    /// The schema registered under `name`, if any table bears it.
    spec fn spec_get(self, name: Seq<char>) -> Option<Seq<FieldView>>;

    fn get_schema(&self, table_name: &str) -> (r: Result<Schema, CatalogError>)
        ensures
            match r {
                Ok(s) => self.spec_get(table_name@) == Some(s@),
                Err(e) => self.spec_get(table_name@) is None
                    && e@ == (CatalogErrorView::TableNotFound { name: table_name@ }),
            },
    ;
}

/// An in-memory catalog: an explicitly constructed, explicitly passed
/// table registry. A name registered twice resolves to the schema
/// registered last.
pub struct DummyCatalog {
    tables: Vec<(String, Schema)>,
}

/// The schema under `name` among the registered entries, later entries
/// shadowing earlier ones.
pub open spec fn spec_lookup(
    entries: Seq<(String, Schema)>,
    name: Seq<char>,
) -> Option<Seq<FieldView>>
    decreases entries.len(),
{
    if entries.len() == 0 {
        None
    } else if entries.last().0@ == name {
        Some(entries.last().1@)
    } else {
        spec_lookup(entries.drop_last(), name)
    }
}

impl DummyCatalog {
    pub fn new() -> (c: DummyCatalog)
        ensures
            forall|n: Seq<char>| c.spec_get(n) is None,
    {
        DummyCatalog { tables: Vec::new() }
    }

    /// Registers `schema` under `name`, shadowing any earlier entry.
    pub fn add_table(&mut self, name: &str, schema: Schema)
        ensures
            final(self).spec_get(name@) == Some(schema@),
            forall|n: Seq<char>| n != name@
                ==> final(self).spec_get(n) == old(self).spec_get(n),
    {
        let ghost pre = self.tables@;
        let owned = name.to_owned();
        let ghost sv = schema@;
        self.tables.push((owned, schema));
        proof {
            assert(self.tables@.drop_last() =~= pre);
            assert(self.tables@.last().0@ == name@);
            assert(self.tables@.last().1@ == sv);
        }
    }
}

impl Catalog for DummyCatalog {
    closed spec fn spec_get(self, name: Seq<char>) -> Option<Seq<FieldView>> {
        spec_lookup(self.tables@, name)
    }

    /// Resolves a table name, or reports it as not found.
    fn get_schema(&self, table_name: &str) -> (r: Result<Schema, CatalogError>) {
        let wanted = table_name.to_owned();
        let mut i = self.tables.len();
        proof {
            assert(self.tables@.subrange(0, i as int) =~= self.tables@);
        }
        while i > 0
            invariant
                i <= self.tables@.len(),
                wanted@ == table_name@,
                spec_lookup(self.tables@, table_name@)
                    == spec_lookup(self.tables@.subrange(0, i as int), table_name@),
            decreases i,
        {
            i = i - 1;
            let ghost upto = self.tables@.subrange(0, i + 1);
            proof {
                assert(upto.last() == self.tables@[i as int]);
                assert(upto.drop_last() =~= self.tables@.subrange(0, i as int));
            }
            if self.tables[i].0 == wanted {
                return Ok(self.tables[i].1.duplicate());
            }
        }
        proof {
            assert(self.tables@.subrange(0, 0) =~= Seq::<(String, Schema)>::empty());
        }
        Err(CatalogError::TableNotFound(wanted))
    }
}

} // verus!
