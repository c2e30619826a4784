//! The optimizer shell: an explicit identity pass over the logical
//! plan, kept as the extension point where rewrites will hang.

use vstd::prelude::*;
use crate::catalog::Catalog;
use crate::dag::Dag;
use crate::logical_plan::LogicalPlan;

verus! {

#[derive(Debug, Clone, PartialEq, Eq)]
pub enum OptimizerError {
    InvalidPlan,
}

/// Rewrites logical plans; today every rewrite is the identity.
pub struct Optimizer<C: Catalog> {
    catalog: C,
}

impl<C: Catalog> Optimizer<C> {
    pub closed spec fn spec_catalog(self) -> C {
        self.catalog
    }

    pub fn new(catalog: C) -> (o: Optimizer<C>)
        ensures
            o.spec_catalog() == catalog,
    {
        Optimizer { catalog }
    }

    /// Rewrites the plan in place. The pass currently changes nothing
    /// and cannot fail.
    pub fn run(&self, dag: &mut Dag<LogicalPlan>) -> (r: Result<(), OptimizerError>)
        ensures
            *final(dag) == *old(dag),
            r is Ok,
    {
        Ok(())
    }
}

} // verus!
