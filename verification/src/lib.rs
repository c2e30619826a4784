//! The execution core of a small relational query engine: a logical
//! description of a query — scan, filter, project — becomes a running
//! columnar data-flow pipeline, with the predicate machinery that makes
//! filtering correct. The plan lives in an append-only DAG with schema
//! propagation and usage back-references; execution streams columnar
//! batches through a push-style chain of typed operators; a recursive
//! evaluator turns a predicate into per-row booleans without any
//! row-at-a-time materialization.

pub mod batch;
pub mod catalog;
pub mod dag;
pub mod dag_builder;
pub mod errors;
pub mod evaluator;
pub mod expr;
pub mod kernels;
pub mod logical_plan;
pub mod operators;
pub mod optimizer;
pub mod schema;
pub mod selection;
mod sql_ast;
pub mod sql_parser;
