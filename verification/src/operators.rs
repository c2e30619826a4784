//! The physical operator pipeline: stages that each process one input
//! unit to completion before returning, so batch order is exactly
//! delivery order and nothing is buffered across batches. Two equally
//! valid compositions coexist: push style (`Operator`, a stage forwards
//! to its statically-known successor) and pipe style (`Transform`, a
//! stage returns its output to the caller, and `Pipe` chains two). The
//! canonical linear chain is Filter → Select → Collect; a chain
//! without a Filter degenerates to the bare Collect sink.

use vstd::prelude::*;
use std::marker::PhantomData;
use crate::batch::{Batch, BatchView};
use crate::errors::{ExecutionError, ExecutionErrorView};
use crate::evaluator::{FilterExec, bool_err, bool_wf};
use crate::expr::{Expression, ExprView};
use crate::selection::{
    build_selection, lemma_selection_props, pred_mask, pred_selection, sel_in_bounds,
    select_rows, spec_materialize,
};

verus! {

/// A push-style operator: consumes one typed input unit per `execute`
/// call and forwards to its statically-known successor before
/// returning; `all_inputs_received` flushes the chain when the stream
/// ends. What a step does is fixed per implementor by `exec_ens`.
pub trait Operator<In: View>: Sized {
    /// The contract of one `execute` step: how the operator after the
    /// call relates to the one before, the input's content and the
    /// result.
    spec fn exec_ens(self, post: Self, input: In::V, r: Result<(), ExecutionError>) -> bool;

    /// The contract of `all_inputs_received`.
    spec fn done_ens(self, post: Self, r: Result<(), ExecutionError>) -> bool;

    fn execute(&mut self, input: In) -> (r: Result<(), ExecutionError>)
        ensures
            old(self).exec_ens(*final(self), input@, r),
    ;

    fn all_inputs_received(&mut self) -> (r: Result<(), ExecutionError>)
        ensures
            old(self).done_ens(*final(self), r),
    ;
}

/// The terminal sink: appends every batch it receives, in arrival
/// order, to its owned output sequence.
pub struct Collect {
    res: Vec<Batch>,
}

impl Collect {
    /// The batches received so far, in arrival order.
    pub closed spec fn collected(self) -> Seq<BatchView> {
        self.res@.map_values(|b: Batch| b@)
    }

    pub fn new() -> (c: Collect)
        ensures
            c.collected() == Seq::<BatchView>::empty(),
    {
        let c = Collect { res: Vec::new() };
        proof {
            assert(c.collected() =~= Seq::<BatchView>::empty());
        }
        c
    }

    pub fn batches(&self) -> (r: &Vec<Batch>)
        ensures
            r@.map_values(|b: Batch| b@) == self.collected(),
    {
        &self.res
    }

    pub fn into_batches(self) -> (r: Vec<Batch>)
        ensures
            r@.map_values(|b: Batch| b@) == self.collected(),
    {
        self.res
    }
}

impl Operator<Batch> for Collect {
    open spec fn exec_ens(self, post: Self, input: BatchView, r: Result<(), ExecutionError>) -> bool {
        &&& post.collected() == self.collected().push(input)
        &&& r is Ok
    }

    open spec fn done_ens(self, post: Self, r: Result<(), ExecutionError>) -> bool {
        &&& post == self
        &&& r is Ok
    }

    fn execute(&mut self, input: Batch) -> (r: Result<(), ExecutionError>) {
        let ghost pre = *self;
        let ghost iv = input@;
        self.res.push(input);
        proof {
            assert(self.collected() =~= pre.collected().push(iv));
        }
        Ok(())
    }

    fn all_inputs_received(&mut self) -> (r: Result<(), ExecutionError>) {
        Ok(())
    }
}

/// The materializer: turns a selection vector and its batch into a new
/// batch holding only the selected rows, and pushes it onward. This is
/// the one point where surviving rows are copied into new storage.
pub struct Select<S> {
    pub successor: S,
}

impl<S> Select<S> {
    pub fn new(successor: S) -> (s: Select<S>)
        ensures
            s.successor == successor,
    {
        Select { successor }
    }
}

impl<S: Operator<Batch>> Operator<(Vec<usize>, Batch)> for Select<S> {
    open spec fn exec_ens(
        self,
        post: Self,
        input: (Seq<usize>, BatchView),
        r: Result<(), ExecutionError>,
    ) -> bool {
        if sel_in_bounds(input.0, input.1.num_rows()) {
            self.successor.exec_ens(post.successor, spec_materialize(input.1, input.0), r)
        } else {
            &&& r matches Err(e) && e@ == ExecutionErrorView::SelectionOutOfBounds
            &&& post == self
        }
    }

    open spec fn done_ens(self, post: Self, r: Result<(), ExecutionError>) -> bool {
        self.successor.done_ens(post.successor, r)
    }

    fn execute(&mut self, input: (Vec<usize>, Batch)) -> (r: Result<(), ExecutionError>) {
        let (indexes, batch) = input;
        match select_rows(&batch, &indexes) {
            Ok(out) => self.successor.execute(out),
            Err(e) => Err(e),
        }
    }

    fn all_inputs_received(&mut self) -> (r: Result<(), ExecutionError>) {
        self.successor.all_inputs_received()
    }
}

/// The filtering stage: evaluates its predicate over the incoming
/// batch, converts the boolean row mask into a selection vector, and
/// pushes the pair of selection vector and untouched batch onward.
pub struct Filter<S> {
    pub expression: Box<Expression>,
    pub successor: S,
}

impl<S> Filter<S> {
    pub fn new(expression: Box<Expression>, successor: S) -> (f: Filter<S>)
        ensures
            f.expression == expression,
            f.successor == successor,
    {
        Filter { expression, successor }
    }
}

impl<S: Operator<(Vec<usize>, Batch)>> Operator<Batch> for Filter<S> {
    open spec fn exec_ens(self, post: Self, input: BatchView, r: Result<(), ExecutionError>) -> bool {
        &&& post.expression@ == self.expression@
        &&& if bool_wf(self.expression@, input) {
            self.successor.exec_ens(
                post.successor,
                (pred_selection(self.expression@, input), input),
                r,
            )
        } else {
            &&& r matches Err(e) && e@ == bool_err(self.expression@, input)
            &&& post == self
        }
    }

    open spec fn done_ens(self, post: Self, r: Result<(), ExecutionError>) -> bool {
        &&& post.expression@ == self.expression@
        &&& self.successor.done_ens(post.successor, r)
    }

    fn execute(&mut self, input: Batch) -> (r: Result<(), ExecutionError>) {
        let map = {
            let exec = FilterExec::new(&input);
            match exec.evaluate(&self.expression) {
                Ok(m) => m,
                Err(e) => {
                    return Err(e);
                },
            }
        };
        let indices = build_selection(&map);
        proof {
            assert(map@ =~= pred_mask(self.expression@, input@));
        }
        self.successor.execute((indices, input))
    }

    fn all_inputs_received(&mut self) -> (r: Result<(), ExecutionError>) {
        self.successor.all_inputs_received()
    }
}

/// A pipe-style operator: transforms one input unit and returns the
/// output to its caller, who forwards it onward. What a step does is
/// fixed per implementor by `step_ens`.
pub trait Transform<In: View, Out: View>: Sized {
    /// The contract of one step: how the stage after the call relates
    /// to the one before, the input's content and the result.
    spec fn step_ens(self, post: Self, input: In::V, r: Result<Out, ExecutionError>) -> bool;

    fn execute(&mut self, input: In) -> (r: Result<Out, ExecutionError>)
        ensures
            old(self).step_ens(*final(self), input@, r),
    ;
}

/// The filtering stage in pipe form: evaluates its predicate over the
/// batch and returns the selection vector paired with the untouched
/// batch.
pub struct FilterStep {
    pub expression: Box<Expression>,
}

impl Transform<Batch, (Vec<usize>, Batch)> for FilterStep {
    open spec fn step_ens(
        self,
        post: Self,
        input: BatchView,
        r: Result<(Vec<usize>, Batch), ExecutionError>,
    ) -> bool {
        &&& post == self
        &&& match r {
            Ok(out) => bool_wf(self.expression@, input)
                && out@ == (pred_selection(self.expression@, input), input),
            Err(e) => !bool_wf(self.expression@, input)
                && e@ == bool_err(self.expression@, input),
        }
    }

    fn execute(&mut self, input: Batch) -> (r: Result<(Vec<usize>, Batch), ExecutionError>) {
        let map = {
            let exec = FilterExec::new(&input);
            match exec.evaluate(&self.expression) {
                Ok(m) => m,
                Err(e) => {
                    return Err(e);
                },
            }
        };
        let indices = build_selection(&map);
        proof {
            assert(map@ =~= pred_mask(self.expression@, input@));
        }
        Ok((indices, input))
    }
}

/// The materializing stage in pipe form: returns the narrowed batch.
pub struct SelectStep {}

impl Transform<(Vec<usize>, Batch), Batch> for SelectStep {
    open spec fn step_ens(
        self,
        post: Self,
        input: (Seq<usize>, BatchView),
        r: Result<Batch, ExecutionError>,
    ) -> bool {
        &&& post == self
        &&& match r {
            Ok(out) => sel_in_bounds(input.0, input.1.num_rows())
                && out@ == spec_materialize(input.1, input.0),
            Err(e) => !sel_in_bounds(input.0, input.1.num_rows())
                && e@ == ExecutionErrorView::SelectionOutOfBounds,
        }
    }

    fn execute(&mut self, input: (Vec<usize>, Batch)) -> (r: Result<Batch, ExecutionError>) {
        let (indexes, batch) = input;
        select_rows(&batch, &indexes)
    }
}

/// Chains two pipe-style stages: feeds the left stage's output to the
/// right stage, and hands on the first error met, the right stage left
/// untouched.
pub struct Pipe<Lhs, Rhs, In, Inter, Out> {
    pub lhs: Lhs,
    pub rhs: Rhs,
    pub _in: PhantomData<In>,
    pub _inter: PhantomData<Inter>,
    pub _out: PhantomData<Out>,
}

impl<Lhs, Rhs, In, Inter, Out> Pipe<Lhs, Rhs, In, Inter, Out> {
    pub fn new(lhs: Lhs, rhs: Rhs) -> (p: Self)
        ensures
            p.lhs == lhs,
            p.rhs == rhs,
    {
        Pipe { lhs, rhs, _in: PhantomData, _inter: PhantomData, _out: PhantomData }
    }
}

impl<In: View, Inter: View, Out: View, Lhs: Transform<In, Inter>, Rhs: Transform<Inter, Out>>
    Transform<In, Out> for Pipe<Lhs, Rhs, In, Inter, Out> {
    open spec fn step_ens(self, post: Self, input: In::V, r: Result<Out, ExecutionError>) -> bool {
        ||| (exists|e: ExecutionError|
            {
                &&& #[trigger] self.lhs.step_ens(post.lhs, input, Err(e))
                &&& post.rhs == self.rhs
                &&& r == Err::<Out, ExecutionError>(e)
            })
        ||| (exists|mid: Inter|
            {
                &&& #[trigger] self.lhs.step_ens(post.lhs, input, Ok(mid))
                &&& self.rhs.step_ens(post.rhs, mid@, r)
            })
    }

    fn execute(&mut self, input: In) -> (r: Result<Out, ExecutionError>) {
        let ghost iv = input@;
        let ghost pre = *self;
        let mid = match self.lhs.execute(input) {
            Ok(m) => m,
            Err(e) => {
                let ghost ge = e;
                proof {
                    assert(pre.lhs.step_ens(self.lhs, iv, Err(ge)));
                }
                return Err(e);
            },
        };
        let ghost m = mid;
        let out = self.rhs.execute(mid);
        proof {
            assert(pre.lhs.step_ens(self.lhs, iv, Ok(m)));
        }
        out
    }
}

/// The batch a Filter → Select pair leaves in the sink for one input
/// batch: the rows on which the predicate holds, materialized in order.
pub open spec fn spec_filtered_batch(e: ExprView, b: BatchView) -> BatchView {
    spec_materialize(b, pred_selection(e, b))
}

/// What a full pipeline run collects: one filtered batch per input
/// batch, in delivery order.
pub open spec fn spec_pipeline(e: ExprView, batches: Seq<BatchView>) -> Seq<BatchView> {
    batches.map_values(|b: BatchView| spec_filtered_batch(e, b))
}

/// Idempotence of a pipeline run: what a run collects is a function of
/// the delivered batches and the predicate alone, so re-running the
/// pipeline over the same immutable input collects identical output
/// batches.
pub proof fn lemma_pipeline_deterministic(
    e: ExprView,
    first: Seq<BatchView>,
    second: Seq<BatchView>,
)
    requires
        first == second,
    ensures
        spec_pipeline(e, first) == spec_pipeline(e, second),
{
}

/// Runs the canonical Filter → Select → Collect chain over a stream of
/// batches, delivered in order. Succeeds exactly when the predicate is
/// valid for every batch, and then collects one filtered batch per
/// input batch; otherwise it stops at the first failing batch and
/// reports that batch's evaluation error.
pub fn run_filter_pipeline(expression: Box<Expression>, batches: Vec<Batch>) -> (r: Result<
    Vec<Batch>,
    ExecutionError,
>)
    ensures
        match r {
            Ok(out) => {
                &&& forall|i: int| 0 <= i < batches@.len()
                    ==> bool_wf(expression@, #[trigger] batches@[i]@)
                &&& out@.map_values(|b: Batch| b@) == spec_pipeline(
                    expression@,
                    batches@.map_values(|b: Batch| b@),
                )
            },
            Err(e) => exists|i: int|
                {
                    &&& 0 <= i < batches@.len()
                    &&& !bool_wf(expression@, #[trigger] batches@[i]@)
                    &&& forall|j: int| 0 <= j < i ==> bool_wf(expression@, #[trigger] batches@[j]@)
                    &&& e@ == bool_err(expression@, batches@[i]@)
                },
        },
{
    let ghost origv = batches@.map_values(|b: Batch| b@);
    let ghost ev = expression@;
    let mut pipeline = Filter::new(expression, Select::new(Collect::new()));
    let mut remaining = batches;
    let ghost total = origv.len();
    proof {
        assert(remaining@.map_values(|b: Batch| b@) =~= origv.subrange(0, total as int));
        assert(pipeline.successor.successor.collected()
            =~= spec_pipeline(ev, origv.subrange(0, 0)));
    }
    while remaining.len() > 0
        invariant
            total == origv.len(),
            origv == batches@.map_values(|b: Batch| b@),
            ev == expression@,
            pipeline.expression@ == ev,
            remaining@.len() <= total,
            remaining@.map_values(|b: Batch| b@)
                == origv.subrange(total - remaining@.len(), total as int),
            forall|j: int| 0 <= j < total - remaining@.len()
                ==> bool_wf(ev, #[trigger] origv[j]),
            pipeline.successor.successor.collected() == spec_pipeline(
                ev,
                origv.subrange(0, total - remaining@.len()),
            ),
        decreases remaining@.len(),
    {
        let ghost done = total - remaining@.len();
        let ghost pre_rem = remaining@;
        let ghost pre_views = remaining@.map_values(|b: Batch| b@);
        let batch = remaining.remove(0);
        let ghost bv = batch@;
        proof {
            assert(pre_views[0] == pre_rem[0]@);
            assert(bv == origv[done as int]);
            assert(remaining@ == pre_rem.remove(0));
            assert forall|j: int| 0 <= j < remaining@.len()
                implies #[trigger] remaining@[j]@
                    == origv.subrange(done + 1, total as int)[j] by {
                assert(remaining@[j] == pre_rem[j + 1]);
                assert(pre_views[j + 1] == pre_rem[j + 1]@);
                assert(pre_views[j + 1] == origv[done + 1 + j]);
            }
            assert(remaining@.map_values(|b: Batch| b@)
                =~= origv.subrange(done + 1, total as int));
        }
        let rows = batch.num_rows();
        let ghost pre_pipeline = pipeline;
        let result = pipeline.execute(batch);
        proof {
            if bool_wf(ev, bv) {
                lemma_selection_props(pred_mask(ev, bv));
                assert(sel_in_bounds(pred_selection(ev, bv), bv.num_rows()));
            }
        }
        match result {
            Ok(_) => {
                proof {
                    assert(pipeline.successor.successor.collected()
                        == pre_pipeline.successor.successor.collected().push(
                            spec_filtered_batch(ev, bv),
                        ));
                    assert(spec_pipeline(ev, origv.subrange(0, done + 1))
                        =~= spec_pipeline(ev, origv.subrange(0, done as int)).push(
                            spec_filtered_batch(ev, origv[done as int]),
                        ));
                }
            },
            Err(e) => {
                proof {
                    assert(!bool_wf(ev, bv));
                    assert(e@ == bool_err(ev, origv[done as int]));
                    assert(batches@[done as int]@ == origv[done as int]);
                    assert forall|j: int| 0 <= j < done
                        implies bool_wf(expression@, #[trigger] batches@[j]@) by {
                        assert(origv[j] == batches@[j]@);
                    }
                    assert({
                        &&& 0 <= done < batches@.len()
                        &&& !bool_wf(expression@, batches@[done as int]@)
                        &&& forall|j: int| 0 <= j < done
                            ==> bool_wf(expression@, #[trigger] batches@[j]@)
                        &&& e@ == bool_err(expression@, batches@[done as int]@)
                    });
                }
                return Err(e);
            },
        }
    }
    let flush = pipeline.all_inputs_received();
    match flush {
        Ok(_) => {},
        Err(_) => {},
    }
    proof {
        assert(origv.subrange(0, total as int) =~= origv);
        assert(batches@.map_values(|b: Batch| b@) =~= origv);
        assert forall|i: int| 0 <= i < batches@.len()
            implies bool_wf(expression@, #[trigger] batches@[i]@) by {
            assert(origv[i] == batches@[i]@);
        }
    }
    let out = pipeline.successor.successor.into_batches();
    Ok(out)
}

} // verus!
