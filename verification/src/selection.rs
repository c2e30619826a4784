//! Selection vectors and their materialization. A selection vector is
//! an ascending, duplicate-free list of row indices into a batch,
//! marking the rows that survive a predicate; materializing one builds
//! a new batch holding exactly those rows, in order, under the original
//! schema. Nothing upstream of materialization copies row data.

use vstd::prelude::*;
use crate::batch::{Batch, BatchView, ColumnData, ColumnView, col_len, col_matches};
use crate::errors::ExecutionError;
use crate::evaluator::bool_at;
use crate::expr::ExprView;

verus! {

/// The selection vector of a boolean row mask: the indices of the true
/// entries, in ascending order.
pub open spec fn spec_selection(mask: Seq<bool>) -> Seq<usize>
    decreases mask.len(),
{
    if mask.len() == 0 {
        Seq::empty()
    } else {
        let prefix = spec_selection(mask.drop_last());
        if mask.last() {
            prefix.push((mask.len() - 1) as usize)
        } else {
            prefix
        }
    }
}

/// The boolean row mask of a predicate over a batch: the row-by-row
/// evaluation of the expression.
pub open spec fn pred_mask(e: ExprView, b: BatchView) -> Seq<bool> {
    Seq::new(b.num_rows(), |i: int| bool_at(e, b, i))
}

/// The row indices of a batch at which a predicate holds, ascending.
pub open spec fn pred_selection(e: ExprView, b: BatchView) -> Seq<usize> {
    spec_selection(pred_mask(e, b))
}

/// A selection vector lists exactly the rows on which the mask is true,
/// each once, in ascending order.
pub proof fn lemma_selection_props(mask: Seq<bool>)
    requires
        mask.len() <= usize::MAX,
    ensures
        forall|k: int| 0 <= k < spec_selection(mask).len()
            ==> #[trigger] spec_selection(mask)[k] < mask.len()
                && mask[spec_selection(mask)[k] as int],
        forall|k1: int, k2: int| 0 <= k1 < k2 < spec_selection(mask).len()
            ==> spec_selection(mask)[k1] < spec_selection(mask)[k2],
        forall|i: int| 0 <= i < mask.len() && mask[i]
            ==> spec_selection(mask).contains(i as usize),
    decreases mask.len(),
{
    if mask.len() > 0 {
        let head = mask.drop_last();
        lemma_selection_props(head);
        let pre = spec_selection(head);
        let sel = spec_selection(mask);
        assert forall|k: int| 0 <= k < sel.len()
            implies #[trigger] sel[k] < mask.len() && mask[sel[k] as int] by {
            if k < pre.len() {
                assert(spec_selection(head)[k] < head.len()
                    && head[spec_selection(head)[k] as int]);
                assert(sel[k] == pre[k]);
                assert(head[pre[k] as int] == mask[pre[k] as int]);
            } else {
                assert(mask.last());
                assert(sel[k] == (mask.len() - 1) as usize);
            }
        }
        assert forall|k1: int, k2: int| 0 <= k1 < k2 < sel.len()
            implies sel[k1] < sel[k2] by {
            if k2 < pre.len() {
                assert(spec_selection(head)[k1] < spec_selection(head)[k2]);
                assert(sel[k1] == pre[k1] && sel[k2] == pre[k2]);
            } else {
                assert(mask.last());
                assert(spec_selection(head)[k1] < head.len()
                    && head[spec_selection(head)[k1] as int]);
                assert(sel[k1] == pre[k1]);
                assert(sel[k2] == (mask.len() - 1) as usize);
            }
        }
        assert forall|i: int| 0 <= i < mask.len() && mask[i]
            implies sel.contains(i as usize) by {
            if i < mask.len() - 1 {
                assert(head[i] == mask[i]);
                assert(spec_selection(head).contains(i as usize));
                let k = choose|k: int| 0 <= k < pre.len() && pre[k] == i as usize;
                assert(sel[k] == i as usize);
            } else {
                assert(sel[sel.len() - 1] == i as usize);
            }
        }
    }
}

/// Builds the selection vector of a boolean mask: the positions holding
/// `true`, ascending.
pub fn build_selection(mask: &Vec<bool>) -> (sel: Vec<usize>)
    ensures
        sel@ == spec_selection(mask@),
{
    let n = mask.len();
    let mut sel: Vec<usize> = Vec::new();
    for i in 0..n
        invariant
            n == mask@.len(),
            sel@ == spec_selection(mask@.subrange(0, i as int)),
    {
        let ghost shorter = mask@.subrange(0, i as int);
        let ghost longer = mask@.subrange(0, i + 1);
        proof {
            assert(longer.drop_last() =~= shorter);
        }
        if mask[i] {
            sel.push(i);
        }
    }
    proof {
        assert(mask@.subrange(0, mask@.len() as int) =~= mask@);
    }
    sel
}

/// Whether every index of a selection vector lies inside a batch of
/// `rows` rows.
pub open spec fn sel_in_bounds(sel: Seq<usize>, rows: nat) -> bool {
    forall|k: int| 0 <= k < sel.len() ==> #[trigger] sel[k] < rows
}

/// One column narrowed to the selected rows.
pub open spec fn select_col(c: ColumnView, sel: Seq<usize>) -> ColumnView {
    match c {
        ColumnView::Int32(vals) => ColumnView::Int32(
            Seq::new(sel.len(), |k: int| vals[sel[k] as int]),
        ),
        ColumnView::Utf8(vals) => ColumnView::Utf8(
            Seq::new(sel.len(), |k: int| vals[sel[k] as int]),
        ),
    }
}

/// A batch narrowed to the selected rows: the schema and the column
/// order are kept; each column holds the values at the selected
/// indices, in selection order.
pub open spec fn spec_materialize(b: BatchView, sel: Seq<usize>) -> BatchView {
    BatchView {
        schema: b.schema,
        columns: Seq::new(b.columns.len(), |j: int| select_col(b.columns[j], sel)),
    }
}

/// Filter + Select equivalence: for a well-formed batch and a valid
/// predicate, the materialized output holds exactly the rows on which
/// the row-by-row evaluation of the predicate is true — every selected
/// row satisfies it, every satisfying row is selected, original row
/// order is kept, and each output column holds the input values at the
/// selected indices under the unchanged schema.
pub proof fn lemma_filter_select_equivalence(e: ExprView, b: BatchView)
    requires
        b.wf(),
        b.num_rows() <= usize::MAX,
        crate::evaluator::bool_wf(e, b),
    ensures
        ({
            let sel = pred_selection(e, b);
            let out = spec_materialize(b, sel);
            &&& forall|k: int| 0 <= k < sel.len()
                ==> #[trigger] sel[k] < b.num_rows() && bool_at(e, b, sel[k] as int)
            &&& forall|i: int| 0 <= i < b.num_rows() && bool_at(e, b, i)
                ==> sel.contains(i as usize)
            &&& forall|k1: int, k2: int| 0 <= k1 < k2 < sel.len() ==> sel[k1] < sel[k2]
            &&& out.schema == b.schema
            &&& out.columns.len() == b.columns.len()
            &&& forall|j: int| 0 <= j < b.columns.len()
                ==> #[trigger] out.columns[j] == select_col(b.columns[j], sel)
        }),
{
    let mask = pred_mask(e, b);
    lemma_selection_props(mask);
    let sel = pred_selection(e, b);
    assert forall|k: int| 0 <= k < sel.len()
        implies #[trigger] sel[k] < b.num_rows() && bool_at(e, b, sel[k] as int) by {
        assert(spec_selection(mask)[k] < mask.len() && mask[spec_selection(mask)[k] as int]);
    }
    assert forall|i: int| 0 <= i < b.num_rows() && bool_at(e, b, i)
        implies sel.contains(i as usize) by {
        assert(mask[i]);
    }
}

/// Materializes the selected rows of a batch into a new batch: per
/// column, only the values at the selected indices, preserving column
/// order and the original schema. Fails exactly when some index points
/// past the end of the batch.
pub fn select_rows(batch: &Batch, indexes: &Vec<usize>) -> (r: Result<Batch, ExecutionError>)
    ensures
        match r {
            Ok(out) => sel_in_bounds(indexes@, batch@.num_rows())
                && out@ == spec_materialize(batch@, indexes@)
                && out@.schema == batch@.schema
                && out@.num_columns() == batch@.num_columns()
                && (batch@.num_columns() > 0 ==> out@.num_rows() == indexes@.len()),
            Err(e) => !sel_in_bounds(indexes@, batch@.num_rows())
                && e@ == crate::errors::ExecutionErrorView::SelectionOutOfBounds,
        },
{
    proof {
        use_type_invariant(batch);
    }
    let rows = batch.num_rows();
    let sel_len = indexes.len();
    for k in 0..sel_len
        invariant
            sel_len == indexes@.len(),
            rows == batch@.num_rows(),
            forall|j: int| 0 <= j < k ==> #[trigger] indexes@[j] < rows,
    {
        if indexes[k] >= rows {
            return Err(ExecutionError::SelectionOutOfBounds);
        }
    }
    let ghost target = spec_materialize(batch@, indexes@);
    let ncols = batch.num_columns();
    let mut columns: Vec<ColumnData> = Vec::new();
    for j in 0..ncols
        invariant
            batch@.wf(),
            ncols == batch@.num_columns(),
            rows == batch@.num_rows(),
            sel_len == indexes@.len(),
            sel_in_bounds(indexes@, batch@.num_rows()),
            target == spec_materialize(batch@, indexes@),
            columns@.len() == j,
            forall|t: int| 0 <= t < j ==> #[trigger] columns@[t]@ == target.columns[t],
    {
        proof {
            assert(col_len(batch@.columns[j as int]) == batch@.num_rows());
        }
        let narrowed = match batch.column(j) {
            ColumnData::Int32(vals) => {
                let mut data: Vec<i32> = Vec::new();
                for k in 0..sel_len
                    invariant
                        sel_len == indexes@.len(),
                        vals@.len() == rows,
                        sel_in_bounds(indexes@, rows as nat),
                        data@.len() == k,
                        forall|t: int| 0 <= t < k
                            ==> #[trigger] data@[t] == vals@[indexes@[t] as int],
                {
                    data.push(vals[indexes[k]]);
                }
                ColumnData::Int32(data)
            },
            ColumnData::Utf8(vals) => {
                let mut data: Vec<String> = Vec::new();
                for k in 0..sel_len
                    invariant
                        sel_len == indexes@.len(),
                        vals@.len() == rows,
                        sel_in_bounds(indexes@, rows as nat),
                        data@.len() == k,
                        forall|t: int| 0 <= t < k
                            ==> #[trigger] data@[t]@ == vals@[indexes@[t] as int]@,
                {
                    data.push(vals[indexes[k]].clone());
                }
                ColumnData::Utf8(data)
            },
        };
        proof {
            assert(narrowed@ == select_col(batch@.columns[j as int], indexes@)) by {
                match narrowed@ {
                    ColumnView::Int32(d) => {
                        assert(d =~= select_col(batch@.columns[j as int], indexes@)->Int32_0);
                    },
                    ColumnView::Utf8(d) => {
                        assert(d =~= select_col(batch@.columns[j as int], indexes@)->Utf8_0);
                    },
                }
            }
        }
        columns.push(narrowed);
    }
    let schema = batch.schema().duplicate();
    let ghost built = BatchView {
        schema: schema@,
        columns: columns@.map_values(|c: ColumnData| c@),
    };
    proof {
        assert(built.columns =~= target.columns);
        assert(built == target);
        assert forall|j: int| 0 <= j < target.columns.len()
            implies col_matches(#[trigger] target.columns[j], target.schema[j].data_type)
                && col_len(target.columns[j]) == target.num_rows() by {
            assert(col_matches(batch@.columns[j], batch@.schema[j].data_type));
            assert(col_len(target.columns[j]) == indexes@.len());
        }
        assert(target.wf());
    }
    match Batch::try_new(schema, columns) {
        Some(out) => Ok(out),
        None => {
            proof {
                assert(false);
            }
            Err(ExecutionError::SelectionOutOfBounds)
        },
    }
}

} // verus!
