//! A miniature push-style kernel chain over plain integers: a generator
//! feeds a threshold filter, which tags each value with its verdict,
//! and a sink keeps the values that passed. It is the smallest
//! demonstration of the push protocol the batch operators follow.

use vstd::prelude::*;

verus! {

/// The sink: keeps every value whose tag says it passed.
pub struct CollectKernel {
    pub res: Vec<usize>,
}

impl CollectKernel {
    pub fn new() -> (k: CollectKernel)
        ensures
            k.res@ == Seq::<usize>::empty(),
    {
        CollectKernel { res: Vec::new() }
    }

    /// Keeps the value exactly when its tag is true.
    pub fn execute(&mut self, input: (bool, usize))
        ensures
            final(self).res@ == if input.0 {
                old(self).res@.push(input.1)
            } else {
                old(self).res@
            },
    {
        if input.0 {
            self.res.push(input.1);
        }
    }
}

/// Tags each incoming value with whether it exceeds the threshold and
/// pushes the tagged value to the sink.
pub struct FilterKernel {
    pub val: usize,
    pub child: CollectKernel,
}

impl FilterKernel {
    pub fn new(val: usize, child: CollectKernel) -> (k: FilterKernel)
        ensures
            k.val == val,
            k.child == child,
    {
        FilterKernel { val, child }
    }

    pub fn execute(&mut self, input: usize)
        ensures
            final(self).val == old(self).val,
            final(self).child.res@ == if input > old(self).val {
                old(self).child.res@.push(input)
            } else {
                old(self).child.res@
            },
    {
        let verdict = input > self.val;
        self.child.execute((verdict, input));
    }
}

/// The values of `0..n` that exceed the threshold, in order.
pub open spec fn above_threshold(n: nat, val: usize) -> Seq<usize>
    decreases n,
{
    if n == 0 {
        Seq::empty()
    } else {
        let rest = above_threshold((n - 1) as nat, val);
        if n - 1 > val {
            rest.push((n - 1) as usize)
        } else {
            rest
        }
    }
}

/// Generates the values `0..10` and pushes each through the filter.
pub struct GeneratorKernel {
    pub child: FilterKernel,
}

impl GeneratorKernel {
    pub fn new(child: FilterKernel) -> (k: GeneratorKernel)
        ensures
            k.child == child,
    {
        GeneratorKernel { child }
    }

    pub fn execute(&mut self, input: ())
        ensures
            final(self).child.val == old(self).child.val,
            final(self).child.child.res@ == old(self).child.child.res@
                + above_threshold(10, old(self).child.val),
    {
        let ghost pre = self.child.child.res@;
        let ghost val = self.child.val;
        for i in 0..10usize
            invariant
                self.child.val == val,
                self.child.child.res@ == pre + above_threshold(i as nat, val),
        {
            self.child.execute(i);
            proof {
                if i > val {
                    assert(pre + above_threshold((i + 1) as nat, val)
                        =~= (pre + above_threshold(i as nat, val)).push(i));
                } else {
                    assert(pre + above_threshold((i + 1) as nat, val)
                        =~= pre + above_threshold(i as nat, val));
                }
            }
        }
    }
}

} // verus!
