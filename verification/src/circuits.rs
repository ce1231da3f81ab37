//! Ordered sequences of operations over a set of units.

use crate::base::error::QduId;
use crate::idset::insert_id;
use crate::idset::sorted_unique;
use crate::operations::involved_qdus_of;
use crate::operations::Operation;
use vstd::prelude::*;

verus! {

/// An ordered sequence of operations, together with the set of every unit
/// they involve, kept sorted and without duplicates.
#[derive(Clone, PartialEq)]
pub struct Circuit {
    qdus: Vec<QduId>,
    operations: Vec<Operation>,
}

impl Circuit {
    /// The operation sequence, for specifications.
    pub closed spec fn ops(&self) -> Seq<Operation> {
        self.operations@
    }

    /// The unit set, for specifications.
    pub closed spec fn unit_seq(&self) -> Seq<QduId> {
        self.qdus@
    }

    /// The unit set is sorted and duplicate-free, and holds exactly the
    /// units the operations involve.
    pub open spec fn wf(&self) -> bool {
        &&& sorted_unique(self.unit_seq())
        &&& forall|x: QduId|
            #[trigger] self.unit_seq().contains(x) <==> exists|i: int|
                0 <= i < self.ops().len() && involved_qdus_of(#[trigger] self.ops()[i]).contains(x)
    }

    /// An empty circuit.
    pub fn new() -> (r: Self)
        ensures
            r.wf(),
            r.ops() == Seq::<Operation>::empty(),
            r.unit_seq() == Seq::<QduId>::empty(),
    {
        let r = Self { qdus: Vec::new(), operations: Vec::new() };
        proof {
            assert forall|x: QduId| #[trigger] r.unit_seq().contains(x) implies exists|i: int|
                0 <= i < r.ops().len() && involved_qdus_of(#[trigger] r.ops()[i]).contains(x) by {}
        }
        r
    }

    /// Appends one operation, registering the units it involves.
    pub fn add_operation(&mut self, op: Operation)
        requires
            old(self).wf(),
        ensures
            final(self).wf(),
            final(self).ops() == old(self).ops().push(op),
    {
        let involved = op.involved_qdus();
        let ghost pre = *self;
        let mut k: usize = 0;
        while k < involved.len()
            invariant
                sorted_unique(self.qdus@),
                k <= involved@.len(),
                involved@ == involved_qdus_of(op),
                self.operations@ == pre.operations@,
                forall|x: QduId|
                    #[trigger] self.qdus@.contains(x) <==> (pre.qdus@.contains(x)
                        || involved@.subrange(0, k as int).contains(x)),
            decreases involved@.len() - k,
        {
            let id = involved[k];
            insert_id(&mut self.qdus, id);
            proof {
                let sub = involved@.subrange(0, k + 1);
                assert(sub.drop_last() =~= involved@.subrange(0, k as int));
                assert(sub.last() == involved@[k as int]);
                assert forall|x: QduId| involved@.subrange(0, k + 1).contains(x) implies (
                involved@.subrange(0, k as int).contains(x) || x == involved@[k as int]) by {
                    let i = choose|i: int| 0 <= i < sub.len() && sub[i] == x;
                    if i < k {
                        assert(involved@.subrange(0, k as int)[i] == x);
                    }
                }
                assert forall|x: QduId| (involved@.subrange(0, k as int).contains(x) || x
                    == involved@[k as int]) implies involved@.subrange(0, k + 1).contains(x) by {
                    if involved@.subrange(0, k as int).contains(x) {
                        let i = choose|i: int|
                            0 <= i < k && involved@.subrange(0, k as int)[i] == x;
                        assert(sub[i] == x);
                    } else {
                        assert(sub[k as int] == x);
                    }
                }
            }
            k = k + 1;
        }
        proof {
            assert(involved@.subrange(0, involved@.len() as int) =~= involved@);
        }
        self.operations.push(op);
        proof {
            assert forall|x: QduId| #[trigger] self.unit_seq().contains(x) implies exists|i: int|
                0 <= i < self.ops().len() && involved_qdus_of(#[trigger] self.ops()[i]).contains(
                    x,
                ) by {
                if pre.unit_seq().contains(x) {
                    let i = choose|i: int|
                        0 <= i < pre.ops().len() && involved_qdus_of(
                            #[trigger] pre.ops()[i],
                        ).contains(x);
                    assert(self.ops()[i] == pre.ops()[i]);
                    assert(involved_qdus_of(self.ops()[i]).contains(x));
                } else {
                    let last = self.ops().len() - 1;
                    assert(self.ops()[last] == op);
                    assert(involved_qdus_of(self.ops()[last]).contains(x));
                }
            }
            assert forall|x: QduId|
                (exists|i: int|
                    0 <= i < self.ops().len() && involved_qdus_of(#[trigger] self.ops()[i]).contains(
                        x,
                    )) implies self.unit_seq().contains(x) by {
                let i = choose|i: int|
                    0 <= i < self.ops().len() && involved_qdus_of(
                        #[trigger] self.ops()[i],
                    ).contains(x);
                if i < pre.ops().len() {
                    assert(pre.ops()[i] == self.ops()[i]);
                    assert(involved_qdus_of(pre.ops()[i]).contains(x));
                    assert(pre.unit_seq().contains(x));
                } else {
                    assert(self.ops()[i] == op);
                    assert(involved_qdus_of(op).contains(x));
                }
            }
        }
    }

    /// Appends each operation in order.
    pub fn add_operations(&mut self, ops: Vec<Operation>)
        requires
            old(self).wf(),
        ensures
            final(self).wf(),
            final(self).ops() == old(self).ops() + ops@,
    {
        let ghost all = ops@;
        let ghost base = old(self).ops();
        let mut rest = ops;
        while rest.len() > 0
            invariant
                self.wf(),
                rest@.len() <= all.len(),
                self.ops() == base + all.subrange(0, all.len() - rest@.len()),
                rest@ =~= all.subrange(all.len() - rest@.len(), all.len() as int),
            decreases rest@.len(),
        {
            let ghost done = all.len() - rest@.len();
            let op = rest.remove(0);
            proof {
                assert(all.subrange(done, all.len() as int)[0] == all[done]);
                assert(rest@ =~= all.subrange(done + 1, all.len() as int));
            }
            self.add_operation(op);
            proof {
                assert((base + all.subrange(0, done)).push(all[done]) =~= base + all.subrange(
                    0,
                    done + 1,
                ));
            }
        }
        proof {
            assert(all.subrange(0, all.len() as int) =~= all);
            assert(rest@.len() == 0);
        }
    }

    /// The units involved across all operations, sorted by identifier.
    pub fn qdus(&self) -> (r: &Vec<QduId>)
        ensures
            r@ == self.unit_seq(),
    {
        &self.qdus
    }

    /// The ordered operations of the circuit.
    pub fn operations(&self) -> (r: &Vec<Operation>)
        ensures
            r@ == self.ops(),
    {
        &self.operations
    }

    /// The number of operations.
    pub fn len(&self) -> (r: usize)
        ensures
            r == self.ops().len(),
    {
        self.operations.len()
    }

    /// True when the circuit holds no operations.
    pub fn is_empty(&self) -> (r: bool)
        ensures
            r == (self.ops().len() == 0),
    {
        self.operations.is_empty()
    }
}

impl Default for Circuit {
    /// An empty circuit.
    fn default() -> (r: Self)
        ensures
            r.wf(),
            r.ops() == Seq::<Operation>::empty(),
    {
        Self::new()
    }
}

/// Builds a [`Circuit`] by method chaining.
pub struct CircuitBuilder {
    circuit: Circuit,
}

impl CircuitBuilder {
    /// The circuit built so far, for specifications.
    pub closed spec fn spec_circuit(&self) -> Circuit {
        self.circuit
    }

    /// A builder holding an empty circuit.
    pub fn new() -> (r: Self)
        ensures
            r.spec_circuit().wf(),
            r.spec_circuit().ops() == Seq::<Operation>::empty(),
    {
        Self { circuit: Circuit::new() }
    }

    /// Adds one operation.
    pub fn add_op(self, op: Operation) -> (r: Self)
        requires
            self.spec_circuit().wf(),
        ensures
            r.spec_circuit().wf(),
            r.spec_circuit().ops() == self.spec_circuit().ops().push(op),
    {
        let mut this = self;
        this.circuit.add_operation(op);
        this
    }

    /// Adds the given operations in order.
    pub fn add_ops(self, ops: Vec<Operation>) -> (r: Self)
        requires
            self.spec_circuit().wf(),
        ensures
            r.spec_circuit().wf(),
            r.spec_circuit().ops() == self.spec_circuit().ops() + ops@,
    {
        let mut this = self;
        this.circuit.add_operations(ops);
        this
    }

    /// Hands the finished circuit out.
    pub fn build(self) -> (r: Circuit)
        ensures
            r == self.spec_circuit(),
    {
        self.circuit
    }
}

impl Default for CircuitBuilder {
    /// A builder holding an empty circuit.
    fn default() -> (r: Self)
        ensures
            r.spec_circuit().wf(),
            r.spec_circuit().ops() == Seq::<Operation>::empty(),
    {
        Self::new()
    }
}

} // verus!
