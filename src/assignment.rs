use vstd::prelude::*;
use crate::density::DensityTracker;
use crate::error::SynthesisError;
use crate::field::Scalar;
use crate::lc::{LinearCombination, Variable, all_wf, eval, lc_value};

verus! {

/// The variable of the given kind (`true` for inputs) at index `j`.
pub open spec fn var_of(inputs_kind: bool, j: int) -> Variable {
    if inputs_kind {
        Variable::Input(j as usize)
    } else {
        Variable::Aux(j as usize)
    }
}

/// `new` is `old` with one more value, `v`, at its end.
pub open spec fn pushed(old: Seq<Scalar>, new: Seq<Scalar>, v: int) -> bool {
    &&& new.len() == old.len() + 1
    &&& new.drop_last() == old
    &&& new.last().val() == v
}

/// Some term of the combination names `v`.
pub open spec fn touches(terms: Seq<(Variable, int)>, v: Variable) -> bool {
    exists|k: int| 0 <= k < terms.len() && (#[trigger] terms[k]).0 == v
}

/// The slots after a combination was evaluated: each slot whose variable
/// (of the tracked kind) occurs in it is set.
pub open spec fn marked(bits: Seq<bool>, terms: Seq<(Variable, int)>, inputs_kind: bool) -> Seq<
    bool,
> {
    Seq::new(bits.len(), |j: int| bits[j] || touches(terms, var_of(inputs_kind, j)))
}

/// Every variable of the tracked kind in the combination has a slot.
pub open spec fn kind_in_range(lc: LinearCombination, inputs_kind: bool, n: nat) -> bool {
    forall|i: int|
        0 <= i < lc.terms@.len() ==> match (#[trigger] lc.terms@[i]).0 {
            Variable::Input(j) => inputs_kind ==> j < n,
            Variable::Aux(j) => !inputs_kind ==> j < n,
        }
}

/// Sets the slot of every variable of the tracked kind that occurs in `lc`.
fn mark(tracker: &mut DensityTracker, lc: &LinearCombination, inputs_kind: bool)
    requires
        old(tracker).wf(),
        kind_in_range(*lc, inputs_kind, old(tracker)@.len()),
    ensures
        final(tracker).wf(),
        final(tracker)@ == marked(old(tracker)@, lc@, inputs_kind),
{
    let ghost start = tracker@;
    let slots = tracker.len();
    let n = lc.terms.len();
    let mut i: usize = 0;
    assert(marked(start, lc@.take(0), inputs_kind) =~= start);
    while i < n
        invariant
            n == lc.terms@.len(),
            i <= n,
            tracker.wf(),
            tracker@.len() == start.len(),
            start.len() == slots,
            kind_in_range(*lc, inputs_kind, start.len()),
            tracker@ == marked(start, lc@.take(i as int), inputs_kind),
        decreases n - i,
    {
        let v = lc.terms[i].0;
        let ghost pre = lc@.take(i as int);
        let ghost post = lc@.take(i as int + 1);
        assert(post[i as int].0 == v);
        assert forall|w: Variable| touches(post, w) == (touches(pre, w) || v == w) by {
            if touches(post, w) {
                let k = choose|k: int| 0 <= k < post.len() && (#[trigger] post[k]).0 == w;
                if k < i {
                    assert(pre[k] == post[k]);
                }
            }
            if touches(pre, w) {
                let k = choose|k: int| 0 <= k < pre.len() && (#[trigger] pre[k]).0 == w;
                assert(post[k] == pre[k]);
            }
        }
        match v {
            Variable::Input(j) => {
                if inputs_kind {
                    let ghost old_bits = tracker@;
                    tracker.inc(j);
                    assert forall|x: int| 0 <= x < start.len() implies tracker@[x] == marked(
                        start,
                        post,
                        inputs_kind,
                    )[x] by {
                        assert(old_bits[x] == marked(start, pre, inputs_kind)[x]);
                        if x == j as int {
                            assert(v == var_of(inputs_kind, x));
                        } else {
                            assert(v != var_of(inputs_kind, x));
                            assert(tracker@[x] == old_bits[x]);
                        }
                        assert(touches(post, var_of(inputs_kind, x)) == (touches(
                            pre,
                            var_of(inputs_kind, x),
                        ) || v == var_of(inputs_kind, x)));
                    }
                    assert(tracker@ =~= marked(start, post, inputs_kind));
                } else {
                    assert(tracker@ =~= marked(start, post, inputs_kind));
                }
            },
            Variable::Aux(j) => {
                if !inputs_kind {
                    let ghost old_bits = tracker@;
                    tracker.inc(j);
                    assert forall|x: int| 0 <= x < start.len() implies tracker@[x] == marked(
                        start,
                        post,
                        inputs_kind,
                    )[x] by {
                        assert(old_bits[x] == marked(start, pre, inputs_kind)[x]);
                        if x == j as int {
                            assert(v == var_of(inputs_kind, x));
                        } else {
                            assert(v != var_of(inputs_kind, x));
                            assert(tracker@[x] == old_bits[x]);
                        }
                        assert(touches(post, var_of(inputs_kind, x)) == (touches(
                            pre,
                            var_of(inputs_kind, x),
                        ) || v == var_of(inputs_kind, x)));
                    }
                    assert(tracker@ =~= marked(start, post, inputs_kind));
                } else {
                    assert(tracker@ =~= marked(start, post, inputs_kind));
                }
            },
        }
        i = i + 1;
    }
    assert(lc@.take(n as int) =~= lc@);
}

/// The state of one circuit instance while it is synthesized: the values of
/// its variables, the evaluations of every constraint's three sides, and the
/// density of the A and B queries.
pub struct ProvingAssignment {
    pub a_aux_density: DensityTracker,
    pub b_input_density: DensityTracker,
    pub b_aux_density: DensityTracker,
    pub a: Vec<Scalar>,
    pub b: Vec<Scalar>,
    pub c: Vec<Scalar>,
    pub input_assignment: Vec<Scalar>,
    pub aux_assignment: Vec<Scalar>,
}

impl ProvingAssignment {
    /// One slot per variable in each tracker, one evaluation per constraint
    /// on each side, every value reduced.
    pub open spec fn wf(&self) -> bool {
        &&& self.a_aux_density.wf()
        &&& self.b_input_density.wf()
        &&& self.b_aux_density.wf()
        &&& self.a_aux_density@.len() == self.aux_assignment@.len()
        &&& self.b_aux_density@.len() == self.aux_assignment@.len()
        &&& self.b_input_density@.len() == self.input_assignment@.len()
        &&& self.a@.len() == self.b@.len()
        &&& self.b@.len() == self.c@.len()
        &&& all_wf(self.a@)
        &&& all_wf(self.b@)
        &&& all_wf(self.c@)
        &&& all_wf(self.input_assignment@)
        &&& all_wf(self.aux_assignment@)
    }

    /// A combination that names only allocated variables.
    pub open spec fn accepts(&self, lc: LinearCombination) -> bool {
        &&& lc.wf()
        &&& lc.vars_in(self.input_assignment@.len(), self.aux_assignment@.len())
    }

    pub fn new() -> (r: ProvingAssignment)
        ensures
            r.wf(),
            r.a@.len() == 0,
            r.input_assignment@.len() == 0,
            r.aux_assignment@.len() == 0,
    {
        ProvingAssignment {
            a_aux_density: DensityTracker::new(),
            b_input_density: DensityTracker::new(),
            b_aux_density: DensityTracker::new(),
            a: Vec::new(),
            b: Vec::new(),
            c: Vec::new(),
            input_assignment: Vec::new(),
            aux_assignment: Vec::new(),
        }
    }

    /// Allocates an auxiliary variable holding `value`; a missing value is
    /// an error and leaves the assignment as it was.
    pub fn alloc_aux(&mut self, value: Option<Scalar>) -> (r: Result<Variable, SynthesisError>)
        requires
            old(self).wf(),
            old(self).aux_assignment@.len() < usize::MAX,
            value matches Some(v) ==> v.wf(),
        ensures
            final(self).wf(),
            match value {
                None => r == Err::<Variable, SynthesisError>(SynthesisError::AssignmentMissing)
                    && *final(self) == *old(self),
                Some(v) => {
                    &&& r == Ok::<Variable, SynthesisError>(
                        Variable::Aux(old(self).aux_assignment@.len() as usize),
                    )
                    &&& final(self).aux_assignment@ == old(self).aux_assignment@.push(v)
                    &&& final(self).a_aux_density@ == old(self).a_aux_density@.push(false)
                    &&& final(self).b_aux_density@ == old(self).b_aux_density@.push(false)
                    &&& final(self).input_assignment == old(self).input_assignment
                    &&& final(self).b_input_density == old(self).b_input_density
                    &&& final(self).a == old(self).a
                    &&& final(self).b == old(self).b
                    &&& final(self).c == old(self).c
                },
            },
    {
        match value {
            None => Err(SynthesisError::AssignmentMissing),
            Some(v) => {
                self.aux_assignment.push(v);
                self.a_aux_density.add_element();
                self.b_aux_density.add_element();
                Ok(Variable::Aux(self.aux_assignment.len() - 1))
            },
        }
    }

    /// Allocates a public input holding `value`; a missing value is an
    /// error and leaves the assignment as it was.
    pub fn alloc_input(&mut self, value: Option<Scalar>) -> (r: Result<Variable, SynthesisError>)
        requires
            old(self).wf(),
            old(self).input_assignment@.len() < usize::MAX,
            value matches Some(v) ==> v.wf(),
        ensures
            final(self).wf(),
            match value {
                None => r == Err::<Variable, SynthesisError>(SynthesisError::AssignmentMissing)
                    && *final(self) == *old(self),
                Some(v) => {
                    &&& r == Ok::<Variable, SynthesisError>(
                        Variable::Input(old(self).input_assignment@.len() as usize),
                    )
                    &&& final(self).input_assignment@ == old(self).input_assignment@.push(v)
                    &&& final(self).b_input_density@ == old(self).b_input_density@.push(false)
                    &&& final(self).aux_assignment == old(self).aux_assignment
                    &&& final(self).a_aux_density == old(self).a_aux_density
                    &&& final(self).b_aux_density == old(self).b_aux_density
                    &&& final(self).a == old(self).a
                    &&& final(self).b == old(self).b
                    &&& final(self).c == old(self).c
                },
            },
    {
        match value {
            None => Err(SynthesisError::AssignmentMissing),
            Some(v) => {
                self.input_assignment.push(v);
                self.b_input_density.add_element();
                Ok(Variable::Input(self.input_assignment.len() - 1))
            },
        }
    }

    /// Records the constraint `a * b = c`: appends the value of each side
    /// and marks the A query's auxiliary variables and the B query's input
    /// and auxiliary variables as touched. Inputs are fully dense in the A
    /// query and C has no density.
    pub fn enforce(&mut self, a: &LinearCombination, b: &LinearCombination, c: &LinearCombination)
        requires
            old(self).wf(),
            old(self).accepts(*a),
            old(self).accepts(*b),
            old(self).accepts(*c),
        ensures
            final(self).wf(),
            pushed(
                old(self).a@,
                final(self).a@,
                lc_value(a@, old(self).input_assignment@, old(self).aux_assignment@),
            ),
            pushed(
                old(self).b@,
                final(self).b@,
                lc_value(b@, old(self).input_assignment@, old(self).aux_assignment@),
            ),
            pushed(
                old(self).c@,
                final(self).c@,
                lc_value(c@, old(self).input_assignment@, old(self).aux_assignment@),
            ),
            final(self).a_aux_density@ == marked(old(self).a_aux_density@, a@, false),
            final(self).b_input_density@ == marked(old(self).b_input_density@, b@, true),
            final(self).b_aux_density@ == marked(old(self).b_aux_density@, b@, false),
            final(self).input_assignment == old(self).input_assignment,
            final(self).aux_assignment == old(self).aux_assignment,
    {
        let va = eval(a, &self.input_assignment, &self.aux_assignment);
        let vb = eval(b, &self.input_assignment, &self.aux_assignment);
        let vc = eval(c, &self.input_assignment, &self.aux_assignment);
        mark(&mut self.a_aux_density, a, false);
        mark(&mut self.b_input_density, b, true);
        mark(&mut self.b_aux_density, b, false);
        self.a.push(va);
        self.b.push(vb);
        self.c.push(vc);
        proof {
            assert(self.a@.drop_last() =~= old(self).a@);
            assert(self.b@.drop_last() =~= old(self).b@);
            assert(self.c@.drop_last() =~= old(self).c@);
        }
    }
}

} // verus!
