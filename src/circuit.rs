use vstd::prelude::*;
use crate::assignment::{ProvingAssignment, marked, touches, var_of};
use crate::density::{count_true, lemma_count_true_all_false, lemma_count_true_set};
use crate::domain::vals;
use crate::error::SynthesisError;
use crate::field::Scalar;
use crate::lc::{LinearCombination, Variable, all_wf, lc_value};

verus! {

/// One rank-1 constraint `a * b = c`.
pub struct Constraint {
    pub a: LinearCombination,
    pub b: LinearCombination,
    pub c: LinearCombination,
}

/// A circuit given as its constraint system and witness: the values of its
/// public inputs (which follow the constant one, input 0), of its auxiliary
/// variables, and its constraints. A value the witness lacks is `None`.
pub struct Circuit {
    pub inputs: Vec<Option<Scalar>>,
    pub aux: Vec<Option<Scalar>>,
    pub constraints: Vec<Constraint>,
}

/// Side 0 is A, side 1 is B, any other is C.
pub open spec fn side_of(c: Constraint, side: int) -> LinearCombination {
    if side == 0 {
        c.a
    } else if side == 1 {
        c.b
    } else {
        c.c
    }
}

/// Every value that is present is a reduced field element.
pub open spec fn values_wf(s: Seq<Option<Scalar>>) -> bool {
    forall|i: int| 0 <= i < s.len() ==> (#[trigger] s[i] matches Some(v) ==> v.wf())
}

/// Every value is present.
pub open spec fn values_present(s: Seq<Option<Scalar>>) -> bool {
    forall|i: int| 0 <= i < s.len() ==> (#[trigger] s[i]) is Some
}

/// The values, where all are present.
pub open spec fn present_values(s: Seq<Option<Scalar>>) -> Seq<Scalar> {
    s.map_values(|o: Option<Scalar>| o->Some_0)
}

/// The slots of one tracker after the given constraints: slot `j` is set
/// when side `side` of some constraint names variable `j` of the kind.
pub open spec fn touched_by(cs: Seq<Constraint>, side: int, inputs_kind: bool, n: nat) -> Seq<bool> {
    Seq::new(
        n,
        |j: int|
            exists|k: int|
                0 <= k < cs.len() && touches((#[trigger] side_of(cs[k], side))@, var_of(inputs_kind, j)),
    )
}

impl Constraint {
    /// Reduced coefficients, and only variables among `n_inputs` inputs and
    /// `n_aux` auxiliary values.
    pub open spec fn wf(&self, n_inputs: nat, n_aux: nat) -> bool {
        &&& self.a.wf() && self.a.vars_in(n_inputs, n_aux)
        &&& self.b.wf() && self.b.vars_in(n_inputs, n_aux)
        &&& self.c.wf() && self.c.vars_in(n_inputs, n_aux)
    }

    fn check(&self, n_inputs: usize, n_aux: usize) -> (r: bool)
        ensures
            r == self.wf(n_inputs as nat, n_aux as nat),
    {
        check_lc(&self.a, n_inputs, n_aux) && check_lc(&self.b, n_inputs, n_aux) && check_lc(
            &self.c,
            n_inputs,
            n_aux,
        )
    }
}

fn check_lc(lc: &LinearCombination, n_inputs: usize, n_aux: usize) -> (r: bool)
    ensures
        r == (lc.wf() && lc.vars_in(n_inputs as nat, n_aux as nat)),
{
    let mut i: usize = 0;
    while i < lc.terms.len()
        invariant
            i <= lc.terms@.len(),
            forall|k: int|
                0 <= k < i ==> (#[trigger] lc.terms@[k]).1.wf() && crate::lc::var_in_range(
                    lc.terms@[k].0,
                    n_inputs as nat,
                    n_aux as nat,
                ),
        decreases lc.terms@.len() - i,
    {
        let t = lc.terms[i];
        let ok_var = match t.0 {
            Variable::Input(j) => j < n_inputs,
            Variable::Aux(j) => j < n_aux,
        };
        if !ok_var || !t.1.is_reduced() {
            assert(!(lc.terms@[i as int].1.wf() && crate::lc::var_in_range(
                lc.terms@[i as int].0,
                n_inputs as nat,
                n_aux as nat,
            )));
            return false;
        }
        i = i + 1;
    }
    true
}

impl Circuit {
    /// The number of public inputs, the constant one included.
    pub open spec fn num_inputs(&self) -> nat {
        self.inputs@.len() + 1
    }

    /// Present values are reduced and every constraint names only the
    /// circuit's variables.
    pub open spec fn wf(&self) -> bool {
        &&& values_wf(self.inputs@)
        &&& values_wf(self.aux@)
        &&& forall|k: int|
            0 <= k < self.constraints@.len() ==> (#[trigger] self.constraints@[k]).wf(
                self.num_inputs(),
                self.aux@.len(),
            )
    }

    /// The values of the inputs, the constant one first.
    pub open spec fn input_values(&self) -> Seq<Scalar> {
        seq![Scalar { l0: 1, l1: 0, l2: 0, l3: 0 }] + present_values(self.inputs@)
    }

    /// The number of constraints once every input has its own.
    pub open spec fn num_constraints(&self) -> nat {
        self.constraints@.len() + self.num_inputs()
    }

    pub fn check(&self) -> (r: bool)
        requires
            self.inputs@.len() < usize::MAX,
        ensures
            r == self.wf(),
    {
        let n_inputs = self.inputs.len() + 1;
        let n_aux = self.aux.len();
        let mut i: usize = 0;
        while i < self.inputs.len()
            invariant
                i <= self.inputs@.len(),
                forall|k: int| 0 <= k < i ==> (#[trigger] self.inputs@[k] matches Some(v) ==> v.wf()),
            decreases self.inputs@.len() - i,
        {
            if let Some(v) = self.inputs[i] {
                if !v.is_reduced() {
                    return false;
                }
            }
            i = i + 1;
        }
        let mut i: usize = 0;
        while i < self.aux.len()
            invariant
                i <= self.aux@.len(),
                forall|k: int| 0 <= k < i ==> (#[trigger] self.aux@[k] matches Some(v) ==> v.wf()),
            decreases self.aux@.len() - i,
        {
            if let Some(v) = self.aux[i] {
                if !v.is_reduced() {
                    return false;
                }
            }
            i = i + 1;
        }
        let mut k: usize = 0;
        while k < self.constraints.len()
            invariant
                k <= self.constraints@.len(),
                n_inputs == self.num_inputs(),
                n_aux == self.aux@.len(),
                forall|q: int|
                    0 <= q < k ==> (#[trigger] self.constraints@[q]).wf(
                        self.num_inputs(),
                        self.aux@.len(),
                    ),
            decreases self.constraints@.len() - k,
        {
            if !self.constraints[k].check(n_inputs, n_aux) {
                return false;
            }
            k = k + 1;
        }
        true
    }
}

proof fn lemma_touched_step(cs: Seq<Constraint>, k: int, side: int, inputs_kind: bool, n: nat)
    requires
        0 <= k < cs.len(),
    ensures
        marked(touched_by(cs.take(k), side, inputs_kind, n), side_of(cs[k], side)@, inputs_kind)
            == touched_by(cs.take(k + 1), side, inputs_kind, n),
{
    let pre = cs.take(k);
    let post = cs.take(k + 1);
    assert forall|j: int| 0 <= j < n implies marked(
        touched_by(pre, side, inputs_kind, n),
        side_of(cs[k], side)@,
        inputs_kind,
    )[j] == touched_by(post, side, inputs_kind, n)[j] by {
        let v = var_of(inputs_kind, j);
        if touched_by(post, side, inputs_kind, n)[j] {
            let q = choose|q: int|
                0 <= q < post.len() && touches((#[trigger] side_of(post[q], side))@, v);
            if q < k {
                assert(side_of(pre[q], side) == side_of(post[q], side));
            }
        }
        if touched_by(pre, side, inputs_kind, n)[j] {
            let q = choose|q: int|
                0 <= q < pre.len() && touches((#[trigger] side_of(pre[q], side))@, v);
            assert(side_of(pre[q], side) == side_of(post[q], side));
        }
        if touches(side_of(cs[k], side)@, v) {
            assert(side_of(post[k], side) == side_of(cs[k], side));
        }
    }
    assert(marked(touched_by(pre, side, inputs_kind, n), side_of(cs[k], side)@, inputs_kind)
        =~= touched_by(post, side, inputs_kind, n));
}

/// Synthesizes one circuit instance: allocates the constant one and the
/// circuit's inputs and auxiliary values, enforces its constraints, then one
/// constraint `input * 0 = 0` per input, so that inputs are fully dense in
/// the A query.
pub fn synthesize(circuit: &Circuit) -> (r: Result<ProvingAssignment, SynthesisError>)
    requires
        circuit.inputs@.len() + 1 < usize::MAX,
    ensures
        !circuit.wf() ==> r == Err::<ProvingAssignment, SynthesisError>(
            SynthesisError::MalformedCircuit,
        ),
        circuit.wf() && !(values_present(circuit.inputs@) && values_present(circuit.aux@)) ==> r
            == Err::<ProvingAssignment, SynthesisError>(SynthesisError::AssignmentMissing),
        circuit.wf() && values_present(circuit.inputs@) && values_present(circuit.aux@) ==> r is Ok,
        r matches Ok(p) ==> synthesized(*circuit, p),
{
    if !circuit.check() {
        return Err(SynthesisError::MalformedCircuit);
    }
    let mut p = ProvingAssignment::new();
    let one = Scalar::one();
    let _ = p.alloc_input(Some(one));
    assert(p.input_assignment@ =~= seq![Scalar { l0: 1, l1: 0, l2: 0, l3: 0 }]);
    let mut i: usize = 0;
    while i < circuit.inputs.len()
        invariant
            circuit.wf(),
            circuit.inputs@.len() + 1 < usize::MAX,
            i <= circuit.inputs@.len(),
            p.wf(),
            p.a@.len() == 0,
            p.aux_assignment@.len() == 0,
            p.input_assignment@.len() == i + 1,
            values_present(circuit.inputs@.take(i as int)),
            p.input_assignment@ == seq![Scalar { l0: 1, l1: 0, l2: 0, l3: 0 }] + present_values(
                circuit.inputs@.take(i as int),
            ),
            p.b_input_density@ == Seq::new(i as nat + 1, |j: int| false),
        decreases circuit.inputs@.len() - i,
    {
        let ghost before = p.input_assignment@;
        match p.alloc_input(circuit.inputs[i]) {
            Err(e) => {
                proof {
                    assert(!values_present(circuit.inputs@));
                }
                return Err(e);
            },
            Ok(_) => {},
        }
        proof {
            assert(circuit.inputs@.take(i as int + 1).drop_last() =~= circuit.inputs@.take(
                i as int,
            ));
            assert(present_values(circuit.inputs@.take(i as int + 1)) =~= present_values(
                circuit.inputs@.take(i as int),
            ).push(circuit.inputs@[i as int]->Some_0));
            assert(p.b_input_density@ =~= Seq::new(i as nat + 2, |j: int| false));
        }
        i = i + 1;
    }
    assert(circuit.inputs@.take(i as int) =~= circuit.inputs@);
    let mut i: usize = 0;
    while i < circuit.aux.len()
        invariant
            circuit.wf(),
            i <= circuit.aux@.len(),
            p.wf(),
            p.a@.len() == 0,
            p.input_assignment@ == circuit.input_values(),
            values_present(circuit.inputs@),
            p.aux_assignment@.len() == i,
            values_present(circuit.aux@.take(i as int)),
            p.aux_assignment@ == present_values(circuit.aux@.take(i as int)),
            p.b_input_density@ == Seq::new(circuit.num_inputs(), |j: int| false),
            p.a_aux_density@ == Seq::new(i as nat, |j: int| false),
            p.b_aux_density@ == Seq::new(i as nat, |j: int| false),
        decreases circuit.aux@.len() - i,
    {
        match p.alloc_aux(circuit.aux[i]) {
            Err(e) => {
                proof {
                    assert(!values_present(circuit.aux@));
                }
                return Err(e);
            },
            Ok(_) => {},
        }
        proof {
            assert(circuit.aux@.take(i as int + 1).drop_last() =~= circuit.aux@.take(i as int));
            assert(present_values(circuit.aux@.take(i as int + 1)) =~= present_values(
                circuit.aux@.take(i as int),
            ).push(circuit.aux@[i as int]->Some_0));
            assert(p.a_aux_density@ =~= Seq::new(i as nat + 1, |j: int| false));
            assert(p.b_aux_density@ =~= Seq::new(i as nat + 1, |j: int| false));
        }
        i = i + 1;
    }
    assert(circuit.aux@.take(i as int) =~= circuit.aux@);
    let ghost cs = circuit.constraints@;
    let ghost n_in = circuit.num_inputs();
    let ghost n_aux = circuit.aux@.len();
    proof {
        assert(touched_by(cs.take(0), 0, false, n_aux) =~= Seq::new(n_aux, |j: int| false));
        assert(touched_by(cs.take(0), 1, false, n_aux) =~= Seq::new(n_aux, |j: int| false));
        assert(touched_by(cs.take(0), 1, true, n_in) =~= Seq::new(n_in, |j: int| false));
    }
    let mut k: usize = 0;
    while k < circuit.constraints.len()
        invariant
            circuit.wf(),
            cs == circuit.constraints@,
            n_in == circuit.num_inputs(),
            n_aux == circuit.aux@.len(),
            k <= cs.len(),
            p.wf(),
            p.input_assignment@ == circuit.input_values(),
            p.aux_assignment@ == present_values(circuit.aux@),
            p.a@.len() == k,
            forall|q: int| 0 <= q < k ==> #[trigger] evaluated(p, cs[q], q),
            p.a_aux_density@ == touched_by(cs.take(k as int), 0, false, n_aux),
            p.b_input_density@ == touched_by(cs.take(k as int), 1, true, n_in),
            p.b_aux_density@ == touched_by(cs.take(k as int), 1, false, n_aux),
        decreases cs.len() - k,
    {
        let ghost before = p;
        let con = &circuit.constraints[k];
        assert(cs[k as int].wf(n_in, n_aux));
        p.enforce(&con.a, &con.b, &con.c);
        proof {
            lemma_touched_step(cs, k as int, 0, false, n_aux);
            lemma_touched_step(cs, k as int, 1, true, n_in);
            lemma_touched_step(cs, k as int, 1, false, n_aux);
            assert forall|q: int| 0 <= q < k + 1 implies #[trigger] evaluated(p, cs[q], q) by {
                if q < k {
                    assert(evaluated(before, cs[q], q));
                    assert(p.a@[q] == before.a@[q]);
                    assert(p.b@[q] == before.b@[q]);
                    assert(p.c@[q] == before.c@[q]);
                }
            }
        }
        k = k + 1;
    }
    assert(cs.take(k as int) =~= cs);
    let n_inputs = p.input_assignment.len();
    let mut i: usize = 0;
    while i < n_inputs
        invariant
            circuit.wf(),
            cs == circuit.constraints@,
            n_in == circuit.num_inputs(),
            n_aux == circuit.aux@.len(),
            n_inputs == n_in,
            i <= n_inputs,
            p.wf(),
            p.input_assignment@ == circuit.input_values(),
            p.aux_assignment@ == present_values(circuit.aux@),
            p.a@.len() == cs.len() + i,
            forall|q: int| 0 <= q < cs.len() ==> #[trigger] evaluated(p, cs[q], q),
            forall|q: int| 0 <= q < i ==> #[trigger] input_constraint(p, cs.len() + q, q),
            p.a_aux_density@ == touched_by(cs, 0, false, n_aux),
            p.b_input_density@ == touched_by(cs, 1, true, n_in),
            p.b_aux_density@ == touched_by(cs, 1, false, n_aux),
        decreases n_inputs - i,
    {
        let ghost before = p;
        let mut a = LinearCombination::zero();
        a.add_term(Variable::Input(i), Scalar::one());
        let zero = LinearCombination::zero();
        assert(a.terms@[0].0 == Variable::Input(i));
        assert(a.vars_in(p.input_assignment@.len(), p.aux_assignment@.len()));
        p.enforce(&a, &zero, &zero);
        proof {
            assert(a@[0] == (Variable::Input(i), 1int));
            assert(lc_value(a@, p.input_assignment@, p.aux_assignment@) == (1 * p.input_assignment@[i as int].val()) % crate::field::modulus()) by {
                assert(a@.drop_last() =~= Seq::<(Variable, int)>::empty());
            }
            assert(0int % crate::field::modulus() == 0);
            assert(all_wf(p.input_assignment@));
            assert(p.input_assignment@[i as int].wf());
            vstd::arithmetic::div_mod::lemma_small_mod(
                p.input_assignment@[i as int].val() as nat,
                crate::field::modulus() as nat,
            );
            assert(input_constraint(p, cs.len() + i, i as int));
            assert(marked(before.a_aux_density@, a@, false) =~= before.a_aux_density@) by {
                assert forall|j: int| 0 <= j < n_aux implies !touches(a@, var_of(false, j)) by {
                    if touches(a@, var_of(false, j)) {
                        let q = choose|q: int| 0 <= q < a@.len() && (#[trigger] a@[q]).0 == var_of(false, j);
                        assert(q == 0);
                    }
                }
            }
            assert(marked(before.b_input_density@, zero@, true) =~= before.b_input_density@);
            assert(marked(before.b_aux_density@, zero@, false) =~= before.b_aux_density@);
            assert forall|q: int| 0 <= q < cs.len() implies #[trigger] evaluated(p, cs[q], q) by {
                assert(evaluated(before, cs[q], q));
                assert(p.a@[q] == before.a@[q]);
                assert(p.b@[q] == before.b@[q]);
                assert(p.c@[q] == before.c@[q]);
            }
            assert forall|q: int| 0 <= q < i + 1 implies #[trigger] input_constraint(p, cs.len() + q, q) by {
                if q < i {
                    assert(input_constraint(before, cs.len() + q, q));
                    assert(p.a@[cs.len() + q] == before.a@[cs.len() + q]);
                    assert(p.b@[cs.len() + q] == before.b@[cs.len() + q]);
                    assert(p.c@[cs.len() + q] == before.c@[cs.len() + q]);
                }
            }
        }
        i = i + 1;
    }
    Ok(p)
}

/// Row `q` of the evaluations holds the three sides of constraint `c`.
pub open spec fn evaluated(p: ProvingAssignment, c: Constraint, q: int) -> bool {
    &&& p.a@[q].val() == lc_value(c.a@, p.input_assignment@, p.aux_assignment@)
    &&& p.b@[q].val() == lc_value(c.b@, p.input_assignment@, p.aux_assignment@)
    &&& p.c@[q].val() == lc_value(c.c@, p.input_assignment@, p.aux_assignment@)
}

/// Row `q` holds the constraint `input_i * 0 = 0`.
pub open spec fn input_constraint(p: ProvingAssignment, q: int, i: int) -> bool {
    &&& p.a@[q].val() == p.input_assignment@[i].val()
    &&& p.b@[q].val() == 0
    &&& p.c@[q].val() == 0
}

/// What synthesis of `circuit` yields: its values, one row per constraint
/// followed by one row per input, and the query densities.
pub open spec fn synthesized(circuit: Circuit, p: ProvingAssignment) -> bool {
    let cs = circuit.constraints@;
    &&& p.wf()
    &&& p.input_assignment@ == circuit.input_values()
    &&& p.aux_assignment@ == present_values(circuit.aux@)
    &&& p.a@.len() == circuit.num_constraints()
    &&& forall|q: int| 0 <= q < cs.len() ==> #[trigger] evaluated(p, cs[q], q)
    &&& forall|i: int|
        0 <= i < circuit.num_inputs() ==> #[trigger] input_constraint(p, cs.len() + i, i)
    &&& p.a_aux_density@ == touched_by(cs, 0, false, circuit.aux@.len())
    &&& p.b_input_density@ == touched_by(cs, 1, true, circuit.num_inputs())
    &&& p.b_aux_density@ == touched_by(cs, 1, false, circuit.aux@.len())
}

proof fn lemma_count_listed(refs: Seq<usize>, n: nat)
    requires
        n <= usize::MAX,
        refs.no_duplicates(),
        forall|k: int| 0 <= k < refs.len() ==> (#[trigger] refs[k]) < n,
    ensures
        count_true(Seq::new(n, |j: int| refs.contains(j as usize))) == refs.len(),
    decreases refs.len(),
{
    if refs.len() == 0 {
        assert(Seq::new(n, |j: int| refs.contains(j as usize)) =~= Seq::new(n, |j: int| false));
        lemma_count_true_all_false(n);
    } else {
        let rest = refs.drop_last();
        let last = refs.last();
        assert forall|k: int| 0 <= k < rest.len() implies (#[trigger] rest[k]) < n by {
            assert(rest[k] == refs[k]);
        }
        assert(rest.no_duplicates()) by {
            assert forall|a: int, b: int| 0 <= a < rest.len() && 0 <= b < rest.len() && a != b
                implies rest[a] != rest[b] by {
                assert(rest[a] == refs[a] && rest[b] == refs[b]);
            }
        }
        lemma_count_listed(rest, n);
        assert(refs[refs.len() - 1] < n);
        assert(!rest.contains(last)) by {
            if rest.contains(last) {
                let a = choose|a: int| 0 <= a < rest.len() && rest[a] == last;
                assert(refs[a] == refs[refs.len() - 1]);
            }
        }
        let before = Seq::new(n, |j: int| rest.contains(j as usize));
        assert forall|j: int| 0 <= j < n implies #[trigger] refs.contains(j as usize) == (
        rest.contains(j as usize) || j == last as int) by {
            if refs.contains(j as usize) {
                let a = choose|a: int| 0 <= a < refs.len() && refs[a] == j as usize;
                if a < refs.len() - 1 {
                    assert(rest[a] == refs[a]);
                }
            }
            if rest.contains(j as usize) {
                let a = choose|a: int| 0 <= a < rest.len() && rest[a] == j as usize;
                assert(refs[a] == rest[a]);
            }
            if j == last as int {
                assert(refs[refs.len() - 1] == last);
            }
        }
        assert(Seq::new(n, |j: int| refs.contains(j as usize)) =~= before.update(last as int, true));
        lemma_count_true_set(before, last as int);
    }
}

/// When each of `k` constraints names one auxiliary variable, once, in its
/// A side, and no two name the same one, the A query's density is `k`; a
/// variable that no constraint names is not touched.
pub proof fn lemma_single_reference_density(cs: Seq<Constraint>, refs: Seq<usize>, n_aux: nat)
    requires
        n_aux <= usize::MAX,
        cs.len() == refs.len(),
        refs.no_duplicates(),
        forall|k: int| 0 <= k < refs.len() ==> (#[trigger] refs[k]) < n_aux,
        forall|k: int|
            0 <= k < cs.len() ==> (#[trigger] cs[k]).a@.len() == 1 && cs[k].a@[0].0
                == Variable::Aux(refs[k]),
    ensures
        count_true(touched_by(cs, 0, false, n_aux)) == cs.len(),
        forall|j: int|
            0 <= j < n_aux && !refs.contains(j as usize) ==> !(#[trigger] touched_by(
                cs,
                0,
                false,
                n_aux,
            )[j]),
{
    assert forall|j: int| 0 <= j < n_aux implies #[trigger] touched_by(cs, 0, false, n_aux)[j]
        == refs.contains(j as usize) by {
        let v = var_of(false, j);
        if touched_by(cs, 0, false, n_aux)[j] {
            let k = choose|k: int|
                0 <= k < cs.len() && touches((#[trigger] side_of(cs[k], 0))@, v);
            let t = choose|t: int| 0 <= t < cs[k].a@.len() && (#[trigger] cs[k].a@[t]).0 == v;
            assert(t == 0);
            assert(refs[k] == j as usize);
        }
        if refs.contains(j as usize) {
            let k = choose|k: int| 0 <= k < refs.len() && refs[k] == j as usize;
            assert(cs[k].a@[0].0 == v);
            assert(touches(side_of(cs[k], 0)@, v));
        }
    }
    assert(touched_by(cs, 0, false, n_aux) =~= Seq::new(n_aux, |j: int| refs.contains(j as usize)));
    lemma_count_listed(refs, n_aux);
}

/// The circuit can be synthesized: well formed, every value present.
pub open spec fn synthesizable(c: Circuit) -> bool {
    c.wf() && values_present(c.inputs@) && values_present(c.aux@)
}

/// The value of side `side` of every row that synthesis yields: one per
/// constraint, then one per input (`input * 0 = 0`).
pub open spec fn rows(c: Circuit, side: int) -> Seq<int> {
    let cs = c.constraints@;
    let ins = c.input_values();
    let aux = present_values(c.aux@);
    Seq::new(
        c.num_constraints(),
        |q: int|
            if q < cs.len() {
                lc_value(side_of(cs[q], side)@, ins, aux)
            } else if side == 0 {
                ins[q - cs.len()].val()
            } else {
                0
            },
    )
}

/// The rows of a synthesized assignment are those of its circuit.
pub proof fn lemma_rows(c: Circuit, p: ProvingAssignment)
    requires
        synthesized(c, p),
    ensures
        vals(p.a@) == rows(c, 0),
        vals(p.b@) == rows(c, 1),
        vals(p.c@) == rows(c, 2),
{
    let cs = c.constraints@;
    assert forall|q: int| 0 <= q < c.num_constraints() implies p.a@[q].val() == rows(c, 0)[q]
        && p.b@[q].val() == rows(c, 1)[q] && p.c@[q].val() == rows(c, 2)[q] by {
        if q < cs.len() {
            assert(evaluated(p, cs[q], q));
        } else {
            assert(input_constraint(p, cs.len() + (q - cs.len()), q - cs.len()));
        }
    }
    assert(vals(p.a@) =~= rows(c, 0));
    assert(vals(p.b@) =~= rows(c, 1));
    assert(vals(p.c@) =~= rows(c, 2));
}

} // verus!
