use vstd::prelude::*;
use vstd::arithmetic::div_mod::{lemma_add_mod_noop, lemma_mul_mod_noop_right, lemma_small_mod};
use crate::field::{Scalar, modulus};

verus! {

/// A variable of a constraint system: the index of a public input or of an
/// auxiliary (private) value, in allocation order.
#[derive(Clone, Copy, Debug, PartialEq, Eq, Structural)]
pub enum Variable {
    Input(usize),
    Aux(usize),
}

/// The variable names an allocated value.
pub open spec fn var_in_range(v: Variable, n_inputs: nat, n_aux: nat) -> bool {
    match v {
        Variable::Input(i) => i < n_inputs,
        Variable::Aux(i) => i < n_aux,
    }
}

/// The value assigned to a variable.
pub open spec fn var_value(v: Variable, inputs: Seq<Scalar>, aux: Seq<Scalar>) -> int {
    match v {
        Variable::Input(i) => inputs[i as int].val(),
        Variable::Aux(i) => aux[i as int].val(),
    }
}

/// The sum of coefficient times value over the terms, as an integer.
pub open spec fn lc_sum(terms: Seq<(Variable, int)>, inputs: Seq<Scalar>, aux: Seq<Scalar>) -> int
    decreases terms.len(),
{
    if terms.len() == 0 {
        0
    } else {
        lc_sum(terms.drop_last(), inputs, aux) + terms.last().1 * var_value(
            terms.last().0,
            inputs,
            aux,
        )
    }
}

/// The value of a linear combination in the field.
pub open spec fn lc_value(terms: Seq<(Variable, int)>, inputs: Seq<Scalar>, aux: Seq<Scalar>) -> int {
    lc_sum(terms, inputs, aux) % modulus()
}

/// Every coefficient multiplied by `c`.
pub open spec fn lc_scale(c: int, terms: Seq<(Variable, int)>) -> Seq<(Variable, int)> {
    terms.map_values(|t: (Variable, int)| (t.0, c * t.1))
}

/// All values of an assignment are reduced field elements.
pub open spec fn all_wf(s: Seq<Scalar>) -> bool {
    forall|i: int| 0 <= i < s.len() ==> (#[trigger] s[i]).wf()
}

/// One side of a constraint: a sequence of (variable, coefficient) terms.
pub struct LinearCombination {
    pub terms: Vec<(Variable, Scalar)>,
}

impl View for LinearCombination {
    type V = Seq<(Variable, int)>;

    open spec fn view(&self) -> Seq<(Variable, int)> {
        self.terms@.map_values(|t: (Variable, Scalar)| (t.0, t.1.val()))
    }
}

impl LinearCombination {
    /// Every coefficient is a reduced field element.
    pub open spec fn wf(&self) -> bool {
        forall|i: int| 0 <= i < self.terms@.len() ==> (#[trigger] self.terms@[i]).1.wf()
    }

    /// Every term names an allocated variable.
    pub open spec fn vars_in(&self, n_inputs: nat, n_aux: nat) -> bool {
        forall|i: int|
            0 <= i < self.terms@.len() ==> var_in_range(
                (#[trigger] self.terms@[i]).0,
                n_inputs,
                n_aux,
            )
    }

    pub fn zero() -> (r: LinearCombination)
        ensures
            r.wf(),
            r@ == Seq::<(Variable, int)>::empty(),
            r.terms@.len() == 0,
    {
        LinearCombination { terms: Vec::new() }
    }

    /// Appends the term `coeff * var`.
    pub fn add_term(&mut self, var: Variable, coeff: Scalar)
        requires
            old(self).wf(),
            coeff.wf(),
        ensures
            final(self).wf(),
            final(self)@ == old(self)@.push((var, coeff.val())),
            final(self).terms@ == old(self).terms@.push((var, coeff)),
    {
        self.terms.push((var, coeff));
        assert(self@ =~= old(self)@.push((var, coeff.val())));
    }
}

/// Evaluates a linear combination against the assignments: the sum of each
/// coefficient times its variable's value, skipping the multiplication where
/// the coefficient is one.
pub fn eval(lc: &LinearCombination, inputs: &Vec<Scalar>, aux: &Vec<Scalar>) -> (r: Scalar)
    requires
        lc.wf(),
        lc.vars_in(inputs@.len(), aux@.len()),
        all_wf(inputs@),
        all_wf(aux@),
    ensures
        r.wf(),
        r.val() == lc_value(lc@, inputs@, aux@),
{
    let mut acc = Scalar::zero();
    let mut i: usize = 0;
    let n = lc.terms.len();
    while i < n
        invariant
            n == lc.terms@.len(),
            i <= n,
            lc.wf(),
            lc.vars_in(inputs@.len(), aux@.len()),
            all_wf(inputs@),
            all_wf(aux@),
            acc.wf(),
            acc.val() == lc_value(lc@.take(i as int), inputs@, aux@),
        decreases n - i,
    {
        let t = lc.terms[i];
        let var = t.0;
        let coeff = t.1;
        assert(lc.terms@[i as int].1.wf());
        assert(var_in_range(lc.terms@[i as int].0, inputs@.len(), aux@.len()));
        let x = match var {
            Variable::Input(j) => inputs[j],
            Variable::Aux(j) => aux[j],
        };
        let ghost prev = acc.val();
        let ghost prod = coeff.val() * x.val();
        if coeff.is_one() {
            acc = acc.add(&x);
            proof {
                lemma_small_mod(x.val() as nat, modulus() as nat);
            }
        } else {
            let p = x.mul(&coeff);
            acc = acc.add(&p);
        }
        proof {
            let m = modulus();
            let pre = lc@.take(i as int);
            let post = lc@.take(i as int + 1);
            assert(post.drop_last() =~= pre);
            assert(post.last() == lc@[i as int]);
            assert(var_value(var, inputs@, aux@) == x.val());
            let s = lc_sum(pre, inputs@, aux@);
            assert(lc_sum(post, inputs@, aux@) == s + prod);
            assert(x.val() * coeff.val() == coeff.val() * x.val()) by (nonlinear_arith);
            lemma_add_mod_noop(s, prod, m);
            lemma_small_mod(prod as nat % m as nat, m as nat);
            lemma_add_mod_noop(prev, prod % m, m);
        }
        i = i + 1;
    }
    assert(lc@.take(n as int) =~= lc@);
    acc
}

proof fn lemma_lc_sum_concat(a: Seq<(Variable, int)>, b: Seq<(Variable, int)>, inputs: Seq<Scalar>, aux: Seq<Scalar>)
    ensures
        lc_sum(a + b, inputs, aux) == lc_sum(a, inputs, aux) + lc_sum(b, inputs, aux),
    decreases b.len(),
{
    if b.len() == 0 {
        assert(a + b =~= a);
    } else {
        assert((a + b).drop_last() =~= a + b.drop_last());
        lemma_lc_sum_concat(a, b.drop_last(), inputs, aux);
    }
}

proof fn lemma_lc_sum_scale(c: int, l: Seq<(Variable, int)>, inputs: Seq<Scalar>, aux: Seq<Scalar>)
    ensures
        lc_sum(lc_scale(c, l), inputs, aux) == c * lc_sum(l, inputs, aux),
    decreases l.len(),
{
    if l.len() > 0 {
        assert(lc_scale(c, l).drop_last() =~= lc_scale(c, l.drop_last()));
        lemma_lc_sum_scale(c, l.drop_last(), inputs, aux);
        let s = lc_sum(l.drop_last(), inputs, aux);
        let k = l.last().1;
        let v = var_value(l.last().0, inputs, aux);
        assert(c * s + (c * k) * v == c * (s + k * v)) by (nonlinear_arith);
    }
}

/// Evaluation is linear: over one assignment, the value of
/// `c1 * lc1 + c2 * lc2` is `c1` times the value of `lc1` plus `c2` times the
/// value of `lc2`, in the field.
pub proof fn lemma_eval_linear(
    c1: int,
    lc1: Seq<(Variable, int)>,
    c2: int,
    lc2: Seq<(Variable, int)>,
    inputs: Seq<Scalar>,
    aux: Seq<Scalar>,
)
    ensures
        lc_value(lc_scale(c1, lc1) + lc_scale(c2, lc2), inputs, aux) == (c1 * lc_value(
            lc1,
            inputs,
            aux,
        ) + c2 * lc_value(lc2, inputs, aux)) % modulus(),
{
    let m = modulus();
    let s1 = lc_sum(lc1, inputs, aux);
    let s2 = lc_sum(lc2, inputs, aux);
    lemma_lc_sum_concat(lc_scale(c1, lc1), lc_scale(c2, lc2), inputs, aux);
    lemma_lc_sum_scale(c1, lc1, inputs, aux);
    lemma_lc_sum_scale(c2, lc2, inputs, aux);
    lemma_add_mod_noop(c1 * s1, c2 * s2, m);
    lemma_mul_mod_noop_right(c1, s1, m);
    lemma_mul_mod_noop_right(c2, s2, m);
    lemma_add_mod_noop(c1 * (s1 % m), c2 * (s2 % m), m);
}

} // verus!
