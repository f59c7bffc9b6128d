use vstd::prelude::*;
use crate::assignment::ProvingAssignment;
use crate::circuit::{
    Circuit, lemma_rows, present_values, rows, synthesizable, synthesize, synthesized, touched_by,
};
use crate::curve::{
    G1_LEN, G2_LEN, all_g1, all_g2, g1_add, g1_check, g1_msm, g1_mul, g1_multiexp, g1_scaled,
    g1_sum, g1_valid, g2_add, g2_check, g2_msm, g2_mul, g2_multiexp, g2_scaled, g2_sum, g2_valid,
    identity_encoding, points_view,
};
use crate::density::{DensityTracker, count_true};
use crate::domain::{MAX_LOG_DOMAIN, compute_h, log_domain, pow2, quotient, vals};
use crate::error::SynthesisError;
use crate::field::{Scalar, modulus, random_scalar};
use crate::lc::all_wf;

verus! {

/// A point of the first group, as compressed bytes.
pub open spec fn g1_ok(p: Seq<u8>) -> bool {
    p.len() == G1_LEN && g1_valid(p)
}

/// A point of the second group, as compressed bytes.
pub open spec fn g2_ok(p: Seq<u8>) -> bool {
    p.len() == G2_LEN && g2_valid(p)
}

/// The public part of the setup, every point compressed.
pub struct VerifyingKey {
    pub alpha_g1: Vec<u8>,
    pub beta_g1: Vec<u8>,
    pub beta_g2: Vec<u8>,
    pub gamma_g2: Vec<u8>,
    pub delta_g1: Vec<u8>,
    pub delta_g2: Vec<u8>,
    pub ic: Vec<Vec<u8>>,
}

impl VerifyingKey {
    /// Every point decodes.
    pub open spec fn points_valid(&self) -> bool {
        &&& g1_ok(self.alpha_g1@)
        &&& g1_ok(self.beta_g1@)
        &&& g2_ok(self.beta_g2@)
        &&& g2_ok(self.gamma_g2@)
        &&& g1_ok(self.delta_g1@)
        &&& g2_ok(self.delta_g2@)
        &&& all_g1(self.ic@)
    }

    /// Delta, in either group, is the point at infinity.
    pub open spec fn delta_is_identity(&self) -> bool {
        self.delta_g1@ == identity_encoding(G1_LEN as nat) || self.delta_g2@ == identity_encoding(
            G2_LEN as nat,
        )
    }

    /// Whether every point decodes.
    pub fn check(&self) -> (r: bool)
        ensures
            r == self.points_valid(),
    {
        point1_ok(&self.alpha_g1) && point1_ok(&self.beta_g1) && point2_ok(&self.beta_g2)
            && point2_ok(&self.gamma_g2) && point1_ok(&self.delta_g1) && point2_ok(&self.delta_g2)
            && points1_ok(&self.ic)
    }

    /// Whether delta, in either group, is the point at infinity.
    pub fn has_identity_delta(&self) -> (r: bool)
        ensures
            r == self.delta_is_identity(),
    {
        is_identity(&self.delta_g1, G1_LEN) || is_identity(&self.delta_g2, G2_LEN)
    }
}

/// The proving key: the verifying key and the bases of every query. The A
/// and B bases hold the inputs' first, then those of the auxiliary
/// variables that the query touches.
pub struct Parameters {
    pub vk: VerifyingKey,
    pub h: Vec<Vec<u8>>,
    pub l: Vec<Vec<u8>>,
    pub a: Vec<Vec<u8>>,
    pub b_g1: Vec<Vec<u8>>,
    pub b_g2: Vec<Vec<u8>>,
}

impl Parameters {
    /// Every point decodes.
    pub open spec fn points_valid(&self) -> bool {
        &&& self.vk.points_valid()
        &&& all_g1(self.h@)
        &&& all_g1(self.l@)
        &&& all_g1(self.a@)
        &&& all_g1(self.b_g1@)
        &&& all_g2(self.b_g2@)
    }

    /// The key has as many bases of each query as the circuit needs, and
    /// the circuit's domain is not too large.
    pub open spec fn fits(&self, c: Circuit) -> bool {
        let n_aux = c.aux@.len();
        let ni = c.num_inputs();
        let cs = c.constraints@;
        &&& log_domain(c.num_constraints()) <= MAX_LOG_DOMAIN
        &&& self.h@.len() == pow2(log_domain(c.num_constraints())) - 1
        &&& self.l@.len() == n_aux
        &&& self.a@.len() == ni + count_true(touched_by(cs, 0, false, n_aux))
        &&& self.b_g1@.len() == count_true(touched_by(cs, 1, true, ni)) + count_true(
            touched_by(cs, 1, false, n_aux),
        )
        &&& self.b_g2@.len() == count_true(touched_by(cs, 1, true, ni)) + count_true(
            touched_by(cs, 1, false, n_aux),
        )
    }

    /// Whether every point decodes.
    pub fn check(&self) -> (r: bool)
        ensures
            r == self.points_valid(),
    {
        self.vk.check() && points1_ok(&self.h) && points1_ok(&self.l) && points1_ok(&self.a)
            && points1_ok(&self.b_g1) && points2_ok(&self.b_g2)
    }
}

/// A Groth16 proof: three compressed points.
pub struct Proof {
    pub a: Vec<u8>,
    pub b: Vec<u8>,
    pub c: Vec<u8>,
}

impl View for Proof {
    type V = (Seq<u8>, Seq<u8>, Seq<u8>);

    open spec fn view(&self) -> (Seq<u8>, Seq<u8>, Seq<u8>) {
        (self.a@, self.b@, self.c@)
    }
}

fn point1_ok(p: &Vec<u8>) -> (r: bool)
    ensures
        r == g1_ok(p@),
{
    p.len() == G1_LEN && g1_check(p)
}

fn point2_ok(p: &Vec<u8>) -> (r: bool)
    ensures
        r == g2_ok(p@),
{
    p.len() == G2_LEN && g2_check(p)
}

fn points1_ok(v: &Vec<Vec<u8>>) -> (r: bool)
    ensures
        r == all_g1(v@),
{
    let mut i: usize = 0;
    while i < v.len()
        invariant
            i <= v@.len(),
            forall|k: int|
                0 <= k < i ==> (g1_ok((#[trigger] v@[k])@) && v@[k]@ != identity_encoding(
                    G1_LEN as nat,
                )),
        decreases v@.len() - i,
    {
        if !point1_ok(&v[i]) || is_identity(&v[i], G1_LEN) {
            return false;
        }
        i = i + 1;
    }
    assert forall|k: int| 0 <= k < v@.len() implies (#[trigger] v@[k])@.len() == G1_LEN
        && g1_valid(v@[k]@) && v@[k]@ != identity_encoding(G1_LEN as nat) by {
        assert(g1_ok(v@[k]@));
    }
    true
}

fn points2_ok(v: &Vec<Vec<u8>>) -> (r: bool)
    ensures
        r == all_g2(v@),
{
    let mut i: usize = 0;
    while i < v.len()
        invariant
            i <= v@.len(),
            forall|k: int|
                0 <= k < i ==> (g2_ok((#[trigger] v@[k])@) && v@[k]@ != identity_encoding(
                    G2_LEN as nat,
                )),
        decreases v@.len() - i,
    {
        if !point2_ok(&v[i]) || is_identity(&v[i], G2_LEN) {
            return false;
        }
        i = i + 1;
    }
    assert forall|k: int| 0 <= k < v@.len() implies (#[trigger] v@[k])@.len() == G2_LEN
        && g2_valid(v@[k]@) && v@[k]@ != identity_encoding(G2_LEN as nat) by {
        assert(g2_ok(v@[k]@));
    }
    true
}

/// Whether `p` is the compressed encoding of the point at infinity.
pub(crate) fn is_identity(p: &Vec<u8>, len: usize) -> (r: bool)
    ensures
        r == (p@ == identity_encoding(len as nat)),
{
    if p.len() != len {
        return false;
    }
    let mut i: usize = 0;
    while i < p.len()
        invariant
            p@.len() == len,
            i <= len,
            forall|k: int| 0 <= k < i ==> p@[k] == identity_encoding(len as nat)[k],
        decreases len - i,
    {
        let want: u8 = if i == 0 {
            0xc0
        } else {
            0
        };
        if p[i] != want {
            return false;
        }
        i = i + 1;
    }
    assert(p@ =~= identity_encoding(len as nat));
    true
}

/// The values whose slot in `mask` is set, in order.
pub open spec fn dense(v: Seq<int>, mask: Seq<bool>) -> Seq<int>
    decreases v.len(),
{
    if v.len() == 0 || mask.len() == 0 {
        Seq::empty()
    } else if mask.last() {
        dense(v.drop_last(), mask.drop_last()).push(v.last())
    } else {
        dense(v.drop_last(), mask.drop_last())
    }
}

proof fn lemma_dense_len(v: Seq<int>, mask: Seq<bool>)
    requires
        v.len() == mask.len(),
    ensures
        dense(v, mask).len() == count_true(mask),
    decreases v.len(),
{
    if v.len() > 0 {
        lemma_dense_len(v.drop_last(), mask.drop_last());
    }
}

/// The values of the variables that the tracker marks as touched.
fn dense_values(values: &Vec<Scalar>, tracker: &DensityTracker) -> (r: Vec<Scalar>)
    requires
        values@.len() == tracker@.len(),
        all_wf(values@),
    ensures
        vals(r@) == dense(vals(values@), tracker@),
        all_wf(r@),
        r@.len() == count_true(tracker@),
{
    let mut r: Vec<Scalar> = Vec::new();
    let mut i: usize = 0;
    while i < values.len()
        invariant
            values@.len() == tracker@.len(),
            i <= values@.len(),
            all_wf(values@),
            all_wf(r@),
            vals(r@) == dense(vals(values@.take(i as int)), tracker@.take(i as int)),
        decreases values@.len() - i,
    {
        proof {
            assert(vals(values@.take(i as int + 1)).drop_last() =~= vals(values@.take(i as int)));
            assert(tracker@.take(i as int + 1).drop_last() =~= tracker@.take(i as int));
        }
        if tracker.is_set(i) {
            r.push(values[i]);
            assert(vals(r@) =~= dense(vals(values@.take(i as int)), tracker@.take(i as int)).push(
                values@[i as int].val(),
            ));
        }
        i = i + 1;
    }
    proof {
        assert(values@.take(i as int) =~= values@);
        assert(tracker@.take(i as int) =~= tracker@);
        lemma_dense_len(vals(values@), tracker@);
    }
    r
}

/// The points of `v` before index `k`, and those from it on.
fn split_points(v: &Vec<Vec<u8>>, k: usize) -> (r: (Vec<Vec<u8>>, Vec<Vec<u8>>))
    requires
        k <= v@.len(),
    ensures
        r.0@.len() == k,
        r.1@.len() == v@.len() - k,
        forall|i: int| 0 <= i < k ==> (#[trigger] r.0@[i])@ == v@[i]@,
        forall|i: int| 0 <= i < v@.len() - k ==> (#[trigger] r.1@[i])@ == v@[k + i]@,
        points_view(r.0@) == points_view(v@).take(k as int),
        points_view(r.1@) == points_view(v@).skip(k as int),
{
    let mut first: Vec<Vec<u8>> = Vec::new();
    let mut second: Vec<Vec<u8>> = Vec::new();
    let mut i: usize = 0;
    while i < v.len()
        invariant
            k <= v@.len(),
            i <= v@.len(),
            first@.len() == if i < k {
                i as int
            } else {
                k as int
            },
            second@.len() == if i < k {
                0
            } else {
                i - k
            },
            forall|j: int| 0 <= j < first@.len() ==> (#[trigger] first@[j])@ == v@[j]@,
            forall|j: int| 0 <= j < second@.len() ==> (#[trigger] second@[j])@ == v@[k + j]@,
        decreases v@.len() - i,
    {
        let p = copy_bytes(&v[i]);
        if i < k {
            first.push(p);
        } else {
            second.push(p);
        }
        i = i + 1;
    }
    assert(points_view(first@) =~= points_view(v@).take(k as int));
    assert(points_view(second@) =~= points_view(v@).skip(k as int));
    (first, second)
}

fn copy_bytes(v: &Vec<u8>) -> (r: Vec<u8>)
    ensures
        r@ == v@,
{
    let mut r: Vec<u8> = Vec::new();
    let mut i: usize = 0;
    while i < v.len()
        invariant
            i <= v@.len(),
            r@ == v@.take(i as int),
        decreases v@.len() - i,
    {
        r.push(v[i]);
        assert(r@ =~= v@.take(i as int + 1));
        i = i + 1;
    }
    assert(v@.take(i as int) =~= v@);
    r
}

/// The A, B (both groups), H and L terms that a proof combines.
struct Answers {
    a: Vec<u8>,
    b1: Vec<u8>,
    b2: Vec<u8>,
    h: Vec<u8>,
    l: Vec<u8>,
}

/// The sum of the input part and the auxiliary part of a query, first group.
pub open spec fn query_g1(bases: Seq<Seq<u8>>, k: int, first: Seq<int>, second: Seq<int>) -> Seq<u8> {
    g1_sum(g1_msm(bases.take(k), first), g1_msm(bases.skip(k), second))
}

/// The sum of the input part and the auxiliary part of a query, second group.
pub open spec fn query_g2(bases: Seq<Seq<u8>>, k: int, first: Seq<int>, second: Seq<int>) -> Seq<u8> {
    g2_sum(g2_msm(bases.take(k), first), g2_msm(bases.skip(k), second))
}

/// The terms that the proof of circuit `c` combines: the A query over all
/// inputs and the touched auxiliary values, the B query over the touched
/// inputs and auxiliary values, H over the quotient's coefficients, L over
/// the auxiliary values.
pub open spec fn answers(p: Parameters, c: Circuit) -> (Seq<u8>, Seq<u8>, Seq<u8>, Seq<u8>, Seq<u8>) {
    let cs = c.constraints@;
    let n_aux = c.aux@.len();
    let ins = vals(c.input_values());
    let aux = vals(present_values(c.aux@));
    let a_mask = touched_by(cs, 0, false, n_aux);
    let bi_mask = touched_by(cs, 1, true, c.num_inputs());
    let ba_mask = touched_by(cs, 1, false, n_aux);
    let bi = count_true(bi_mask) as int;
    (
        query_g1(points_view(p.a@), ins.len() as int, ins, dense(aux, a_mask)),
        query_g1(points_view(p.b_g1@), bi, dense(ins, bi_mask), dense(aux, ba_mask)),
        query_g2(points_view(p.b_g2@), bi, dense(ins, bi_mask), dense(aux, ba_mask)),
        g1_msm(points_view(p.h@), quotient(rows(c, 0), rows(c, 1), rows(c, 2))),
        g1_msm(points_view(p.l@), aux),
    )
}

/// The proof that the verifying key and the randomizers `r` and `s` give
/// for the terms A, B (both groups), H and L:
/// A = delta*r + alpha + A, B = delta*s + beta + B,
/// C = delta*(r*s) + alpha*s + beta*r + A*s + B*r + H + L.
pub open spec fn assembled(
    vk: VerifyingKey,
    r: int,
    s: int,
    t: (Seq<u8>, Seq<u8>, Seq<u8>, Seq<u8>, Seq<u8>),
) -> (Seq<u8>, Seq<u8>, Seq<u8>) {
    let (a, b1, b2, h, l) = t;
    let ga = g1_sum(g1_sum(g1_scaled(vk.delta_g1@, r), vk.alpha_g1@), a);
    let gb = g2_sum(g2_sum(g2_scaled(vk.delta_g2@, s), vk.beta_g2@), b2);
    let gc = g1_sum(
        g1_sum(
            g1_sum(
                g1_sum(
                    g1_sum(
                        g1_sum(g1_scaled(vk.delta_g1@, (r * s) % modulus()), g1_scaled(vk.alpha_g1@, s)),
                        g1_scaled(vk.beta_g1@, r),
                    ),
                    g1_scaled(a, s),
                ),
                g1_scaled(b1, r),
            ),
            h,
        ),
        l,
    );
    (ga, gb, gc)
}

/// The proof of circuit `c` under the key and randomizers.
pub open spec fn expected_proof(p: Parameters, c: Circuit, r: int, s: int) -> (Seq<u8>, Seq<u8>, Seq<u8>) {
    assembled(p.vk, r, s, answers(p, c))
}

/// Combines the resolved terms, the verifying key and the randomizers into
/// a proof.
fn assemble(vk: &VerifyingKey, r: &Scalar, s: &Scalar, t: &Answers) -> (pr: Proof)
    requires
        vk.points_valid(),
        r.wf(),
        s.wf(),
        g1_ok(t.a@),
        g1_ok(t.b1@),
        g2_ok(t.b2@),
        g1_ok(t.h@),
        g1_ok(t.l@),
    ensures
        pr@ == assembled(*vk, r.val(), s.val(), (t.a@, t.b1@, t.b2@, t.h@, t.l@)),
        pr.sized(),
{
    let ga = g1_add(&g1_add(&g1_mul(&vk.delta_g1, r), &vk.alpha_g1), &t.a);
    let gb = g2_add(&g2_add(&g2_mul(&vk.delta_g2, s), &vk.beta_g2), &t.b2);
    let rs = r.mul(s);
    let mut gc = g1_mul(&vk.delta_g1, &rs);
    gc = g1_add(&gc, &g1_mul(&vk.alpha_g1, s));
    gc = g1_add(&gc, &g1_mul(&vk.beta_g1, r));
    gc = g1_add(&gc, &g1_mul(&t.a, s));
    gc = g1_add(&gc, &g1_mul(&t.b1, r));
    gc = g1_add(&gc, &t.h);
    gc = g1_add(&gc, &t.l);
    Proof { a: ga, b: gb, c: gc }
}

/// Proves one synthesized instance: the quotient, the multiexponentiations
/// of every query, and the assembly.
fn prove_one(
    params: &Parameters,
    prover: &ProvingAssignment,
    r: &Scalar,
    s: &Scalar,
    Ghost(c): Ghost<Circuit>,
) -> (res: Result<Proof, SynthesisError>)
    requires
        synthesized(c, *prover),
        params.points_valid(),
        r.wf(),
        s.wf(),
    ensures
        log_domain(c.num_constraints()) > MAX_LOG_DOMAIN ==> res == Err::<Proof, SynthesisError>(
            SynthesisError::PolynomialDegreeTooLarge,
        ),
        log_domain(c.num_constraints()) <= MAX_LOG_DOMAIN && !params.fits(c) ==> res == Err::<
            Proof,
            SynthesisError,
        >(SynthesisError::MalformedParameters),
        params.fits(c) ==> res is Ok,
        res matches Ok(pr) ==> pr@ == expected_proof(*params, c, r.val(), s.val()) && pr.sized(),
{
    proof {
        lemma_rows(c, *prover);
    }
    let h_coeffs = compute_h(&prover.a, &prover.b, &prover.c)?;
    let ni = prover.input_assignment.len();
    let a_total = prover.a_aux_density.get_total_density();
    let bi_total = prover.b_input_density.get_total_density();
    let ba_total = prover.b_aux_density.get_total_density();
    if params.h.len() != h_coeffs.len() || params.l.len() != prover.aux_assignment.len()
        || params.a.len() < ni || params.a.len() - ni != a_total || params.b_g1.len() < bi_total
        || params.b_g1.len() - bi_total != ba_total || params.b_g2.len() < bi_total
        || params.b_g2.len() - bi_total != ba_total {
        return Err(SynthesisError::MalformedParameters);
    }
    let h = g1_multiexp(&params.h, &h_coeffs);
    let l = g1_multiexp(&params.l, &prover.aux_assignment);
    let (a_in_bases, a_aux_bases) = split_points(&params.a, ni);
    let a_aux_values = dense_values(&prover.aux_assignment, &prover.a_aux_density);
    let a = g1_add(
        &g1_multiexp(&a_in_bases, &prover.input_assignment),
        &g1_multiexp(&a_aux_bases, &a_aux_values),
    );
    let b_in_values = dense_values(&prover.input_assignment, &prover.b_input_density);
    let b_aux_values = dense_values(&prover.aux_assignment, &prover.b_aux_density);
    let (b1_in_bases, b1_aux_bases) = split_points(&params.b_g1, bi_total);
    let b1 = g1_add(
        &g1_multiexp(&b1_in_bases, &b_in_values),
        &g1_multiexp(&b1_aux_bases, &b_aux_values),
    );
    let (b2_in_bases, b2_aux_bases) = split_points(&params.b_g2, bi_total);
    let b2 = g2_add(
        &g2_multiexp(&b2_in_bases, &b_in_values),
        &g2_multiexp(&b2_aux_bases, &b_aux_values),
    );
    let t = Answers { a, b1, b2, h, l };
    assert((t.a@, t.b1@, t.b2@, t.h@, t.l@) == answers(*params, c));
    Ok(assemble(&params.vk, r, s, &t))
}

/// The error that synthesis of a circuit that cannot be synthesized gives.
pub open spec fn synthesis_error(c: Circuit) -> SynthesisError {
    if !c.wf() {
        SynthesisError::MalformedCircuit
    } else {
        SynthesisError::AssignmentMissing
    }
}

/// Circuit `j` is the first that cannot be synthesized.
pub open spec fn first_unsynthesizable(cs: Seq<Circuit>, j: int) -> bool {
    &&& 0 <= j < cs.len()
    &&& !synthesizable(cs[j])
    &&& forall|k: int| 0 <= k < j ==> synthesizable(#[trigger] cs[k])
}

/// The error that proving a circuit that the key does not fit gives.
pub open spec fn fit_error(c: Circuit) -> SynthesisError {
    if log_domain(c.num_constraints()) > MAX_LOG_DOMAIN {
        SynthesisError::PolynomialDegreeTooLarge
    } else {
        SynthesisError::MalformedParameters
    }
}

/// Circuit `j` is the first that the key does not fit.
pub open spec fn first_unfit(params: Parameters, cs: Seq<Circuit>, j: int) -> bool {
    &&& 0 <= j < cs.len()
    &&& !params.fits(cs[j])
    &&& forall|k: int| 0 <= k < j ==> params.fits(#[trigger] cs[k])
}

/// The circuits agree in their number of constraints and of inputs.
pub open spec fn same_shape(cs: Seq<Circuit>) -> bool {
    forall|i: int|
        0 <= i < cs.len() ==> (#[trigger] cs[i]).num_constraints() == cs[0].num_constraints()
            && cs[i].num_inputs() == cs[0].num_inputs()
}

/// Every step of proving the batch succeeds: delta is not the point at
/// infinity, every circuit can be synthesized, all agree in size, and the
/// key decodes and fits each of them.
pub open spec fn batch_succeeds(params: Parameters, cs: Seq<Circuit>) -> bool {
    &&& !params.vk.delta_is_identity()
    &&& forall|i: int| 0 <= i < cs.len() ==> synthesizable(#[trigger] cs[i])
    &&& same_shape(cs)
    &&& params.points_valid()
    &&& forall|i: int| 0 <= i < cs.len() ==> params.fits(#[trigger] cs[i])
}

/// Each proof is the proof of its circuit under the key and its pair of
/// randomizers.
pub open spec fn proves_with(
    params: Parameters,
    cs: Seq<Circuit>,
    proofs: Seq<Proof>,
    r: Seq<int>,
    s: Seq<int>,
) -> bool {
    &&& proofs.len() == cs.len()
    &&& r.len() == cs.len()
    &&& s.len() == cs.len()
    &&& forall|i: int|
        0 <= i < cs.len() ==> (#[trigger] proofs[i])@ == expected_proof(params, cs[i], r[i], s[i])
            && proofs[i].sized()
}

/// Each proof is the proof of its circuit under the key for some pairs of
/// randomizers.
pub open spec fn proves_for_some(params: Parameters, cs: Seq<Circuit>, proofs: Seq<Proof>) -> bool {
    exists|r: Seq<int>, s: Seq<int>| proves_with(params, cs, proofs, r, s)
}

/// Proves a batch of circuit instances with the given randomizers, one
/// proof per circuit in order. A verifying key whose delta is the point at
/// infinity is refused before anything else; then every circuit is
/// synthesized, and circuits that disagree in size are refused before any
/// transform or multiexponentiation. `priority` asks for the accelerator
/// ahead of other provers; this build computes on the CPU and accepts it for
/// callers that pass it.
pub fn create_proof_batch_priority(
    circuits: Vec<Circuit>,
    params: &Parameters,
    r_s: Vec<Scalar>,
    s_s: Vec<Scalar>,
    priority: bool,
) -> (res: Result<Vec<Proof>, SynthesisError>)
    requires
        circuits@.len() > 0,
        r_s@.len() == circuits@.len(),
        s_s@.len() == circuits@.len(),
        all_wf(r_s@),
        all_wf(s_s@),
        forall|i: int| 0 <= i < circuits@.len() ==> (#[trigger] circuits@[i]).inputs@.len() + 1 < usize::MAX,
    ensures
        params.vk.delta_is_identity() ==> res == Err::<Vec<Proof>, SynthesisError>(
            SynthesisError::UnexpectedIdentity,
        ),
        forall|j: int|
            !params.vk.delta_is_identity() && #[trigger] first_unsynthesizable(circuits@, j) ==> res
                == Err::<Vec<Proof>, SynthesisError>(synthesis_error(circuits@[j])),
        !params.vk.delta_is_identity() && (forall|i: int|
            0 <= i < circuits@.len() ==> synthesizable(#[trigger] circuits@[i]))
            && !same_shape(circuits@) ==> res == Err::<Vec<Proof>, SynthesisError>(
            SynthesisError::SizeMismatch,
        ),
        !params.vk.delta_is_identity() && (forall|i: int|
            0 <= i < circuits@.len() ==> synthesizable(#[trigger] circuits@[i])) && same_shape(
            circuits@,
        ) && !params.points_valid() ==> res == Err::<Vec<Proof>, SynthesisError>(
            SynthesisError::MalformedParameters,
        ),
        forall|j: int|
            !params.vk.delta_is_identity() && (forall|i: int|
                0 <= i < circuits@.len() ==> synthesizable(#[trigger] circuits@[i])) && same_shape(
                circuits@,
            ) && params.points_valid() && #[trigger] first_unfit(*params, circuits@, j) ==> res
                == Err::<Vec<Proof>, SynthesisError>(fit_error(circuits@[j])),
        res is Ok <==> batch_succeeds(*params, circuits@),
        res matches Ok(proofs) ==> proofs@.len() == circuits@.len() && forall|i: int|
            0 <= i < circuits@.len() ==> (#[trigger] proofs@[i])@ == expected_proof(
                *params,
                circuits@[i],
                r_s@[i].val(),
                s_s@[i].val(),
            ) && proofs@[i].sized(),
{
    if params.vk.has_identity_delta() {
        return Err(SynthesisError::UnexpectedIdentity);
    }
    let mut provers: Vec<ProvingAssignment> = Vec::new();
    let mut i: usize = 0;
    while i < circuits.len()
        invariant
            !params.vk.delta_is_identity(),
            i <= circuits@.len(),
            provers@.len() == i,
            forall|j: int| 0 <= j < circuits@.len() ==> (#[trigger] circuits@[j]).inputs@.len() + 1 < usize::MAX,
            forall|j: int| 0 <= j < i ==> synthesizable(#[trigger] circuits@[j]),
            forall|j: int| 0 <= j < i ==> synthesized(#[trigger] circuits@[j], provers@[j]),
        decreases circuits@.len() - i,
    {
        let p = match synthesize(&circuits[i]) {
            Ok(p) => p,
            Err(e) => {
                assert(!synthesizable(circuits@[i as int]));
                assert(e == synthesis_error(circuits@[i as int]));
                assert forall|j: int| #[trigger] first_unsynthesizable(circuits@, j) implies j == i by {
                    if j < i {
                        assert(synthesizable(circuits@[j]));
                    } else if j > i {
                        assert(synthesizable(circuits@[i as int]));
                    }
                }
                return Err(e);
            },
        };
        provers.push(p);
        i = i + 1;
    }
    let n = provers[0].a.len();
    let input_len = provers[0].input_assignment.len();
    let mut i: usize = 0;
    while i < provers.len()
        invariant
            !params.vk.delta_is_identity(),
            forall|j: int| 0 <= j < circuits@.len() ==> synthesizable(#[trigger] circuits@[j]),
            provers@.len() == circuits@.len(),
            i <= provers@.len(),
            forall|j: int| 0 <= j < circuits@.len() ==> synthesized(#[trigger] circuits@[j], provers@[j]),
            n == circuits@[0].num_constraints(),
            input_len == circuits@[0].num_inputs(),
            forall|j: int|
                0 <= j < i ==> (#[trigger] circuits@[j]).num_constraints() == n
                    && circuits@[j].num_inputs() == input_len,
        decreases provers@.len() - i,
    {
        assert(synthesized(circuits@[i as int], provers@[i as int]));
        if provers[i].a.len() != n || provers[i].input_assignment.len() != input_len {
            assert(!same_shape(circuits@)) by {
                assert(circuits@[i as int].num_constraints() != circuits@[0].num_constraints()
                    || circuits@[i as int].num_inputs() != circuits@[0].num_inputs());
            }
            return Err(SynthesisError::SizeMismatch);
        }
        i = i + 1;
    }
    assert(same_shape(circuits@));
    if !params.check() {
        return Err(SynthesisError::MalformedParameters);
    }
    let mut proofs: Vec<Proof> = Vec::new();
    let mut i: usize = 0;
    while i < provers.len()
        invariant
            !params.vk.delta_is_identity(),
            forall|j: int| 0 <= j < circuits@.len() ==> synthesizable(#[trigger] circuits@[j]),
            same_shape(circuits@),
            provers@.len() == circuits@.len(),
            r_s@.len() == circuits@.len(),
            s_s@.len() == circuits@.len(),
            all_wf(r_s@),
            all_wf(s_s@),
            params.points_valid(),
            i <= provers@.len(),
            proofs@.len() == i,
            forall|j: int| 0 <= j < circuits@.len() ==> synthesized(#[trigger] circuits@[j], provers@[j]),
            forall|j: int| 0 <= j < i ==> params.fits(#[trigger] circuits@[j]),
            forall|j: int|
                0 <= j < i ==> (#[trigger] proofs@[j])@ == expected_proof(
                    *params,
                    circuits@[j],
                    r_s@[j].val(),
                    s_s@[j].val(),
                ) && proofs@[j].sized(),
        decreases provers@.len() - i,
    {
        assert(synthesized(circuits@[i as int], provers@[i as int]));
        assert(r_s@[i as int].wf() && s_s@[i as int].wf());
        let pr = match prove_one(params, &provers[i], &r_s[i], &s_s[i], Ghost(circuits@[i as int])) {
            Ok(pr) => pr,
            Err(e) => {
                assert(!params.fits(circuits@[i as int]));
                assert(e == fit_error(circuits@[i as int]));
                assert forall|j: int| #[trigger] first_unfit(*params, circuits@, j) implies j == i by {
                    if j < i {
                        assert(params.fits(circuits@[j]));
                    } else if j > i {
                        assert(params.fits(circuits@[i as int]));
                    }
                }
                return Err(e);
            },
        };
        proofs.push(pr);
        i = i + 1;
    }
    Ok(proofs)
}

/// Proves a batch with randomizers drawn from the operating system's
/// generator, two per circuit.
pub fn create_random_proof_batch_priority(
    circuits: Vec<Circuit>,
    params: &Parameters,
    priority: bool,
) -> (res: Result<Vec<Proof>, SynthesisError>)
    requires
        circuits@.len() > 0,
        forall|i: int| 0 <= i < circuits@.len() ==> (#[trigger] circuits@[i]).inputs@.len() + 1 < usize::MAX,
    ensures
        params.vk.delta_is_identity() ==> res == Err::<Vec<Proof>, SynthesisError>(
            SynthesisError::UnexpectedIdentity,
        ),
        !params.vk.delta_is_identity() && (forall|i: int|
            0 <= i < circuits@.len() ==> synthesizable(#[trigger] circuits@[i]))
            && !same_shape(circuits@) ==> res == Err::<Vec<Proof>, SynthesisError>(
            SynthesisError::SizeMismatch,
        ),
        forall|j: int|
            !params.vk.delta_is_identity() && #[trigger] first_unsynthesizable(circuits@, j) ==> res
                == Err::<Vec<Proof>, SynthesisError>(synthesis_error(circuits@[j])),
        forall|j: int|
            !params.vk.delta_is_identity() && (forall|i: int|
                0 <= i < circuits@.len() ==> synthesizable(#[trigger] circuits@[i])) && same_shape(
                circuits@,
            ) && params.points_valid() && #[trigger] first_unfit(*params, circuits@, j) ==> res
                == Err::<Vec<Proof>, SynthesisError>(fit_error(circuits@[j])),
        !params.vk.delta_is_identity() && (forall|i: int|
            0 <= i < circuits@.len() ==> synthesizable(#[trigger] circuits@[i])) && same_shape(
            circuits@,
        ) && !params.points_valid() ==> res == Err::<Vec<Proof>, SynthesisError>(
            SynthesisError::MalformedParameters,
        ),
        res is Ok <==> batch_succeeds(*params, circuits@),
        res matches Ok(proofs) ==> proves_for_some(*params, circuits@, proofs@),
{
    let mut r_s: Vec<Scalar> = Vec::new();
    let mut s_s: Vec<Scalar> = Vec::new();
    let mut i: usize = 0;
    while i < circuits.len()
        invariant
            i <= circuits@.len(),
            r_s@.len() == i,
            s_s@.len() == i,
            all_wf(r_s@),
            all_wf(s_s@),
        decreases circuits@.len() - i,
    {
        r_s.push(random_scalar());
        s_s.push(random_scalar());
        i = i + 1;
    }
    let ghost cs = circuits@;
    let ghost rs = r_s@;
    let ghost ss = s_s@;
    let res = create_proof_batch_priority(circuits, params, r_s, s_s, priority);
    proof {
        if res is Ok {
            let proofs = res->Ok_0;
            assert(proves_with(*params, cs, proofs@, vals(rs), vals(ss)));
            assert(proves_for_some(*params, cs, proofs@));
        }
    }
    res
}

} // verus!
