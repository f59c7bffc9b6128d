use vstd::prelude::*;
use bellperson::domain::{EvaluationDomain, Scalar as DomainScalar};
use bellperson::multicore::Worker;
use fff::PrimeField;
use paired::bls12_381::{Bls12, Fr, FrRepr};
use crate::error::SynthesisError;
use crate::field::{Scalar, modulus};
use crate::lc::all_wf;

verus! {

/// The largest evaluation domain has `2^MAX_LOG_DOMAIN` points: the field's
/// two-adicity is 32 and the domain's exponent stays below it.
pub const MAX_LOG_DOMAIN: u32 = 31;

/// The forward transform of a power-of-two sized vector of values.
pub uninterp spec fn fft_of(s: Seq<int>) -> Seq<int>;

/// The inverse transform.
pub uninterp spec fn ifft_of(s: Seq<int>) -> Seq<int>;

/// The forward transform over the coset of the multiplicative generator.
pub uninterp spec fn coset_fft_of(s: Seq<int>) -> Seq<int>;

/// The inverse transform over that coset.
pub uninterp spec fn icoset_fft_of(s: Seq<int>) -> Seq<int>;

/// Every value divided by the vanishing polynomial's value on the coset.
pub uninterp spec fn divided_by_z(s: Seq<int>) -> Seq<int>;

pub open spec fn pow2(e: nat) -> nat
    decreases e,
{
    if e == 0 {
        1
    } else {
        2 * pow2((e - 1) as nat)
    }
}

/// The integer of each value.
pub open spec fn vals(s: Seq<Scalar>) -> Seq<int> {
    s.map_values(|x: Scalar| x.val())
}

/// The smallest exponent whose power of two holds `n` points.
pub open spec fn log_domain(n: nat) -> nat
    decreases n,
{
    if n <= 1 {
        0
    } else {
        1 + log_domain(((n + 1) / 2) as nat)
    }
}

/// The values extended with zeros to `2^log_domain(n)` entries.
pub open spec fn padded(s: Seq<int>) -> Seq<int> {
    s + Seq::new((pow2(log_domain(s.len())) - s.len()) as nat, |i: int| 0int)
}

/// Entry by entry product in the field.
pub open spec fn pointwise_mul(a: Seq<int>, b: Seq<int>) -> Seq<int> {
    Seq::new(a.len(), |i: int| (a[i] * b[i]) % modulus())
}

/// Entry by entry difference in the field.
pub open spec fn pointwise_sub(a: Seq<int>, b: Seq<int>) -> Seq<int> {
    Seq::new(a.len(), |i: int| (a[i] - b[i]) % modulus())
}

/// The coefficients of H = (A * B - C) / Z for the evaluations of A, B and C
/// on the domain, the top coefficient dropped.
pub open spec fn quotient(a: Seq<int>, b: Seq<int>, c: Seq<int>) -> Seq<int> {
    let ea = coset_fft_of(ifft_of(padded(a)));
    let eb = coset_fft_of(ifft_of(padded(b)));
    let ec = coset_fft_of(ifft_of(padded(c)));
    icoset_fft_of(divided_by_z(pointwise_sub(pointwise_mul(ea, eb), ec))).drop_last()
}

/// Every value is a reduced field element.
pub open spec fn reduced(u: Seq<int>) -> bool {
    forall|k: int| 0 <= k < u.len() ==> 0 <= #[trigger] u[k] < modulus()
}

/// A vector that a domain takes as it is.
pub open spec fn domain_sized(v: Seq<Scalar>) -> bool {
    &&& exists|e: nat| e <= MAX_LOG_DOMAIN && v.len() == #[trigger] pow2(e)
    &&& all_wf(v)
}

/// Relies on bellperson's `EvaluationDomain::fft` over paired's `Fr`.
#[verifier::external_body]
fn fft_raw(v: &Vec<Scalar>) -> (r: Vec<Scalar>)
    requires
        domain_sized(v@),
    ensures
        all_wf(r@),
        vals(r@) == fft_of(vals(v@)),
        r@.len() == v@.len(),
{
    let coeffs = v.iter().map(|s| DomainScalar(Fr::from_repr(FrRepr(s.limbs())).unwrap())).collect();
    let mut d = EvaluationDomain::<Bls12, DomainScalar<Bls12>>::from_coeffs(coeffs).unwrap();
    d.fft(&Worker::new(), &mut None).unwrap();
    d.into_coeffs().iter().map(|x| Scalar::from_limbs(x.0.into_repr().0)).collect()
}

/// Relies on bellperson's `EvaluationDomain::ifft` over paired's `Fr`: the
/// inverse transform, which undoes the forward one exactly.
#[verifier::external_body]
fn ifft_raw(v: &Vec<Scalar>) -> (r: Vec<Scalar>)
    requires
        domain_sized(v@),
    ensures
        all_wf(r@),
        vals(r@) == ifft_of(vals(v@)),
        r@.len() == v@.len(),
        forall|u: Seq<int>|
            reduced(u) && u.len() == v@.len() && vals(v@) == #[trigger] fft_of(u) ==> vals(r@) == u,
{
    let coeffs = v.iter().map(|s| DomainScalar(Fr::from_repr(FrRepr(s.limbs())).unwrap())).collect();
    let mut d = EvaluationDomain::<Bls12, DomainScalar<Bls12>>::from_coeffs(coeffs).unwrap();
    d.ifft(&Worker::new(), &mut None).unwrap();
    d.into_coeffs().iter().map(|x| Scalar::from_limbs(x.0.into_repr().0)).collect()
}

/// Relies on bellperson's `EvaluationDomain::coset_fft` over paired's `Fr`.
#[verifier::external_body]
fn coset_fft_raw(v: &Vec<Scalar>) -> (r: Vec<Scalar>)
    requires
        domain_sized(v@),
    ensures
        all_wf(r@),
        vals(r@) == coset_fft_of(vals(v@)),
        r@.len() == v@.len(),
{
    let coeffs = v.iter().map(|s| DomainScalar(Fr::from_repr(FrRepr(s.limbs())).unwrap())).collect();
    let mut d = EvaluationDomain::<Bls12, DomainScalar<Bls12>>::from_coeffs(coeffs).unwrap();
    d.coset_fft(&Worker::new(), &mut None).unwrap();
    d.into_coeffs().iter().map(|x| Scalar::from_limbs(x.0.into_repr().0)).collect()
}

/// Relies on bellperson's `EvaluationDomain::icoset_fft` over paired's `Fr`.
#[verifier::external_body]
fn icoset_fft_raw(v: &Vec<Scalar>) -> (r: Vec<Scalar>)
    requires
        domain_sized(v@),
    ensures
        all_wf(r@),
        vals(r@) == icoset_fft_of(vals(v@)),
        r@.len() == v@.len(),
{
    let coeffs = v.iter().map(|s| DomainScalar(Fr::from_repr(FrRepr(s.limbs())).unwrap())).collect();
    let mut d = EvaluationDomain::<Bls12, DomainScalar<Bls12>>::from_coeffs(coeffs).unwrap();
    d.icoset_fft(&Worker::new(), &mut None).unwrap();
    d.into_coeffs().iter().map(|x| Scalar::from_limbs(x.0.into_repr().0)).collect()
}

/// Relies on bellperson's `EvaluationDomain::divide_by_z_on_coset` over
/// paired's `Fr`.
#[verifier::external_body]
fn divide_by_z_raw(v: &Vec<Scalar>) -> (r: Vec<Scalar>)
    requires
        domain_sized(v@),
    ensures
        all_wf(r@),
        vals(r@) == divided_by_z(vals(v@)),
        r@.len() == v@.len(),
{
    let coeffs = v.iter().map(|s| DomainScalar(Fr::from_repr(FrRepr(s.limbs())).unwrap())).collect();
    let mut d = EvaluationDomain::<Bls12, DomainScalar<Bls12>>::from_coeffs(coeffs).unwrap();
    d.divide_by_z_on_coset(&Worker::new());
    d.into_coeffs().iter().map(|x| Scalar::from_limbs(x.0.into_repr().0)).collect()
}

/// Relies on bellperson's `EvaluationDomain::mul_assign` over paired's
/// `Fr`: the product of each pair of entries.
#[verifier::external_body]
fn mul_raw(v: &Vec<Scalar>, w: &Vec<Scalar>) -> (r: Vec<Scalar>)
    requires
        domain_sized(v@),
        w@.len() == v@.len(),
        all_wf(w@),
    ensures
        all_wf(r@),
        vals(r@) == pointwise_mul(vals(v@), vals(w@)),
        r@.len() == v@.len(),
{
    let conv = |u: &Vec<Scalar>| u.iter().map(|s| DomainScalar(Fr::from_repr(FrRepr(s.limbs())).unwrap())).collect();
    let mut d = EvaluationDomain::<Bls12, DomainScalar<Bls12>>::from_coeffs(conv(v)).unwrap();
    d.mul_assign(&Worker::new(), &EvaluationDomain::from_coeffs(conv(w)).unwrap());
    d.into_coeffs().iter().map(|x| Scalar::from_limbs(x.0.into_repr().0)).collect()
}

/// Relies on bellperson's `EvaluationDomain::sub_assign` over paired's
/// `Fr`: the difference of each pair of entries.
#[verifier::external_body]
fn sub_raw(v: &Vec<Scalar>, w: &Vec<Scalar>) -> (r: Vec<Scalar>)
    requires
        domain_sized(v@),
        w@.len() == v@.len(),
        all_wf(w@),
    ensures
        all_wf(r@),
        vals(r@) == pointwise_sub(vals(v@), vals(w@)),
        r@.len() == v@.len(),
{
    let conv = |u: &Vec<Scalar>| u.iter().map(|s| DomainScalar(Fr::from_repr(FrRepr(s.limbs())).unwrap())).collect();
    let mut d = EvaluationDomain::<Bls12, DomainScalar<Bls12>>::from_coeffs(conv(v)).unwrap();
    d.sub_assign(&Worker::new(), &EvaluationDomain::from_coeffs(conv(w)).unwrap());
    d.into_coeffs().iter().map(|x| Scalar::from_limbs(x.0.into_repr().0)).collect()
}

proof fn lemma_pow2_positive(e: nat)
    ensures
        pow2(e) >= 1,
    decreases e,
{
    if e > 0 {
        lemma_pow2_positive((e - 1) as nat);
    }
}

/// `2^e` is below `n` exactly when `e` is below `log_domain(n)`.
proof fn lemma_log_domain(n: nat, e: nat)
    ensures
        (pow2(e) < n) == (e < log_domain(n)),
    decreases n,
{
    lemma_pow2_positive(e);
    if n > 1 && e > 0 {
        lemma_log_domain(((n + 1) / 2) as nat, (e - 1) as nat);
    }
}

/// The size of the domain for `n` values and its exponent: the smallest
/// power of two that holds them, or an error where it would exceed the
/// largest domain.
pub fn domain_size(n: usize) -> (r: Result<(usize, u32), SynthesisError>)
    ensures
        match r {
            Ok((m, e)) => e as nat == log_domain(n as nat) && m as nat == pow2(e as nat) && e
                <= MAX_LOG_DOMAIN,
            Err(err) => err == SynthesisError::PolynomialDegreeTooLarge && log_domain(n as nat)
                > MAX_LOG_DOMAIN,
        },
{
    let mut m: usize = 1;
    let mut exp: u32 = 0;
    while m < n
        invariant
            exp <= MAX_LOG_DOMAIN,
            m as nat == pow2(exp as nat),
            exp as nat <= log_domain(n as nat),
        decreases log_domain(n as nat) - exp,
    {
        proof {
            lemma_log_domain(n as nat, exp as nat);
        }
        if exp >= MAX_LOG_DOMAIN {
            return Err(SynthesisError::PolynomialDegreeTooLarge);
        }
        assert(pow2(exp as nat + 1) == 2 * pow2(exp as nat));
        assert(m <= 0x4000_0000) by {
            lemma_pow2_le_30(exp as nat);
        }
        m = m * 2;
        exp = exp + 1;
    }
    proof {
        lemma_log_domain(n as nat, exp as nat);
        if exp > 0 {
            lemma_log_domain(n as nat, (exp - 1) as nat);
        }
    }
    Ok((m, exp))
}

proof fn lemma_pow2_mono(a: nat, b: nat)
    requires
        a <= b,
    ensures
        pow2(a) <= pow2(b),
    decreases b,
{
    if a < b {
        lemma_pow2_mono(a, (b - 1) as nat);
    }
}

proof fn lemma_pow2_le_30(e: nat)
    requires
        e < MAX_LOG_DOMAIN,
    ensures
        pow2(e) <= 0x4000_0000,
{
    lemma_pow2_mono(e, 30);
    assert(pow2(30) == 0x4000_0000) by {
        reveal_with_fuel(pow2, 31);
    }
}

/// The values extended with zeros to the size of their domain.
pub fn pad(v: &Vec<Scalar>) -> (r: Result<Vec<Scalar>, SynthesisError>)
    requires
        all_wf(v@),
    ensures
        match r {
            Ok(p) => vals(p@) == padded(vals(v@)) && domain_sized(p@) && p@.len() == pow2(
                log_domain(v@.len()),
            ) && log_domain(v@.len()) <= MAX_LOG_DOMAIN,
            Err(e) => e == SynthesisError::PolynomialDegreeTooLarge && log_domain(v@.len())
                > MAX_LOG_DOMAIN,
        },
{
    let (m, e) = match domain_size(v.len()) {
        Ok(x) => x,
        Err(e) => return Err(e),
    };
    proof {
        lemma_log_domain(v@.len(), e as nat);
    }
    let mut p = v.clone();
    assert(p@ == v@);
    while p.len() < m
        invariant
            m as nat == pow2(e as nat),
            e as nat == log_domain(v@.len()),
            v@.len() <= p@.len() <= m,
            p@.take(v@.len() as int) == v@,
            forall|i: int| v@.len() <= i < p@.len() ==> (#[trigger] p@[i]).val() == 0,
            all_wf(p@),
        decreases m - p@.len(),
    {
        p.push(Scalar::zero());
        proof {
            assert(p@.take(v@.len() as int) =~= v@);
        }
    }
    assert(vals(p@) =~= padded(vals(v@))) by {
        assert forall|i: int| 0 <= i < v@.len() implies vals(p@)[i] == vals(v@)[i] by {
            assert(p@.take(v@.len() as int)[i] == p@[i]);
        }
    }
    Ok(p)
}

/// The values of the polynomial with coefficients `coeffs` at the points of
/// its domain.
pub fn evaluate(coeffs: &Vec<Scalar>) -> (r: Result<Vec<Scalar>, SynthesisError>)
    requires
        all_wf(coeffs@),
    ensures
        match r {
            Ok(p) => vals(p@) == fft_of(padded(vals(coeffs@))) && all_wf(p@),
            Err(e) => e == SynthesisError::PolynomialDegreeTooLarge && log_domain(coeffs@.len())
                > MAX_LOG_DOMAIN,
        },
{
    let p = pad(coeffs)?;
    Ok(fft_raw(&p))
}

/// The coefficients of the polynomial that takes the values `evals` at the
/// points of their domain.
pub fn interpolate(evals: &Vec<Scalar>) -> (r: Result<Vec<Scalar>, SynthesisError>)
    requires
        all_wf(evals@),
    ensures
        match r {
            Ok(p) => vals(p@) == ifft_of(padded(vals(evals@))) && all_wf(p@) && forall|u: Seq<int>|
                reduced(u) && u.len() == p@.len() && padded(vals(evals@)) == #[trigger] fft_of(u)
                    ==> vals(p@) == u,
            Err(e) => e == SynthesisError::PolynomialDegreeTooLarge && log_domain(evals@.len())
                > MAX_LOG_DOMAIN,
        },
{
    let p = pad(evals)?;
    Ok(ifft_raw(&p))
}

/// The coset evaluations of the polynomial through the given values.
fn to_coset(v: &Vec<Scalar>) -> (r: Result<Vec<Scalar>, SynthesisError>)
    requires
        all_wf(v@),
    ensures
        match r {
            Ok(p) => vals(p@) == coset_fft_of(ifft_of(padded(vals(v@)))) && domain_sized(p@)
                && p@.len() == pow2(log_domain(v@.len())) && log_domain(v@.len()) <= MAX_LOG_DOMAIN,
            Err(e) => e == SynthesisError::PolynomialDegreeTooLarge && log_domain(v@.len())
                > MAX_LOG_DOMAIN,
        },
{
    let p = pad(v)?;
    let q = ifft_raw(&p);
    Ok(coset_fft_raw(&q))
}

/// Computes the coefficients of H = (A * B - C) / Z from the evaluations of
/// A, B and C, one per constraint: `n - 1` coefficients for `n` constraints.
/// No constraint at all is an error.
pub fn compute_h(a: &Vec<Scalar>, b: &Vec<Scalar>, c: &Vec<Scalar>) -> (r: Result<Vec<Scalar>, SynthesisError>)
    requires
        a@.len() == b@.len(),
        b@.len() == c@.len(),
        all_wf(a@),
        all_wf(b@),
        all_wf(c@),
    ensures
        a@.len() == 0 ==> r == Err::<Vec<Scalar>, SynthesisError>(SynthesisError::EmptyConstraintSystem),
        a@.len() > 0 ==> match r {
            Ok(h) => vals(h@) == quotient(vals(a@), vals(b@), vals(c@)) && all_wf(h@) && h@.len()
                == pow2(log_domain(a@.len())) - 1 && log_domain(a@.len()) <= MAX_LOG_DOMAIN,
            Err(e) => e == SynthesisError::PolynomialDegreeTooLarge && log_domain(a@.len())
                > MAX_LOG_DOMAIN,
        },
{
    if a.len() == 0 {
        return Err(SynthesisError::EmptyConstraintSystem);
    }
    let ea = to_coset(a)?;
    let eb = to_coset(b)?;
    let ec = to_coset(c)?;
    let ab = mul_raw(&ea, &eb);
    assert(domain_sized(ab@)) by {
        assert(ab@.len() == pow2(log_domain(a@.len())));
    }
    let diff = sub_raw(&ab, &ec);
    assert(domain_sized(diff@)) by {
        assert(diff@.len() == pow2(log_domain(a@.len())));
    }
    let divided = divide_by_z_raw(&diff);
    assert(domain_sized(divided@)) by {
        assert(divided@.len() == pow2(log_domain(a@.len())));
    }
    let mut h = icoset_fft_raw(&divided);
    proof {
        lemma_pow2_positive(log_domain(a@.len()));
    }
    assert(h@.len() > 0);
    let _ = h.pop();
    assert(vals(h@) =~= icoset_fft_of(vals(divided@)).drop_last());
    Ok(h)
}

} // verus!
