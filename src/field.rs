use vstd::prelude::*;
use fff::{Field, PrimeField};
use paired::bls12_381::{Fr, FrRepr};

verus! {

/// The order of the BLS12-381 scalar field.
pub open spec fn modulus() -> int {
    52435875175126190479447740508185965837690552500527637822603658699938581184513int
}

/// Two to the sixty-fourth: the weight of one limb.
pub open spec fn limb_base() -> int {
    18446744073709551616int
}

/// The limbs of the field order, lowest first.
pub const MODULUS_L0: u64 = 0xffffffff00000001;
pub const MODULUS_L1: u64 = 0x53bda402fffe5bfe;
pub const MODULUS_L2: u64 = 0x3339d80809a1d805;
pub const MODULUS_L3: u64 = 0x73eda753299d7d48;

proof fn lemma_modulus_limbs()
    ensures
        modulus() == MODULUS_L0 as int + limb_base() * (MODULUS_L1 as int + limb_base() * (
        MODULUS_L2 as int + limb_base() * MODULUS_L3 as int)),
{
    assert(modulus() == MODULUS_L0 as int + limb_base() * (MODULUS_L1 as int + limb_base() * (
    MODULUS_L2 as int + limb_base() * MODULUS_L3 as int)));
}

/// Comparing two numbers written with one low digit below `limb_base()`
/// and a high part compares the high parts first.
proof fn lemma_compare_split(x0: int, x: int, y0: int, y: int)
    requires
        0 <= x0 < limb_base(),
        0 <= y0 < limb_base(),
        0 <= x,
        0 <= y,
    ensures
        (x0 + limb_base() * x < y0 + limb_base() * y) == (x < y || (x == y && x0 < y0)),
{
    let b = limb_base();
    if x < y {
        assert(x0 + b * x < y0 + b * y) by (nonlinear_arith)
            requires
                0 <= x0 < b,
                0 <= y0,
                x < y,
        ;
    } else if x > y {
        assert(x0 + b * x >= y0 + b * y) by (nonlinear_arith)
            requires
                0 <= y0 < b,
                0 <= x0,
                x > y,
        ;
    }
}

/// An element of the scalar field, held as its canonical integer in four
/// 64-bit limbs, lowest first.
#[derive(Clone, Copy, Debug, PartialEq, Eq, Structural)]
pub struct Scalar {
    pub l0: u64,
    pub l1: u64,
    pub l2: u64,
    pub l3: u64,
}

impl Scalar {
    /// The integer that the limbs spell out.
    pub open spec fn val(self) -> int {
        self.l0 as int + limb_base() * (self.l1 as int + limb_base() * (
        self.l2 as int + limb_base() * self.l3 as int))
    }

    /// The limbs hold a reduced field element.
    pub open spec fn wf(self) -> bool {
        self.val() < modulus()
    }

    /// The limbs, lowest first.
    pub fn limbs(&self) -> (r: [u64; 4])
        ensures
            r@ == seq![self.l0, self.l1, self.l2, self.l3],
    {
        [self.l0, self.l1, self.l2, self.l3]
    }

    pub fn from_limbs(l: [u64; 4]) -> (r: Scalar)
        ensures
            seq![r.l0, r.l1, r.l2, r.l3] == l@,
    {
        Scalar { l0: l[0], l1: l[1], l2: l[2], l3: l[3] }
    }

    pub fn zero() -> (r: Scalar)
        ensures
            r.wf(),
            r.val() == 0,
    {
        Scalar { l0: 0, l1: 0, l2: 0, l3: 0 }
    }

    pub fn one() -> (r: Scalar)
        ensures
            r.wf(),
            r.val() == 1,
    {
        Scalar { l0: 1, l1: 0, l2: 0, l3: 0 }
    }

    pub fn from_u64(v: u64) -> (r: Scalar)
        ensures
            r.wf(),
            r.val() == v as int,
    {
        Scalar { l0: v, l1: 0, l2: 0, l3: 0 }
    }

    /// Whether the limbs hold a reduced field element.
    pub fn is_reduced(&self) -> (r: bool)
        ensures
            r == self.wf(),
    {
        let r = if self.l3 != MODULUS_L3 {
            self.l3 < MODULUS_L3
        } else if self.l2 != MODULUS_L2 {
            self.l2 < MODULUS_L2
        } else if self.l1 != MODULUS_L1 {
            self.l1 < MODULUS_L1
        } else {
            self.l0 < MODULUS_L0
        };
        proof {
            let b = limb_base();
            lemma_modulus_limbs();
            let x2 = self.l2 as int + b * self.l3 as int;
            let y2 = MODULUS_L2 as int + b * MODULUS_L3 as int;
            let x1 = self.l1 as int + b * x2;
            let y1 = MODULUS_L1 as int + b * y2;
            assert(0 <= x2 && 0 <= y2) by (nonlinear_arith)
                requires
                    x2 == self.l2 as int + b * self.l3 as int,
                    y2 == MODULUS_L2 as int + b * MODULUS_L3 as int,
                    b > 0,
            ;
            assert(0 <= x1 && 0 <= y1) by (nonlinear_arith)
                requires
                    x1 == self.l1 as int + b * x2,
                    y1 == MODULUS_L1 as int + b * y2,
                    b > 0,
                    0 <= x2,
                    0 <= y2,
            ;
            lemma_compare_split(self.l2 as int, self.l3 as int, MODULUS_L2 as int, MODULUS_L3 as int);
            lemma_compare_split(self.l1 as int, x2, MODULUS_L1 as int, y2);
            lemma_compare_split(self.l0 as int, x1, MODULUS_L0 as int, y1);
            if x2 == y2 {
                assert(self.l3 == MODULUS_L3 && self.l2 == MODULUS_L2) by (nonlinear_arith)
                    requires
                        self.l2 as int + b * self.l3 as int == MODULUS_L2 as int + b * MODULUS_L3 as int,
                        0 <= self.l2 < b,
                        0 <= MODULUS_L2 < b,
                ;
            }
            if x1 == y1 {
                assert(x2 == y2 && self.l1 == MODULUS_L1) by (nonlinear_arith)
                    requires
                        self.l1 as int + b * x2 == MODULUS_L1 as int + b * y2,
                        0 <= self.l1 < b,
                        0 <= MODULUS_L1 < b,
                ;
            }
        }
        r
    }

    /// Whether this is the multiplicative identity.
    pub fn is_one(&self) -> (r: bool)
        ensures
            r == (self.val() == 1),
    {
        let r = self.l0 == 1 && self.l1 == 0 && self.l2 == 0 && self.l3
            == 0;
        proof {
            let l0 = self.l0 as int;
            let l1 = self.l1 as int;
            let l2 = self.l2 as int;
            let l3 = self.l3 as int;
            if self.val() == 1 {
                assert(l1 == 0 && l2 == 0 && l3 == 0 && l0 == 1) by (nonlinear_arith)
                    requires
                        l0 + limb_base() * (l1 + limb_base() * (l2 + limb_base() * l3)) == 1,
                        0 <= l0 < limb_base(),
                        0 <= l1,
                        0 <= l2,
                        0 <= l3,
                        limb_base() == 18446744073709551616int,
                ;
            }
        }
        r
    }

    /// Relies on fff's `Field::add_assign` for paired's BLS12-381 `Fr`:
    /// addition modulo the field order.
    #[verifier::external_body]
    pub(crate) fn add(&self, o: &Scalar) -> (r: Scalar)
        requires
            self.wf(),
            o.wf(),
        ensures
            r.wf(),
            r.val() == (self.val() + o.val()) % modulus(),
    {
        let mut x = Fr::from_repr(FrRepr(self.limbs())).unwrap();
        x.add_assign(&Fr::from_repr(FrRepr(o.limbs())).unwrap());
        Scalar::from_limbs(x.into_repr().0)
    }

    /// Relies on fff's `Field::mul_assign` for paired's BLS12-381 `Fr`:
    /// multiplication modulo the field order.
    #[verifier::external_body]
    pub(crate) fn mul(&self, o: &Scalar) -> (r: Scalar)
        requires
            self.wf(),
            o.wf(),
        ensures
            r.wf(),
            r.val() == (self.val() * o.val()) % modulus(),
    {
        let mut x = Fr::from_repr(FrRepr(self.limbs())).unwrap();
        x.mul_assign(&Fr::from_repr(FrRepr(o.limbs())).unwrap());
        Scalar::from_limbs(x.into_repr().0)
    }
}

#[verifier::external_type_specification]
#[verifier::external_body]
pub struct ExFr(Fr);

/// Relies on fff's `PrimeField::from_repr` for paired's BLS12-381 `Fr`: the
/// field elements whose canonical integers the limbs hold, row by row.
#[verifier::external_body]
pub(crate) fn fr_rows(rows: &Vec<Vec<Scalar>>) -> (r: Vec<Vec<Fr>>)
    requires
        forall|i: int| 0 <= i < rows@.len() ==> crate::lc::all_wf(#[trigger] rows@[i]@),
{
    rows.iter().map(|v| v.iter().map(|s| Fr::from_repr(FrRepr(s.limbs())).unwrap()).collect()).collect()
}

/// Relies on fff's `Field::random` for paired's BLS12-381 `Fr`, drawn from
/// the operating system's generator: some field element.
#[verifier::external_body]
pub(crate) fn random_scalar() -> (r: Scalar)
    ensures
        r.wf(),
{
    Scalar::from_limbs(Fr::random(&mut rand::rngs::OsRng).into_repr().0)
}

} // verus!
