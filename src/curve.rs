use vstd::prelude::*;
use bellperson::multicore::Worker;
use bellperson::multiexp::{multiexp, FullDensity};
use futures::Future;
use groupy::{CurveAffine, CurveProjective, EncodedPoint};
use paired::bls12_381::{FrRepr, G1, G1Affine, G1Compressed, G2, G2Affine, G2Compressed};
use std::sync::Arc;
use crate::domain::vals;
use crate::field::Scalar;

verus! {

#[verifier::external_type_specification]
#[verifier::external_body]
pub struct ExG1(G1);

#[verifier::external_type_specification]
#[verifier::external_body]
pub struct ExG1Affine(G1Affine);

#[verifier::external_type_specification]
#[verifier::external_body]
pub struct ExG2(G2);

#[verifier::external_type_specification]
#[verifier::external_body]
pub struct ExG2Affine(G2Affine);

/// Length of a compressed point of the first group.
pub const G1_LEN: usize = 48;

/// Length of a compressed point of the second group.
pub const G2_LEN: usize = 96;

/// The compressed encoding of the point at infinity: the compression and
/// infinity flags in the first byte, every other bit clear.
pub open spec fn identity_encoding(len: nat) -> Seq<u8> {
    Seq::new(len, |i: int| if i == 0 { 0xc0u8 } else { 0u8 })
}

/// The bytes decode to a point of the prime-order subgroup of the first group.
pub uninterp spec fn g1_valid(p: Seq<u8>) -> bool;

/// The bytes decode to a point of the prime-order subgroup of the second group.
pub uninterp spec fn g2_valid(p: Seq<u8>) -> bool;

/// The encoding of the sum of two points of the first group.
pub uninterp spec fn g1_sum(p: Seq<u8>, q: Seq<u8>) -> Seq<u8>;

/// The encoding of a point of the first group times a scalar.
pub uninterp spec fn g1_scaled(p: Seq<u8>, s: int) -> Seq<u8>;

/// The encoding of the sum of each base times its scalar, first group.
pub uninterp spec fn g1_msm(bases: Seq<Seq<u8>>, scalars: Seq<int>) -> Seq<u8>;

/// The encoding of the sum of two points of the second group.
pub uninterp spec fn g2_sum(p: Seq<u8>, q: Seq<u8>) -> Seq<u8>;

/// The encoding of a point of the second group times a scalar.
pub uninterp spec fn g2_scaled(p: Seq<u8>, s: int) -> Seq<u8>;

/// The encoding of the sum of each base times its scalar, second group.
pub uninterp spec fn g2_msm(bases: Seq<Seq<u8>>, scalars: Seq<int>) -> Seq<u8>;

/// The bytes of each point.
pub open spec fn points_view(v: Seq<Vec<u8>>) -> Seq<Seq<u8>> {
    v.map_values(|p: Vec<u8>| p@)
}

/// Every entry is a valid point of the first group other than the point at
/// infinity.
pub open spec fn all_g1(v: Seq<Vec<u8>>) -> bool {
    forall|i: int|
        0 <= i < v.len() ==> (#[trigger] v[i])@.len() == G1_LEN && g1_valid(v[i]@) && v[i]@
            != identity_encoding(G1_LEN as nat)
}

/// Every entry is a valid point of the second group other than the point
/// at infinity.
pub open spec fn all_g2(v: Seq<Vec<u8>>) -> bool {
    forall|i: int|
        0 <= i < v.len() ==> (#[trigger] v[i])@.len() == G2_LEN && g2_valid(v[i]@) && v[i]@
            != identity_encoding(G2_LEN as nat)
}

/// Relies on groupy's `EncodedPoint::into_affine` for paired's
/// `G1Compressed`: whether the bytes decode to a point of the subgroup.
#[verifier::external_body]
pub(crate) fn g1_check(p: &Vec<u8>) -> (r: bool)
    requires
        p@.len() == G1_LEN,
    ensures
        r == g1_valid(p@),
{
    let mut c = G1Compressed::empty();
    c.as_mut().copy_from_slice(p);
    c.into_affine().is_ok()
}

/// Relies on groupy's `EncodedPoint::into_affine` for paired's
/// `G2Compressed`: whether the bytes decode to a point of the subgroup.
#[verifier::external_body]
pub(crate) fn g2_check(p: &Vec<u8>) -> (r: bool)
    requires
        p@.len() == G2_LEN,
    ensures
        r == g2_valid(p@),
{
    let mut c = G2Compressed::empty();
    c.as_mut().copy_from_slice(p);
    c.into_affine().is_ok()
}

/// Relies on groupy's `EncodedPoint::into_affine`: decodes a point that
/// `g1_check` accepted.
#[verifier::external_body]
pub(crate) fn g1_decode(p: &Vec<u8>) -> (r: G1Affine)
    requires
        p@.len() == G1_LEN,
        g1_valid(p@),
{
    let mut c = G1Compressed::empty();
    c.as_mut().copy_from_slice(p);
    c.into_affine().unwrap()
}

/// Relies on groupy's `EncodedPoint::into_affine`: decodes a point that
/// `g2_check` accepted.
#[verifier::external_body]
pub(crate) fn g2_decode(p: &Vec<u8>) -> (r: G2Affine)
    requires
        p@.len() == G2_LEN,
        g2_valid(p@),
{
    let mut c = G2Compressed::empty();
    c.as_mut().copy_from_slice(p);
    c.into_affine().unwrap()
}

/// Relies on groupy's `CurveProjective::into_affine` and
/// `CurveAffine::into_compressed`: the compressed bytes of a point.
#[verifier::external_body]
fn g1_encode(x: &G1) -> (r: Vec<u8>)
    ensures
        r@.len() == G1_LEN,
{
    x.into_affine().into_compressed().as_ref().to_vec()
}

/// Relies on groupy's `CurveProjective::into_affine` and
/// `CurveAffine::into_compressed`: the compressed bytes of a point.
#[verifier::external_body]
fn g2_encode(x: &G2) -> (r: Vec<u8>)
    ensures
        r@.len() == G2_LEN,
{
    x.into_affine().into_compressed().as_ref().to_vec()
}

/// Relies on groupy's `CurveProjective::add_assign_mixed` for paired's `G1`.
#[verifier::external_body]
pub(crate) fn g1_add(p: &Vec<u8>, q: &Vec<u8>) -> (r: Vec<u8>)
    requires
        p@.len() == G1_LEN,
        g1_valid(p@),
        q@.len() == G1_LEN,
        g1_valid(q@),
    ensures
        r@.len() == G1_LEN,
        g1_valid(r@),
        r@ == g1_sum(p@, q@),
{
    let mut x = g1_decode(p).into_projective();
    x.add_assign_mixed(&g1_decode(q));
    g1_encode(&x)
}

/// Relies on groupy's `CurveAffine::mul` for paired's `G1Affine`.
#[verifier::external_body]
pub(crate) fn g1_mul(p: &Vec<u8>, s: &Scalar) -> (r: Vec<u8>)
    requires
        p@.len() == G1_LEN,
        g1_valid(p@),
        s.wf(),
    ensures
        r@.len() == G1_LEN,
        g1_valid(r@),
        r@ == g1_scaled(p@, s.val()),
{
    g1_encode(&g1_decode(p).mul(FrRepr(s.limbs())))
}

/// Relies on groupy's `CurveProjective::add_assign_mixed` for paired's `G2`.
#[verifier::external_body]
pub(crate) fn g2_add(p: &Vec<u8>, q: &Vec<u8>) -> (r: Vec<u8>)
    requires
        p@.len() == G2_LEN,
        g2_valid(p@),
        q@.len() == G2_LEN,
        g2_valid(q@),
    ensures
        r@.len() == G2_LEN,
        g2_valid(r@),
        r@ == g2_sum(p@, q@),
{
    let mut x = g2_decode(p).into_projective();
    x.add_assign_mixed(&g2_decode(q));
    g2_encode(&x)
}

/// Relies on groupy's `CurveAffine::mul` for paired's `G2Affine`.
#[verifier::external_body]
pub(crate) fn g2_mul(p: &Vec<u8>, s: &Scalar) -> (r: Vec<u8>)
    requires
        p@.len() == G2_LEN,
        g2_valid(p@),
        s.wf(),
    ensures
        r@.len() == G2_LEN,
        g2_valid(r@),
        r@ == g2_scaled(p@, s.val()),
{
    g2_encode(&g2_decode(p).mul(FrRepr(s.limbs())))
}

/// Relies on bellperson's `multiexp::multiexp` over paired's `G1Affine`,
/// with every base taking part; its source refuses a base at infinity.
#[verifier::external_body]
pub(crate) fn g1_multiexp(bases: &Vec<Vec<u8>>, scalars: &Vec<Scalar>) -> (r: Vec<u8>)
    requires
        bases@.len() == scalars@.len(),
        all_g1(bases@),
        forall|i: int| 0 <= i < scalars@.len() ==> (#[trigger] scalars@[i]).wf(),
    ensures
        r@.len() == G1_LEN,
        g1_valid(r@),
        r@ == g1_msm(points_view(bases@), vals(scalars@)),
{
    let points: Vec<G1Affine> = bases.iter().map(|b| g1_decode(b)).collect();
    let exps: Vec<FrRepr> = scalars.iter().map(|s| FrRepr(s.limbs())).collect();
    let sum = multiexp::<FullDensity, FullDensity, G1Affine, _>(&Worker::new(), (Arc::new(points), 0),
        FullDensity, Arc::new(exps), &mut None);
    g1_encode(&sum.wait().unwrap())
}

/// Relies on bellperson's `multiexp::multiexp` over paired's `G2Affine`,
/// with every base taking part; its source refuses a base at infinity.
#[verifier::external_body]
pub(crate) fn g2_multiexp(bases: &Vec<Vec<u8>>, scalars: &Vec<Scalar>) -> (r: Vec<u8>)
    requires
        bases@.len() == scalars@.len(),
        all_g2(bases@),
        forall|i: int| 0 <= i < scalars@.len() ==> (#[trigger] scalars@[i]).wf(),
    ensures
        r@.len() == G2_LEN,
        g2_valid(r@),
        r@ == g2_msm(points_view(bases@), vals(scalars@)),
{
    let points: Vec<G2Affine> = bases.iter().map(|b| g2_decode(b)).collect();
    let exps: Vec<FrRepr> = scalars.iter().map(|s| FrRepr(s.limbs())).collect();
    let sum = multiexp::<FullDensity, FullDensity, G2Affine, _>(&Worker::new(), (Arc::new(points), 0),
        FullDensity, Arc::new(exps), &mut None);
    g2_encode(&sum.wait().unwrap())
}

} // verus!
