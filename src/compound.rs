use vstd::prelude::*;
use bellperson::groth16::{
    Proof as BellProof, VerifyingKey as BellVerifyingKey, prepare_batch_verifying_key,
    prepare_verifying_key, verify_proof, verify_proofs_batch,
};
use paired::bls12_381::Bls12;
use rand::rngs::OsRng;
use crate::circuit::Circuit;
use crate::curve::{G1_LEN, G2_LEN, all_g1, g1_decode, g2_decode, identity_encoding};
use crate::error::SynthesisError;
use crate::field::{Scalar, fr_rows};
use fff::PrimeField;
use paired::bls12_381::{Fr, FrRepr};
use crate::lc::all_wf;
use crate::prover::{
    Parameters, Proof, VerifyingKey, batch_succeeds, create_random_proof_batch_priority, g1_ok,
    g2_ok, proves_for_some, proves_with,
};

verus! {

/// Length of one serialized proof: A and C in the first group, B in the second.
pub const PROOF_LEN: usize = 192;

/// Why a compound proof could not be made or checked.
#[derive(Clone, Copy, Debug, PartialEq, Eq, Structural)]
pub enum CompoundError {
    /// Proving one partition's circuit failed.
    Synthesis(SynthesisError),
    /// The partition count was given as zero.
    ZeroPartitions,
    /// The underlying scheme's proof did not pass its own verification.
    SanityCheckFailed,
    /// Counts that must agree do not: proofs per partition, statements per
    /// proof, or the inputs a statement gives.
    InconsistentInputs,
    /// A batch with no proofs.
    EmptyBatch,
    /// Bytes that do not decode to a proof.
    MalformedProof,
    /// A verifying key whose points do not decode, or whose input bases do
    /// not match the inputs.
    MalformedVerifyingKey,
}

/// The parameters of the underlying (non-circuit) scheme that the compound
/// layer needs: the challenges each partition proves.
#[derive(Clone, Copy, Debug, PartialEq, Eq, Structural)]
pub struct VanillaParams {
    pub challenges_per_partition: usize,
}

/// What a verifier demands of the scheme's parameters.
#[derive(Clone, Copy, Debug, PartialEq, Eq, Structural)]
pub struct ChallengeRequirements {
    pub minimum_challenges: usize,
}

#[derive(Clone, Copy, Debug, PartialEq, Eq, Structural)]
pub struct SetupParams {
    pub vanilla_params: VanillaParams,
    pub partitions: Option<usize>,
    /// High priority (ahead of other provers on the accelerator).
    pub priority: bool,
}

#[derive(Clone, Copy, Debug, PartialEq, Eq, Structural)]
pub struct PublicParams {
    pub vanilla_params: VanillaParams,
    pub partitions: Option<usize>,
    pub priority: bool,
}

impl PublicParams {
    /// The partition count is not zero.
    pub open spec fn wf(&self) -> bool {
        self.partitions != Some(0usize)
    }

    /// The number of partitions: one where none was given.
    pub open spec fn count(&self) -> nat {
        match self.partitions {
            Some(k) => k as nat,
            None => 1,
        }
    }
}

/// Derives the public parameters from the setup parameters; a partition
/// count of zero is refused.
pub fn setup(sp: &SetupParams) -> (r: Result<PublicParams, CompoundError>)
    ensures
        sp.partitions == Some(0usize) ==> r == Err::<PublicParams, CompoundError>(
            CompoundError::ZeroPartitions,
        ),
        sp.partitions != Some(0usize) ==> r == Ok::<PublicParams, CompoundError>(
            PublicParams {
                vanilla_params: sp.vanilla_params,
                partitions: sp.partitions,
                priority: sp.priority,
            },
        ),
{
    if sp.partitions == Some(0usize) {
        return Err(CompoundError::ZeroPartitions);
    }
    Ok(PublicParams {
        vanilla_params: sp.vanilla_params,
        partitions: sp.partitions,
        priority: sp.priority,
    })
}

/// The number of partitions: one where none was given.
pub fn partition_count(public_params: &PublicParams) -> (r: usize)
    requires
        public_params.wf(),
    ensures
        r as nat == public_params.count(),
        r > 0,
{
    match public_params.partitions {
        None => 1,
        Some(k) => k,
    }
}

/// The partitions together prove at least the required challenges.
pub open spec fn requirements_met(v: VanillaParams, req: ChallengeRequirements, partitions: nat) -> bool {
    v.challenges_per_partition * partitions >= req.minimum_challenges
}

/// Whether `partitions` partitions of the scheme meet the requirements.
pub fn satisfies_requirements(v: &VanillaParams, req: &ChallengeRequirements, partitions: usize) -> (r: bool)
    ensures
        r == requirements_met(*v, *req, partitions as nat),
{
    match v.challenges_per_partition.checked_mul(partitions) {
        Some(total) => total >= req.minimum_challenges,
        None => true,
    }
}

/// A public statement, as the inputs that each partition's circuit exposes
/// (the constant one excluded).
pub struct PublicInputs {
    pub partitions: Vec<Vec<Scalar>>,
}

impl PublicInputs {
    pub open spec fn view_inputs(&self) -> Seq<Seq<int>> {
        inputs_view(self.partitions@)
    }

    pub open spec fn wf(&self) -> bool {
        forall|k: int| 0 <= k < self.partitions@.len() ==> all_wf(#[trigger] self.partitions@[k]@)
    }
}

/// The proofs of every partition of one statement, with the key that
/// checks them.
pub struct MultiProof {
    pub circuit_proofs: Vec<Proof>,
    pub verifying_key: VerifyingKey,
}

impl Proof {
    /// Each point has its encoded length.
    pub open spec fn sized(&self) -> bool {
        self.a@.len() == G1_LEN && self.b@.len() == G2_LEN && self.c@.len() == G1_LEN
    }

    /// Each point decodes and none is the point at infinity.
    pub open spec fn points_valid(&self) -> bool {
        &&& g1_ok(self.a@) && self.a@ != identity_encoding(G1_LEN as nat)
        &&& g2_ok(self.b@) && self.b@ != identity_encoding(G2_LEN as nat)
        &&& g1_ok(self.c@) && self.c@ != identity_encoding(G1_LEN as nat)
    }

    /// The serialized proof: A, B and C, in that order.
    pub open spec fn bytes(&self) -> Seq<u8> {
        self.a@ + self.b@ + self.c@
    }

    /// The serialized proof.
    pub fn to_bytes(&self) -> (r: Vec<u8>)
        ensures
            r@ == self.bytes(),
    {
        let mut out: Vec<u8> = Vec::new();
        self.write(&mut out);
        assert(out@ =~= self.bytes());
        out
    }

    /// Appends the serialized proof to `out`.
    pub fn write(&self, out: &mut Vec<u8>)
        ensures
            final(out)@ == old(out)@ + self.bytes(),
    {
        append(out, &self.a);
        append(out, &self.b);
        append(out, &self.c);
        assert(final(out)@ =~= old(out)@ + self.bytes());
    }

    /// Reads a proof from `PROOF_LEN` bytes starting at `start`, refusing
    /// points that do not decode and the point at infinity.
    pub fn read(bytes: &Vec<u8>, start: usize) -> (r: Result<Proof, CompoundError>)
        requires
            start + PROOF_LEN <= bytes@.len(),
        ensures
            match r {
                Ok(p) => p.bytes() == bytes@.subrange(start as int, start + PROOF_LEN) && p.sized()
                    && p.points_valid(),
                Err(e) => e == CompoundError::MalformedProof && !(exists|p: Proof|
                    p.sized() && p.points_valid() && #[trigger] p.bytes() == bytes@.subrange(
                        start as int,
                        start + PROOF_LEN,
                    )),
            },
    {
        let n = bytes.len();
        let a = slice(bytes, start, G1_LEN);
        let b = slice(bytes, start + G1_LEN, G2_LEN);
        let c = slice(bytes, start + G1_LEN + G2_LEN, G1_LEN);
        let p = Proof { a, b, c };
        assert(p.bytes() =~= bytes@.subrange(start as int, start + PROOF_LEN));
        if !point_ok_nonzero1(&p.a) || !point_ok_nonzero2(&p.b) || !point_ok_nonzero1(&p.c) {
            proof {
                assert forall|q: Proof| q.sized() && q.points_valid() implies #[trigger] q.bytes()
                    != bytes@.subrange(start as int, start + PROOF_LEN) by {
                    if q.bytes() == bytes@.subrange(start as int, start + PROOF_LEN) {
                        assert(q.a@ =~= q.bytes().subrange(0, 48));
                        assert(p.a@ =~= p.bytes().subrange(0, 48));
                        assert(q.b@ =~= q.bytes().subrange(48, 144));
                        assert(p.b@ =~= p.bytes().subrange(48, 144));
                        assert(q.c@ =~= q.bytes().subrange(144, 192));
                        assert(p.c@ =~= p.bytes().subrange(144, 192));
                    }
                }
            }
            return Err(CompoundError::MalformedProof);
        }
        Ok(p)
    }
}

fn point_ok_nonzero1(p: &Vec<u8>) -> (r: bool)
    requires
        p@.len() == G1_LEN,
    ensures
        r == (g1_ok(p@) && p@ != identity_encoding(G1_LEN as nat)),
{
    crate::curve::g1_check(p) && !crate::prover::is_identity(p, G1_LEN)
}

fn point_ok_nonzero2(p: &Vec<u8>) -> (r: bool)
    requires
        p@.len() == G2_LEN,
    ensures
        r == (g2_ok(p@) && p@ != identity_encoding(G2_LEN as nat)),
{
    crate::curve::g2_check(p) && !crate::prover::is_identity(p, G2_LEN)
}

fn append(out: &mut Vec<u8>, v: &Vec<u8>)
    ensures
        final(out)@ == old(out)@ + v@,
{
    let mut i: usize = 0;
    while i < v.len()
        invariant
            i <= v@.len(),
            out@ == old(out)@ + v@.take(i as int),
        decreases v@.len() - i,
    {
        out.push(v[i]);
        assert(out@ =~= old(out)@ + v@.take(i as int + 1));
        i = i + 1;
    }
    assert(v@.take(i as int) =~= v@);
}

fn slice(bytes: &Vec<u8>, start: usize, len: usize) -> (r: Vec<u8>)
    requires
        start + len <= bytes@.len(),
    ensures
        r@ == bytes@.subrange(start as int, start + len),
{
    let n = bytes.len();
    let mut r: Vec<u8> = Vec::new();
    let mut i: usize = 0;
    while i < len
        invariant
            n == bytes@.len(),
            start + len <= bytes@.len(),
            i <= len,
            r@ == bytes@.subrange(start as int, start + i),
        decreases len - i,
    {
        r.push(bytes[start + i]);
        assert(r@ =~= bytes@.subrange(start as int, start + i + 1));
        i = i + 1;
    }
    r
}

/// The serialization of a sequence of proofs: each one's bytes, with no
/// separator or count.
pub open spec fn proofs_bytes(ps: Seq<Proof>) -> Seq<u8>
    decreases ps.len(),
{
    if ps.len() == 0 {
        Seq::empty()
    } else {
        proofs_bytes(ps.drop_last()) + ps.last().bytes()
    }
}

/// The `t`-th proof-sized chunk of `bytes` is a proof whose points all
/// decode and none is the point at infinity.
pub open spec fn chunk_ok(bytes: Seq<u8>, t: int) -> bool {
    exists|p: Proof|
        p.sized() && p.points_valid() && #[trigger] p.bytes() == bytes.subrange(
            t * PROOF_LEN,
            t * PROOF_LEN + PROOF_LEN,
        )
}

/// The bytes are exactly `k` proofs, each of which decodes.
pub open spec fn decodes(k: nat, bytes: Seq<u8>) -> bool {
    &&& bytes.len() == k * PROOF_LEN
    &&& forall|t: int| 0 <= t < k ==> #[trigger] chunk_ok(bytes, t)
}

/// Every proof has its encoded size.
pub open spec fn all_sized(ps: Seq<Proof>) -> bool {
    forall|i: int| 0 <= i < ps.len() ==> (#[trigger] ps[i]).sized()
}

impl MultiProof {
    /// The serialized proofs of all partitions, in order.
    pub fn to_bytes(&self) -> (r: Vec<u8>)
        ensures
            r@ == proofs_bytes(self.circuit_proofs@),
    {
        let mut out: Vec<u8> = Vec::new();
        let mut i: usize = 0;
        while i < self.circuit_proofs.len()
            invariant
                i <= self.circuit_proofs@.len(),
                out@ == proofs_bytes(self.circuit_proofs@.take(i as int)),
            decreases self.circuit_proofs@.len() - i,
        {
            self.circuit_proofs[i].write(&mut out);
            assert(self.circuit_proofs@.take(i as int + 1).drop_last() =~= self.circuit_proofs@.take(
                i as int,
            ));
            i = i + 1;
        }
        assert(self.circuit_proofs@.take(i as int) =~= self.circuit_proofs@);
        out
    }

    /// Reads the proofs of `partitions` partitions, which must fill `bytes`
    /// exactly.
    pub fn from_bytes(partitions: usize, bytes: &Vec<u8>, verifying_key: VerifyingKey) -> (r: Result<
        MultiProof,
        CompoundError,
    >)
        ensures
            bytes@.len() != partitions * PROOF_LEN ==> r == Err::<MultiProof, CompoundError>(
                CompoundError::MalformedProof,
            ),
            r matches Ok(m) ==> m.circuit_proofs@.len() == partitions && proofs_bytes(
                m.circuit_proofs@,
            ) == bytes@ && all_sized(m.circuit_proofs@) && m.verifying_key == verifying_key,
            r matches Err(e) ==> e == CompoundError::MalformedProof,
            r is Ok <==> decodes(partitions as nat, bytes@),
    {
        if bytes.len() % PROOF_LEN != 0 || bytes.len() / PROOF_LEN != partitions {
            proof {
                if bytes@.len() == partitions * PROOF_LEN {
                    vstd::arithmetic::div_mod::lemma_fundamental_div_mod_converse(
                        bytes@.len() as int,
                        PROOF_LEN as int,
                        partitions as int,
                        0,
                    );
                }
            }
            return Err(CompoundError::MalformedProof);
        }
        proof {
            vstd::arithmetic::div_mod::lemma_fundamental_div_mod(bytes@.len() as int, PROOF_LEN as int);
        }
        let n = bytes.len();
        let mut proofs: Vec<Proof> = Vec::new();
        let mut i: usize = 0;
        while i < partitions
            invariant
                n == bytes@.len(),
                bytes@.len() == partitions * PROOF_LEN,
                i <= partitions,
                proofs@.len() == i,
                all_sized(proofs@),
                proofs_bytes(proofs@) == bytes@.subrange(0, i * PROOF_LEN),
                forall|t: int| 0 <= t < i ==> #[trigger] chunk_ok(bytes@, t),
            decreases partitions - i,
        {
            assert((i + 1) * PROOF_LEN <= partitions * PROOF_LEN) by (nonlinear_arith)
                requires
                    i < partitions,
            ;
            assert(i * PROOF_LEN + PROOF_LEN == (i + 1) * PROOF_LEN) by (nonlinear_arith);
            let p = match Proof::read(bytes, i * PROOF_LEN) {
                Ok(p) => p,
                Err(e) => {
                    assert(!chunk_ok(bytes@, i as int));
                    return Err(e);
                },
            };
            assert(chunk_ok(bytes@, i as int));
            let ghost prev = proofs@;
            proofs.push(p);
            proof {
                assert(proofs@.drop_last() =~= prev);
                assert(bytes@.subrange(0, (i + 1) * PROOF_LEN) =~= bytes@.subrange(0, i * PROOF_LEN)
                    + bytes@.subrange(i * PROOF_LEN, i * PROOF_LEN + PROOF_LEN));
            }
            i = i + 1;
        }
        assert(bytes@.subrange(0, partitions * PROOF_LEN) =~= bytes@);
        Ok(MultiProof { circuit_proofs: proofs, verifying_key })
    }
}

/// Serialization writes every partition's proof at its fixed size: the
/// bytes of `k` sized proofs number `k` times the size of one.
pub proof fn lemma_multiproof_size(ps: Seq<Proof>)
    requires
        all_sized(ps),
    ensures
        proofs_bytes(ps).len() == ps.len() * PROOF_LEN,
    decreases ps.len(),
{
    if ps.len() > 0 {
        assert forall|i: int| 0 <= i < ps.len() - 1 implies (#[trigger] ps.drop_last()[i]).sized() by {
            assert(ps.drop_last()[i] == ps[i]);
        }
        lemma_multiproof_size(ps.drop_last());
        assert(ps[ps.len() - 1].sized());
        assert((ps.len() - 1) * PROOF_LEN + PROOF_LEN == ps.len() * PROOF_LEN) by (nonlinear_arith);
    }
}

/// The bytes of each point of a verifying key.
pub open spec fn key_view(vk: VerifyingKey) -> (Seq<u8>, Seq<u8>, Seq<u8>, Seq<u8>, Seq<u8>, Seq<u8>, Seq<Seq<u8>>) {
    (vk.alpha_g1@, vk.beta_g1@, vk.beta_g2@, vk.gamma_g2@, vk.delta_g1@, vk.delta_g2@, crate::curve::points_view(vk.ic@))
}

fn copy_points(v: &Vec<Vec<u8>>) -> (r: Vec<Vec<u8>>)
    ensures
        r@.len() == v@.len(),
        forall|i: int| 0 <= i < v@.len() ==> (#[trigger] r@[i])@ == v@[i]@,
        crate::curve::points_view(r@) == crate::curve::points_view(v@),
{
    let mut r: Vec<Vec<u8>> = Vec::new();
    let mut i: usize = 0;
    while i < v.len()
        invariant
            i <= v@.len(),
            r@.len() == i,
            forall|j: int| 0 <= j < i ==> (#[trigger] r@[j])@ == v@[j]@,
        decreases v@.len() - i,
    {
        r.push(copy_bytes(&v[i]));
        i = i + 1;
    }
    assert(crate::curve::points_view(r@) =~= crate::curve::points_view(v@));
    r
}

fn copy_bytes(v: &Vec<u8>) -> (r: Vec<u8>)
    ensures
        r@ == v@,
{
    let mut r: Vec<u8> = Vec::new();
    append(&mut r, v);
    assert(r@ =~= v@);
    r
}

pub(crate) fn copy_key(vk: &VerifyingKey) -> (r: VerifyingKey)
    ensures
        key_view(r) == key_view(*vk),
        r.points_valid() == vk.points_valid(),
{
    let r = VerifyingKey {
        alpha_g1: copy_bytes(&vk.alpha_g1),
        beta_g1: copy_bytes(&vk.beta_g1),
        beta_g2: copy_bytes(&vk.beta_g2),
        gamma_g2: copy_bytes(&vk.gamma_g2),
        delta_g1: copy_bytes(&vk.delta_g1),
        delta_g2: copy_bytes(&vk.delta_g2),
        ic: copy_points(&vk.ic),
    };
    assert(all_g1(r.ic@) == all_g1(vk.ic@)) by {
        if all_g1(vk.ic@) {
            assert forall|i: int| 0 <= i < r.ic@.len() implies (#[trigger] r.ic@[i])@.len() == G1_LEN
                && crate::curve::g1_valid(r.ic@[i]@) && r.ic@[i]@ != identity_encoding(G1_LEN as nat) by {
                assert(r.ic@[i]@ == vk.ic@[i]@);
            }
        }
        if all_g1(r.ic@) {
            assert forall|i: int| 0 <= i < vk.ic@.len() implies (#[trigger] vk.ic@[i])@.len() == G1_LEN
                && crate::curve::g1_valid(vk.ic@[i]@) && vk.ic@[i]@ != identity_encoding(G1_LEN as nat) by {
                assert(r.ic@[i]@ == vk.ic@[i]@);
            }
        }
    }
    r
}

/// Proves a statement: with the underlying scheme's proofs of all
/// partitions made and checked by the caller (`vanilla_verified` says
/// whether they passed), proves one circuit per partition in a batch and
/// wraps the proofs with the verifying key.
pub fn prove(
    pub_params: &PublicParams,
    vanilla_verified: bool,
    circuits: Vec<Circuit>,
    groth_params: &Parameters,
) -> (r: Result<MultiProof, CompoundError>)
    requires
        pub_params.wf(),
        forall|i: int| 0 <= i < circuits@.len() ==> (#[trigger] circuits@[i]).inputs@.len() + 1 < usize::MAX,
    ensures
        !vanilla_verified ==> r == Err::<MultiProof, CompoundError>(CompoundError::SanityCheckFailed),
        vanilla_verified && circuits@.len() != pub_params.count() ==> r == Err::<
            MultiProof,
            CompoundError,
        >(CompoundError::InconsistentInputs),
        vanilla_verified && circuits@.len() == pub_params.count() && groth_params.vk.delta_is_identity()
            ==> r == Err::<MultiProof, CompoundError>(
            CompoundError::Synthesis(SynthesisError::UnexpectedIdentity),
        ),
        r is Ok <==> vanilla_verified && circuits@.len() == pub_params.count() && batch_succeeds(
            *groth_params,
            circuits@,
        ),
        r matches Ok(m) ==> proves_for_some(*groth_params, circuits@, m.circuit_proofs@),
        r matches Ok(m) ==> all_sized(m.circuit_proofs@) && key_view(m.verifying_key) == key_view(
            groth_params.vk,
        ),
{
    let partitions = partition_count(pub_params);
    if !vanilla_verified {
        return Err(CompoundError::SanityCheckFailed);
    }
    if circuits.len() != partitions {
        return Err(CompoundError::InconsistentInputs);
    }
    let ghost cs = circuits@;
    let proofs = match create_random_proof_batch_priority(circuits, groth_params, pub_params.priority) {
        Ok(p) => p,
        Err(e) => return Err(CompoundError::Synthesis(e)),
    };
    let ghost pv = proofs@;
    proof {
        let (rs, ss) = choose|rs: Seq<int>, ss: Seq<int>| proves_with(*groth_params, cs, pv, rs, ss);
        assert(proves_with(*groth_params, cs, pv, rs, ss));
        assert forall|i: int| 0 <= i < pv.len() implies (#[trigger] pv[i]).sized() by {}
    }
    let m = MultiProof { circuit_proofs: proofs, verifying_key: copy_key(&groth_params.vk) };
    assert(m.circuit_proofs@ == pv);
    assert(all_sized(m.circuit_proofs@));
    assert(key_view(m.verifying_key) == key_view(groth_params.vk));
    Ok(m)
}

/// Every proof of the multiproof has its size, decodes, and has no point
/// at infinity.
pub open spec fn proofs_ok(mp: MultiProof) -> bool {
    forall|i: int|
        0 <= i < mp.circuit_proofs@.len() ==> (#[trigger] mp.circuit_proofs@[i]).sized()
            && mp.circuit_proofs@[i].points_valid()
}

/// The key decodes and has one base per input of every partition, and one
/// for the constant one.
pub open spec fn key_ok(vk: VerifyingKey, ins: Seq<PublicInputs>) -> bool {
    &&& vk.points_valid()
    &&& forall|s: int, k: int|
        0 <= s < ins.len() && 0 <= k < ins[s].partitions@.len() ==> (#[trigger] ins[s].partitions@[k])@.len()
            + 1 == vk.ic@.len()
}

/// The bytes of each proof.
pub open spec fn proofs_view(ps: Seq<Proof>) -> Seq<(Seq<u8>, Seq<u8>, Seq<u8>)> {
    ps.map_values(|p: Proof| p@)
}

/// The proofs of all multiproofs, in order.
pub open spec fn flat_proofs(mps: Seq<MultiProof>) -> Seq<(Seq<u8>, Seq<u8>, Seq<u8>)>
    decreases mps.len(),
{
    if mps.len() == 0 {
        Seq::empty()
    } else {
        flat_proofs(mps.drop_last()) + proofs_view(mps.last().circuit_proofs@)
    }
}

/// The inputs of every partition of all statements, in order.
pub open spec fn flat_inputs(ins: Seq<PublicInputs>) -> Seq<Seq<int>>
    decreases ins.len(),
{
    if ins.len() == 0 {
        Seq::empty()
    } else {
        flat_inputs(ins.drop_last()) + ins.last().view_inputs()
    }
}

/// What checking one statement comes to: an error; `None` where the
/// requirements are not met, so that the answer is false with no check; or
/// the proofs and inputs that one batched pairing check takes under the
/// multiproof's key.
pub open spec fn verify_plan(
    pp: PublicParams,
    pi: PublicInputs,
    mp: MultiProof,
    req: ChallengeRequirements,
) -> Result<Option<(Seq<(Seq<u8>, Seq<u8>, Seq<u8>)>, Seq<Seq<int>>)>, CompoundError> {
    let k = pp.count();
    if mp.circuit_proofs@.len() != k {
        Err(CompoundError::InconsistentInputs)
    } else if !requirements_met(pp.vanilla_params, req, k) {
        Ok(None)
    } else if pi.partitions@.len() != k {
        Err(CompoundError::InconsistentInputs)
    } else if !proofs_ok(mp) {
        Err(CompoundError::MalformedProof)
    } else if !key_ok(mp.verifying_key, seq![pi]) {
        Err(CompoundError::MalformedVerifyingKey)
    } else {
        Ok(Some((proofs_view(mp.circuit_proofs@), pi.view_inputs())))
    }
}

/// What checking many statements at once comes to, as for one statement,
/// under the first multiproof's key.
pub open spec fn batch_plan(
    pp: PublicParams,
    ins: Seq<PublicInputs>,
    mps: Seq<MultiProof>,
    req: ChallengeRequirements,
) -> Result<Option<(Seq<(Seq<u8>, Seq<u8>, Seq<u8>)>, Seq<Seq<int>>)>, CompoundError> {
    let k = pp.count();
    if ins.len() != mps.len() {
        Err(CompoundError::InconsistentInputs)
    } else if exists|j: int| 0 <= j < mps.len() && (#[trigger] mps[j]).circuit_proofs@.len() != k {
        Err(CompoundError::InconsistentInputs)
    } else if ins.len() == 0 {
        Err(CompoundError::EmptyBatch)
    } else if !requirements_met(pp.vanilla_params, req, k) {
        Ok(None)
    } else if exists|j: int| 0 <= j < ins.len() && (#[trigger] ins[j]).partitions@.len() != k {
        Err(CompoundError::InconsistentInputs)
    } else if exists|j: int| 0 <= j < mps.len() && !proofs_ok(#[trigger] mps[j]) {
        Err(CompoundError::MalformedProof)
    } else if !key_ok(mps[0].verifying_key, ins) {
        Err(CompoundError::MalformedVerifyingKey)
    } else {
        Ok(Some((flat_proofs(mps), flat_inputs(ins))))
    }
}

/// Checking a batch of one statement comes to what checking that statement
/// alone does: the same error, the same answer without a check, or the same
/// proofs and inputs under the same key. `batch_request` and
/// `verify_request` build exactly these, and `batch_verify` and `verify`
/// hand them to the same pairing check.
pub proof fn lemma_singleton_batch(
    pp: PublicParams,
    pi: PublicInputs,
    mp: MultiProof,
    req: ChallengeRequirements,
)
    ensures
        batch_plan(pp, seq![pi], seq![mp], req) == verify_plan(pp, pi, mp, req),
{
    let ins = seq![pi];
    let mps = seq![mp];
    assert(ins[0] == pi);
    assert(mps[0] == mp);
    assert(mps.drop_last() =~= Seq::<MultiProof>::empty());
    assert(ins.drop_last() =~= Seq::<PublicInputs>::empty());
    assert(flat_proofs(mps) =~= proofs_view(mp.circuit_proofs@)) by {
        reveal_with_fuel(flat_proofs, 2);
    }
    assert(flat_inputs(ins) =~= pi.view_inputs()) by {
        reveal_with_fuel(flat_inputs, 2);
    }
}

/// Bellperson's single-proof Groth16 check (`verify_proof` on the prepared
/// key) accepts the proof for these inputs under the key given by its points.
pub uninterp spec fn groth16_accepts(
    vk: (Seq<u8>, Seq<u8>, Seq<u8>, Seq<u8>, Seq<u8>, Seq<u8>, Seq<Seq<u8>>),
    p: (Seq<u8>, Seq<u8>, Seq<u8>),
    ins: Seq<int>,
) -> bool;

/// Every proof is accepted for its inputs under the key.
pub open spec fn all_accepted(
    vk: VerifyingKey,
    ps: Seq<(Seq<u8>, Seq<u8>, Seq<u8>)>,
    ins: Seq<Seq<int>>,
) -> bool {
    forall|i: int| 0 <= i < ps.len() ==> groth16_accepts(key_view(vk), #[trigger] ps[i], ins[i])
}

/// Relies on bellperson's `prepare_batch_verifying_key` and
/// `verify_proofs_batch` over paired's BLS12-381: one randomized pairing
/// check of all the proofs, each against its inputs. The coefficients that
/// combine the proofs come from the operating system's generator, so only
/// what holds for every draw is stated: where every proof passes the
/// single-proof check, the combined check passes too.
#[verifier::external_body]
fn batch_check(vk: &VerifyingKey, proofs: &Vec<Proof>, inputs: &Vec<Vec<Scalar>>) -> (r: bool)
    requires
        vk.points_valid(),
        proofs@.len() > 0,
        proofs@.len() == inputs@.len(),
        forall|i: int| 0 <= i < proofs@.len() ==> (#[trigger] proofs@[i]).sized() && proofs@[i].points_valid(),
        forall|i: int| 0 <= i < inputs@.len() ==> (#[trigger] inputs@[i])@.len() + 1 == vk.ic@.len()
            && all_wf(inputs@[i]@),
    ensures
        (forall|i: int|
            0 <= i < proofs@.len() ==> groth16_accepts(
                key_view(*vk),
                (#[trigger] proofs@[i])@,
                crate::domain::vals(inputs@[i]@),
            )) ==> r,
{
    let key = BellVerifyingKey::<Bls12> { alpha_g1: g1_decode(&vk.alpha_g1), beta_g1: g1_decode(&vk.beta_g1),
        beta_g2: g2_decode(&vk.beta_g2), gamma_g2: g2_decode(&vk.gamma_g2), delta_g1: g1_decode(&vk.delta_g1),
        delta_g2: g2_decode(&vk.delta_g2), ic: vk.ic.iter().map(g1_decode).collect() };
    let ps: Vec<_> = proofs.iter().map(|p| BellProof { a: g1_decode(&p.a), b: g2_decode(&p.b), c: g1_decode(&p.c) }).collect();
    verify_proofs_batch(&prepare_batch_verifying_key(&key), &mut OsRng, &ps.iter().collect::<Vec<_>>(), &fr_rows(inputs)).unwrap()
}

/// Relies on bellperson's `prepare_verifying_key` and `verify_proof` over
/// paired's BLS12-381: the single-proof Groth16 check of one proof against
/// its inputs, deterministic.
#[verifier::external_body]
fn proof_accepted(vk: &VerifyingKey, p: &Proof, inputs: &Vec<Scalar>) -> (r: bool)
    requires
        vk.points_valid(),
        p.sized(),
        p.points_valid(),
        inputs@.len() + 1 == vk.ic@.len(),
        all_wf(inputs@),
    ensures
        r == groth16_accepts(key_view(*vk), p@, crate::domain::vals(inputs@)),
{
    let key = BellVerifyingKey::<Bls12> { alpha_g1: g1_decode(&vk.alpha_g1), beta_g1: g1_decode(&vk.beta_g1),
        beta_g2: g2_decode(&vk.beta_g2), gamma_g2: g2_decode(&vk.gamma_g2), delta_g1: g1_decode(&vk.delta_g1),
        delta_g2: g2_decode(&vk.delta_g2), ic: vk.ic.iter().map(g1_decode).collect() };
    let proof = BellProof { a: g1_decode(&p.a), b: g2_decode(&p.b), c: g1_decode(&p.c) };
    let ins: Vec<Fr> = inputs.iter().map(|s| Fr::from_repr(FrRepr(s.limbs())).unwrap()).collect();
    verify_proof(&prepare_verifying_key(&key), &proof, &ins).unwrap()
}

fn proofs_valid(ps: &Vec<Proof>) -> (r: bool)
    ensures
        r == forall|i: int| 0 <= i < ps@.len() ==> (#[trigger] ps@[i]).sized() && ps@[i].points_valid(),
{
    let mut i: usize = 0;
    while i < ps.len()
        invariant
            i <= ps@.len(),
            forall|j: int| 0 <= j < i ==> (#[trigger] ps@[j]).sized() && ps@[j].points_valid(),
        decreases ps@.len() - i,
    {
        let p = &ps[i];
        if p.a.len() != G1_LEN || p.b.len() != G2_LEN || p.c.len() != G1_LEN {
            return false;
        }
        if !point_ok_nonzero1(&p.a) || !point_ok_nonzero2(&p.b) || !point_ok_nonzero1(&p.c) {
            return false;
        }
        i = i + 1;
    }
    true
}

/// Each statement's inputs match the key: one base per input, and one for
/// the constant one.
fn inputs_match(ins: &Vec<PublicInputs>, n_ic: usize) -> (r: bool)
    ensures
        r == forall|s: int, k: int|
            0 <= s < ins@.len() && 0 <= k < ins@[s].partitions@.len() ==> (#[trigger] ins@[s].partitions@[k])@.len()
                + 1 == n_ic,
{
    let mut s: usize = 0;
    while s < ins.len()
        invariant
            s <= ins@.len(),
            forall|t: int, k: int|
                0 <= t < s && 0 <= k < ins@[t].partitions@.len() ==> (#[trigger] ins@[t].partitions@[k])@.len()
                    + 1 == n_ic,
        decreases ins@.len() - s,
    {
        let mut k: usize = 0;
        while k < ins[s].partitions.len()
            invariant
                s < ins@.len(),
                k <= ins@[s as int].partitions@.len(),
                forall|t: int, q: int|
                    0 <= t < s && 0 <= q < ins@[t].partitions@.len() ==> (#[trigger] ins@[t].partitions@[q])@.len()
                        + 1 == n_ic,
                forall|q: int| 0 <= q < k ==> (#[trigger] ins@[s as int].partitions@[q])@.len() + 1 == n_ic,
            decreases ins@[s as int].partitions@.len() - k,
        {
            if ins[s].partitions[k].len() >= n_ic || ins[s].partitions[k].len() + 1 != n_ic {
                return false;
            }
            k = k + 1;
        }
        s = s + 1;
    }
    true
}

fn copy_proof(p: &Proof) -> (r: Proof)
    ensures
        r@ == p@,
{
    Proof { a: copy_bytes(&p.a), b: copy_bytes(&p.b), c: copy_bytes(&p.c) }
}

fn copy_scalars(v: &Vec<Scalar>) -> (r: Vec<Scalar>)
    ensures
        r@ == v@,
{
    let mut r: Vec<Scalar> = Vec::new();
    let mut i: usize = 0;
    while i < v.len()
        invariant
            i <= v@.len(),
            r@ == v@.take(i as int),
        decreases v@.len() - i,
    {
        r.push(v[i]);
        assert(r@ =~= v@.take(i as int + 1));
        i = i + 1;
    }
    assert(v@.take(i as int) =~= v@);
    r
}

/// The integers of each partition's inputs.
pub open spec fn inputs_view(v: Seq<Vec<Scalar>>) -> Seq<Seq<int>> {
    v.map_values(|x: Vec<Scalar>| crate::domain::vals(x@))
}

/// The proofs and the inputs of every partition that one batched pairing
/// check takes.
pub struct CheckRequest {
    pub proofs: Vec<Proof>,
    pub inputs: Vec<Vec<Scalar>>,
}

impl CheckRequest {
    pub open spec fn view_parts(&self) -> (Seq<(Seq<u8>, Seq<u8>, Seq<u8>)>, Seq<Seq<int>>) {
        (proofs_view(self.proofs@), inputs_view(self.inputs@))
    }

    /// What the check needs of the request under the key `vk`.
    pub open spec fn fits(&self, vk: VerifyingKey) -> bool {
        &&& vk.points_valid()
        &&& self.proofs@.len() == self.inputs@.len()
        &&& forall|i: int|
            0 <= i < self.proofs@.len() ==> (#[trigger] self.proofs@[i]).sized()
                && self.proofs@[i].points_valid()
        &&& forall|i: int|
            0 <= i < self.inputs@.len() ==> (#[trigger] self.inputs@[i])@.len() + 1 == vk.ic@.len()
                && all_wf(self.inputs@[i]@)
    }
}

/// Builds what checking one statement comes to, as `verify_plan` states it.
pub fn verify_request(
    public_params: &PublicParams,
    public_inputs: &PublicInputs,
    multi_proof: &MultiProof,
    requirements: &ChallengeRequirements,
) -> (r: Result<Option<CheckRequest>, CompoundError>)
    requires
        public_params.wf(),
        public_inputs.wf(),
    ensures
        match verify_plan(*public_params, *public_inputs, *multi_proof, *requirements) {
            Err(e) => r == Err::<Option<CheckRequest>, CompoundError>(e),
            Ok(None) => r == Ok::<Option<CheckRequest>, CompoundError>(None),
            Ok(Some(parts)) => r matches Ok(Some(c)) && c.view_parts() == parts && c.fits(
                multi_proof.verifying_key,
            ) && c.proofs@.len() > 0,
        },
{
    let k = partition_count(public_params);
    if multi_proof.circuit_proofs.len() != k {
        return Err(CompoundError::InconsistentInputs);
    }
    if !satisfies_requirements(&public_params.vanilla_params, requirements, k) {
        return Ok(None);
    }
    if public_inputs.partitions.len() != k {
        return Err(CompoundError::InconsistentInputs);
    }
    if !proofs_valid(&multi_proof.circuit_proofs) {
        return Err(CompoundError::MalformedProof);
    }
    let vk = &multi_proof.verifying_key;
    let mut ok = vk.check();
    let mut i: usize = 0;
    while ok && i < k
        invariant
            public_inputs.partitions@.len() == k,
            i <= k,
            ok == (vk.points_valid() && forall|q: int| 0 <= q < i ==> (#[trigger] public_inputs.partitions@[q])@.len() + 1
                == vk.ic@.len()),
        decreases k - i,
    {
        if public_inputs.partitions[i].len() >= vk.ic.len() || public_inputs.partitions[i].len() + 1
            != vk.ic.len() {
            ok = false;
        }
        i = i + 1;
    }
    proof {
        let ins = seq![*public_inputs];
        assert(ins[0] == *public_inputs);
        if ok {
            assert(key_ok(*vk, ins));
        } else {
            assert(!key_ok(*vk, ins)) by {
                if vk.points_valid() {
                    let q = choose|q: int| 0 <= q < i && !((#[trigger] public_inputs.partitions@[q])@.len() + 1
                        == vk.ic@.len());
                    assert(ins[0].partitions@[q] == public_inputs.partitions@[q]);
                }
            }
        }
    }
    if !ok {
        return Err(CompoundError::MalformedVerifyingKey);
    }
    let mut proofs: Vec<Proof> = Vec::new();
    let mut inputs: Vec<Vec<Scalar>> = Vec::new();
    let mut q: usize = 0;
    while q < k
        invariant
            q <= k,
            multi_proof.circuit_proofs@.len() == k,
            public_inputs.partitions@.len() == k,
            public_inputs.wf(),
            proofs_ok(*multi_proof),
            key_ok(*vk, seq![*public_inputs]),
            proofs_view(proofs@) == proofs_view(multi_proof.circuit_proofs@.take(q as int)),
            inputs_view(inputs@) == inputs_view(public_inputs.partitions@.take(q as int)),
            proofs@.len() == q,
            inputs@.len() == q,
            forall|t: int| 0 <= t < q ==> (#[trigger] proofs@[t])@ == multi_proof.circuit_proofs@[t]@,
            forall|t: int| 0 <= t < q ==> (#[trigger] inputs@[t])@ == public_inputs.partitions@[t]@,
        decreases k - q,
    {
        proofs.push(copy_proof(&multi_proof.circuit_proofs[q]));
        inputs.push(copy_scalars(&public_inputs.partitions[q]));
        assert(proofs_view(proofs@) =~= proofs_view(multi_proof.circuit_proofs@.take(q as int + 1)));
        assert(inputs_view(inputs@) =~= inputs_view(public_inputs.partitions@.take(q as int + 1)));
        q = q + 1;
    }
    assert(multi_proof.circuit_proofs@.take(k as int) =~= multi_proof.circuit_proofs@);
    assert(public_inputs.partitions@.take(k as int) =~= public_inputs.partitions@);
    let c = CheckRequest { proofs, inputs };
    proof {
        assert(seq![*public_inputs][0] == *public_inputs);
        assert forall|t: int| 0 <= t < c.proofs@.len() implies (#[trigger] c.proofs@[t]).sized()
            && c.proofs@[t].points_valid() by {
            assert(c.proofs@[t]@ == multi_proof.circuit_proofs@[t]@);
            assert(multi_proof.circuit_proofs@[t].sized());
        }
        assert forall|t: int| 0 <= t < c.inputs@.len() implies (#[trigger] c.inputs@[t])@.len() + 1
            == vk.ic@.len() && all_wf(c.inputs@[t]@) by {
            assert(c.inputs@[t]@ == public_inputs.partitions@[t]@);
            assert(all_wf(public_inputs.partitions@[t]@));
            assert(seq![*public_inputs][0].partitions@[t] == public_inputs.partitions@[t]);
        }
        assert(public_inputs.view_inputs() == inputs_view(public_inputs.partitions@));
    }
    Ok(Some(c))
}

/// Checks the proofs of every partition of one statement in one batched
/// pairing check. A multiproof with the wrong number of proofs is an error;
/// parameters that do not meet the requirements give `false` without any
/// check.
pub fn verify(
    public_params: &PublicParams,
    public_inputs: &PublicInputs,
    multi_proof: &MultiProof,
    requirements: &ChallengeRequirements,
) -> (r: Result<bool, CompoundError>)
    requires
        public_params.wf(),
        public_inputs.wf(),
    ensures
        match verify_plan(*public_params, *public_inputs, *multi_proof, *requirements) {
            Err(e) => r == Err::<bool, CompoundError>(e),
            Ok(None) => r == Ok::<bool, CompoundError>(false),
            Ok(Some((ps, ins))) => r is Ok && (all_accepted(multi_proof.verifying_key, ps, ins) ==> r
                == Ok::<bool, CompoundError>(true)),
        },
{
    match verify_request(public_params, public_inputs, multi_proof, requirements)? {
        None => Ok(false),
        Some(c) => Ok(run_check(&multi_proof.verifying_key, &c)),
    }
}

/// Checks the proofs of every partition of one statement one by one, with
/// the deterministic single-proof check: the answer is `true` exactly when
/// every proof is accepted for its partition's inputs. Errors and unmet
/// requirements are as for `verify`.
pub fn verify_each(
    public_params: &PublicParams,
    public_inputs: &PublicInputs,
    multi_proof: &MultiProof,
    requirements: &ChallengeRequirements,
) -> (r: Result<bool, CompoundError>)
    requires
        public_params.wf(),
        public_inputs.wf(),
    ensures
        match verify_plan(*public_params, *public_inputs, *multi_proof, *requirements) {
            Err(e) => r == Err::<bool, CompoundError>(e),
            Ok(None) => r == Ok::<bool, CompoundError>(false),
            Ok(Some((ps, ins))) => r == Ok::<bool, CompoundError>(
                all_accepted(multi_proof.verifying_key, ps, ins),
            ),
        },
{
    let c = match verify_request(public_params, public_inputs, multi_proof, requirements)? {
        None => return Ok(false),
        Some(c) => c,
    };
    let vk = &multi_proof.verifying_key;
    let ghost ps = c.view_parts().0;
    let ghost ins = c.view_parts().1;
    assert(verify_plan(*public_params, *public_inputs, *multi_proof, *requirements) == Ok::<
        Option<(Seq<(Seq<u8>, Seq<u8>, Seq<u8>)>, Seq<Seq<int>>)>,
        CompoundError,
    >(Some((ps, ins))));
    let mut i: usize = 0;
    while i < c.proofs.len()
        invariant
            *vk == multi_proof.verifying_key,
            c.fits(*vk),
            verify_plan(*public_params, *public_inputs, *multi_proof, *requirements) == Ok::<
                Option<(Seq<(Seq<u8>, Seq<u8>, Seq<u8>)>, Seq<Seq<int>>)>,
                CompoundError,
            >(Some((ps, ins))),
            ps == c.view_parts().0,
            ins == c.view_parts().1,
            i <= c.proofs@.len(),
            forall|t: int| 0 <= t < i ==> groth16_accepts(key_view(*vk), #[trigger] ps[t], ins[t]),
        decreases c.proofs@.len() - i,
    {
        assert(c.proofs@[i as int].sized() && c.proofs@[i as int].points_valid());
        assert(c.inputs@[i as int]@.len() + 1 == vk.ic@.len() && all_wf(c.inputs@[i as int]@));
        let ok = proof_accepted(vk, &c.proofs[i], &c.inputs[i]);
        assert(ps[i as int] == c.proofs@[i as int]@);
        assert(ins[i as int] == crate::domain::vals(c.inputs@[i as int]@));
        if !ok {
            assert(!groth16_accepts(key_view(*vk), ps[i as int], ins[i as int]));
            assert(!all_accepted(*vk, ps, ins));
            return Ok(false);
        }
        i = i + 1;
    }
    assert(all_accepted(*vk, ps, ins));
    Ok(true)
}

/// Runs the batched pairing check of a request.
fn run_check(vk: &VerifyingKey, c: &CheckRequest) -> (r: bool)
    requires
        c.fits(*vk),
        c.proofs@.len() > 0,
    ensures
        all_accepted(*vk, c.view_parts().0, c.view_parts().1) ==> r,
{
    proof {
        if all_accepted(*vk, c.view_parts().0, c.view_parts().1) {
            assert forall|i: int| 0 <= i < c.proofs@.len() implies groth16_accepts(
                key_view(*vk),
                (#[trigger] c.proofs@[i])@,
                crate::domain::vals(c.inputs@[i]@),
            ) by {
                assert(c.view_parts().0[i] == c.proofs@[i]@);
                assert(c.view_parts().1[i] == crate::domain::vals(c.inputs@[i]@));
            }
        }
    }
    batch_check(vk, &c.proofs, &c.inputs)
}

/// Builds what checking many statements comes to, as `batch_plan` states
/// it.
pub fn batch_request(
    public_params: &PublicParams,
    public_inputs: &Vec<PublicInputs>,
    multi_proofs: &Vec<MultiProof>,
    requirements: &ChallengeRequirements,
) -> (r: Result<Option<CheckRequest>, CompoundError>)
    requires
        public_params.wf(),
        forall|j: int| 0 <= j < public_inputs@.len() ==> (#[trigger] public_inputs@[j]).wf(),
    ensures
        match batch_plan(*public_params, public_inputs@, multi_proofs@, *requirements) {
            Err(e) => r == Err::<Option<CheckRequest>, CompoundError>(e),
            Ok(None) => r == Ok::<Option<CheckRequest>, CompoundError>(None),
            Ok(Some(parts)) => r matches Ok(Some(c)) && c.view_parts() == parts && c.fits(
                multi_proofs@[0].verifying_key,
            ) && c.proofs@.len() > 0,
        },
{
    let ghost ins = public_inputs@;
    let ghost mps = multi_proofs@;
    if public_inputs.len() != multi_proofs.len() {
        return Err(CompoundError::InconsistentInputs);
    }
    let k = partition_count(public_params);
    let mut j: usize = 0;
    while j < multi_proofs.len()
        invariant
            j <= mps.len(),
            mps == multi_proofs@,
            k as nat == public_params.count(),
            forall|q: int| 0 <= q < j ==> (#[trigger] mps[q]).circuit_proofs@.len() == k,
        decreases mps.len() - j,
    {
        if multi_proofs[j].circuit_proofs.len() != k {
            assert(mps[j as int].circuit_proofs@.len() != public_params.count());
            return Err(CompoundError::InconsistentInputs);
        }
        j = j + 1;
    }
    if public_inputs.len() == 0 {
        return Err(CompoundError::EmptyBatch);
    }
    if !satisfies_requirements(&public_params.vanilla_params, requirements, k) {
        return Ok(None);
    }
    let mut j: usize = 0;
    while j < public_inputs.len()
        invariant
            j <= ins.len(),
            ins == public_inputs@,
            mps == multi_proofs@,
            ins.len() == mps.len(),
            ins.len() > 0,
            k as nat == public_params.count(),
            requirements_met(public_params.vanilla_params, *requirements, k as nat),
            forall|q: int| 0 <= q < mps.len() ==> (#[trigger] mps[q]).circuit_proofs@.len() == k,
            forall|q: int| 0 <= q < j ==> (#[trigger] ins[q]).partitions@.len() == k,
        decreases ins.len() - j,
    {
        if public_inputs[j].partitions.len() != k {
            assert(ins[j as int].partitions@.len() != public_params.count());
            return Err(CompoundError::InconsistentInputs);
        }
        j = j + 1;
    }
    let mut j: usize = 0;
    while j < multi_proofs.len()
        invariant
            j <= mps.len(),
            ins == public_inputs@,
            mps == multi_proofs@,
            ins.len() == mps.len(),
            ins.len() > 0,
            k as nat == public_params.count(),
            requirements_met(public_params.vanilla_params, *requirements, k as nat),
            forall|q: int| 0 <= q < mps.len() ==> (#[trigger] mps[q]).circuit_proofs@.len() == k,
            forall|q: int| 0 <= q < ins.len() ==> (#[trigger] ins[q]).partitions@.len() == k,
            forall|q: int| 0 <= q < j ==> proofs_ok(#[trigger] mps[q]),
        decreases mps.len() - j,
    {
        if !proofs_valid(&multi_proofs[j].circuit_proofs) {
            assert(!proofs_ok(mps[j as int]));
            return Err(CompoundError::MalformedProof);
        }
        j = j + 1;
    }
    let vk = &multi_proofs[0].verifying_key;
    if !vk.check() || !inputs_match(public_inputs, vk.ic.len()) {
        return Err(CompoundError::MalformedVerifyingKey);
    }
    assert(key_ok(*vk, ins));
    let mut proofs: Vec<Proof> = Vec::new();
    let mut inputs: Vec<Vec<Scalar>> = Vec::new();
    let mut j: usize = 0;
    while j < multi_proofs.len()
        invariant
            j <= mps.len(),
            mps == multi_proofs@,
            ins == public_inputs@,
            ins.len() == mps.len(),
            forall|q: int| 0 <= q < mps.len() ==> proofs_ok(#[trigger] mps[q]),
            forall|q: int| 0 <= q < mps.len() ==> (#[trigger] mps[q]).circuit_proofs@.len() == k,
            forall|q: int| 0 <= q < ins.len() ==> (#[trigger] ins[q]).partitions@.len() == k,
            forall|q: int| 0 <= q < ins.len() ==> (#[trigger] ins[q]).wf(),
            key_ok(*vk, ins),
            proofs@.len() == inputs@.len(),
            proofs_view(proofs@) == flat_proofs(mps.take(j as int)),
            inputs_view(inputs@) == flat_inputs(ins.take(j as int)),
            forall|t: int| 0 <= t < proofs@.len() ==> (#[trigger] proofs@[t]).sized() && proofs@[t].points_valid(),
            forall|t: int| 0 <= t < inputs@.len() ==> (#[trigger] inputs@[t])@.len() + 1 == vk.ic@.len()
                && all_wf(inputs@[t]@),
        decreases mps.len() - j,
    {
        let ghost before_p = proofs_view(proofs@);
        let ghost before_i = inputs_view(inputs@);
        let mut q: usize = 0;
        while q < k
            invariant
                j < mps.len(),
                mps == multi_proofs@,
                ins == public_inputs@,
                ins.len() == mps.len(),
                q <= k,
                proofs_ok(mps[j as int]),
                mps[j as int].circuit_proofs@.len() == k,
                ins[j as int].partitions@.len() == k,
                ins[j as int].wf(),
                key_ok(*vk, ins),
                proofs@.len() == inputs@.len(),
                proofs_view(proofs@) == before_p + proofs_view(mps[j as int].circuit_proofs@.take(q as int)),
                inputs_view(inputs@) == before_i + inputs_view(ins[j as int].partitions@.take(q as int)),
                forall|t: int| 0 <= t < proofs@.len() ==> (#[trigger] proofs@[t]).sized() && proofs@[t].points_valid(),
                forall|t: int| 0 <= t < inputs@.len() ==> (#[trigger] inputs@[t])@.len() + 1 == vk.ic@.len()
                    && all_wf(inputs@[t]@),
            decreases k - q,
        {
            assert(mps[j as int].circuit_proofs@[q as int].sized());
            assert(ins[j as int].partitions@[q as int]@.len() + 1 == vk.ic@.len());
            assert(all_wf(ins[j as int].partitions@[q as int]@));
            let ghost old_pv = proofs_view(proofs@);
            let ghost old_iv = inputs_view(inputs@);
            let ghost cp = mps[j as int].circuit_proofs@;
            let ghost pt = ins[j as int].partitions@;
            proofs.push(copy_proof(&multi_proofs[j].circuit_proofs[q]));
            inputs.push(copy_scalars(&public_inputs[j].partitions[q]));
            proof {
                assert(proofs_view(proofs@) =~= old_pv.push(cp[q as int]@));
                assert(inputs_view(inputs@) =~= old_iv.push(crate::domain::vals(pt[q as int]@)));
                assert(proofs_view(cp.take(q as int + 1)) =~= proofs_view(cp.take(q as int)).push(
                    cp[q as int]@,
                ));
                assert(inputs_view(pt.take(q as int + 1)) =~= inputs_view(pt.take(q as int)).push(
                    crate::domain::vals(pt[q as int]@),
                ));
                assert(proofs_view(proofs@) =~= before_p + proofs_view(cp.take(q as int + 1)));
                assert(inputs_view(inputs@) =~= before_i + inputs_view(pt.take(q as int + 1)));
            }
            q = q + 1;
        }
        proof {
            assert(mps[j as int].circuit_proofs@.take(k as int) =~= mps[j as int].circuit_proofs@);
            assert(ins[j as int].partitions@.take(k as int) =~= ins[j as int].partitions@);
            assert(mps.take(j as int + 1).drop_last() =~= mps.take(j as int));
            assert(ins.take(j as int + 1).drop_last() =~= ins.take(j as int));
            assert(ins[j as int].view_inputs() == inputs_view(ins[j as int].partitions@));
        }
        j = j + 1;
    }
    assert(mps.take(j as int) =~= mps);
    assert(ins.take(j as int) =~= ins);
    Ok(Some(CheckRequest { proofs, inputs }))
}

/// Checks many statements, each with its multiproof, in one batched
/// pairing check under the first multiproof's key. The lists must have the
/// same length and not be empty.
pub fn batch_verify(
    public_params: &PublicParams,
    public_inputs: &Vec<PublicInputs>,
    multi_proofs: &Vec<MultiProof>,
    requirements: &ChallengeRequirements,
) -> (r: Result<bool, CompoundError>)
    requires
        public_params.wf(),
        forall|j: int| 0 <= j < public_inputs@.len() ==> (#[trigger] public_inputs@[j]).wf(),
    ensures
        match batch_plan(*public_params, public_inputs@, multi_proofs@, *requirements) {
            Err(e) => r == Err::<bool, CompoundError>(e),
            Ok(None) => r == Ok::<bool, CompoundError>(false),
            Ok(Some((ps, ins))) => r is Ok && (all_accepted(multi_proofs@[0].verifying_key, ps, ins)
                ==> r == Ok::<bool, CompoundError>(true)),
        },
{
    match batch_request(public_params, public_inputs, multi_proofs, requirements)? {
        None => Ok(false),
        Some(c) => Ok(run_check(&multi_proofs[0].verifying_key, &c)),
    }
}

} // verus!
