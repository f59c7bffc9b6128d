use vstd::prelude::*;
use crate::compound::{
    ChallengeRequirements, CompoundError, MultiProof, PublicInputs, PublicParams, SetupParams,
    VanillaParams, all_accepted, batch_plan, batch_verify, copy_key, decodes, key_view,
    proofs_bytes, setup,
};
use crate::prover::VerifyingKey;

verus! {

/// A 32-byte commitment.
pub type Commitment = [u8; 32];

/// What a sector's proofs of replication are checked against: its size,
/// how many partitions its proof has, and the challenges each partition
/// proves and a verifier demands.
#[derive(Clone, Copy, Debug, PartialEq, Eq, Structural)]
pub struct PoRepConfig {
    pub sector_size: u64,
    pub partitions: u8,
    pub challenges_per_partition: usize,
    pub minimum_challenges: usize,
}

/// Why a batch of seals could not be checked.
#[derive(Clone, Copy, Debug, PartialEq, Eq, Structural)]
pub enum SealError {
    /// The batch holds no sector.
    EmptyBatch,
    /// The lists do not all have one entry per sector.
    InconsistentInputs,
    /// A data commitment (`comm_d`) is all zeros.
    ZeroCommD,
    /// A replica commitment (`comm_r`) is all zeros.
    ZeroCommR,
    /// Decoding or checking the proofs failed.
    Compound(CompoundError),
}

/// Every byte of the commitment is zero.
pub open spec fn is_zero(c: Commitment) -> bool {
    forall|i: int| 0 <= i < 32 ==> c@[i] == 0
}

fn all_zero(c: &Commitment) -> (r: bool)
    ensures
        r == is_zero(*c),
{
    let mut i: usize = 0;
    while i < 32
        invariant
            i <= 32,
            forall|j: int| 0 <= j < i ==> c@[j] == 0,
        decreases 32 - i,
    {
        if c[i] != 0 {
            return false;
        }
        i = i + 1;
    }
    true
}

/// Some commitment in the list is all zeros.
pub open spec fn any_zero(cs: Seq<Commitment>) -> bool {
    exists|i: int| 0 <= i < cs.len() && is_zero(#[trigger] cs[i])
}

fn find_zero(cs: &Vec<Commitment>) -> (r: bool)
    ensures
        r == any_zero(cs@),
{
    let mut i: usize = 0;
    while i < cs.len()
        invariant
            i <= cs@.len(),
            forall|j: int| 0 <= j < i ==> !is_zero(#[trigger] cs@[j]),
        decreases cs@.len() - i,
    {
        if all_zero(&cs[i]) {
            assert(is_zero(cs@[i as int]));
            return true;
        }
        i = i + 1;
    }
    false
}

/// The lists are not empty, have one entry per sector, and hold no all-zero
/// commitment.
pub open spec fn lists_ok(
    comm_r: Seq<Commitment>,
    comm_d: Seq<Commitment>,
    ins: Seq<PublicInputs>,
    vecs: Seq<Vec<u8>>,
) -> bool {
    &&& comm_r.len() > 0
    &&& comm_d.len() == comm_r.len()
    &&& ins.len() == comm_r.len()
    &&& vecs.len() == comm_r.len()
    &&& !any_zero(comm_d)
    &&& !any_zero(comm_r)
}

/// The compound parameters of a configuration.
pub open spec fn seal_params(c: PoRepConfig) -> PublicParams {
    PublicParams {
        vanilla_params: VanillaParams { challenges_per_partition: c.challenges_per_partition },
        partitions: Some(c.partitions as usize),
        priority: false,
    }
}

/// What a verifier of a configuration demands.
pub open spec fn seal_requirements(c: PoRepConfig) -> ChallengeRequirements {
    ChallengeRequirements { minimum_challenges: c.minimum_challenges }
}

/// The multiproofs are what the byte vectors decode to, under the key.
pub open spec fn decoded_from(mps: Seq<MultiProof>, vecs: Seq<Vec<u8>>, vk: VerifyingKey) -> bool {
    &&& mps.len() == vecs.len()
    &&& forall|i: int|
        0 <= i < mps.len() ==> proofs_bytes((#[trigger] mps[i]).circuit_proofs@) == vecs[i]@
            && key_view(mps[i].verifying_key) == key_view(vk)
}

/// The answer that checking the multiproofs in one batch gives: the plan's
/// error, `false` where the requirements are not met, and otherwise an
/// answer that is `true` where every proof passes the single-proof check.
pub open spec fn seal_outcome(
    pp: PublicParams,
    ins: Seq<PublicInputs>,
    mps: Seq<MultiProof>,
    req: ChallengeRequirements,
    r: Result<bool, SealError>,
) -> bool {
    match batch_plan(pp, ins, mps, req) {
        Err(e) => r == Err::<bool, SealError>(SealError::Compound(e)),
        Ok(None) => r == Ok::<bool, SealError>(false),
        Ok(Some((ps, is))) => r is Ok && (all_accepted(mps[0].verifying_key, ps, is) ==> r == Ok::<
            bool,
            SealError,
        >(true)),
    }
}

/// The answer is what checking the decoded proofs gives.
pub open spec fn seal_checked(
    c: PoRepConfig,
    ins: Seq<PublicInputs>,
    vecs: Seq<Vec<u8>>,
    vk: VerifyingKey,
    r: Result<bool, SealError>,
) -> bool {
    exists|mps: Seq<MultiProof>|
        decoded_from(mps, vecs, vk) && #[trigger] seal_outcome(
            seal_params(c),
            ins,
            mps,
            seal_requirements(c),
            r,
        )
}

/// Verifies a batch of seals: the commitments of each sector, the inputs
/// its statement gives each partition, and its serialized proof, all
/// checked in one batch under `verifying_key`. The batch must not be empty,
/// every list must have one entry per sector, and no commitment may be all
/// zeros.
pub fn verify_batch_seal(
    porep_config: &PoRepConfig,
    comm_r_ins: &Vec<Commitment>,
    comm_d_ins: &Vec<Commitment>,
    public_inputs: &Vec<PublicInputs>,
    proof_vecs: &Vec<Vec<u8>>,
    verifying_key: &VerifyingKey,
) -> (r: Result<bool, SealError>)
    requires
        forall|j: int| 0 <= j < public_inputs@.len() ==> (#[trigger] public_inputs@[j]).wf(),
    ensures
        comm_r_ins@.len() == 0 ==> r == Err::<bool, SealError>(SealError::EmptyBatch),
        comm_r_ins@.len() > 0 && (comm_d_ins@.len() != comm_r_ins@.len() || public_inputs@.len()
            != comm_r_ins@.len() || proof_vecs@.len() != comm_r_ins@.len()) ==> r == Err::<
            bool,
            SealError,
        >(SealError::InconsistentInputs),
        comm_r_ins@.len() > 0 && comm_d_ins@.len() == comm_r_ins@.len() && public_inputs@.len()
            == comm_r_ins@.len() && proof_vecs@.len() == comm_r_ins@.len() && any_zero(comm_d_ins@)
            ==> r == Err::<bool, SealError>(SealError::ZeroCommD),
        comm_r_ins@.len() > 0 && comm_d_ins@.len() == comm_r_ins@.len() && public_inputs@.len()
            == comm_r_ins@.len() && proof_vecs@.len() == comm_r_ins@.len() && !any_zero(comm_d_ins@)
            && any_zero(comm_r_ins@) ==> r == Err::<bool, SealError>(SealError::ZeroCommR),
        comm_r_ins@.len() > 0 && comm_d_ins@.len() == comm_r_ins@.len() && public_inputs@.len()
            == comm_r_ins@.len() && proof_vecs@.len() == comm_r_ins@.len() && !any_zero(comm_d_ins@)
            && !any_zero(comm_r_ins@) && porep_config.partitions == 0 ==> r == Err::<bool, SealError>(
            SealError::Compound(CompoundError::ZeroPartitions),
        ),
        lists_ok(comm_r_ins@, comm_d_ins@, public_inputs@, proof_vecs@) && porep_config.partitions
            != 0 && (exists|i: int|
            0 <= i < proof_vecs@.len() && !decodes(
                porep_config.partitions as nat,
                (#[trigger] proof_vecs@[i])@,
            )) ==> r == Err::<bool, SealError>(SealError::Compound(CompoundError::MalformedProof)),
        lists_ok(comm_r_ins@, comm_d_ins@, public_inputs@, proof_vecs@) && porep_config.partitions
            != 0 && (forall|i: int|
            0 <= i < proof_vecs@.len() ==> decodes(
                porep_config.partitions as nat,
                (#[trigger] proof_vecs@[i])@,
            )) ==> seal_checked(*porep_config, public_inputs@, proof_vecs@, *verifying_key, r),
{
    if comm_r_ins.len() == 0 {
        return Err(SealError::EmptyBatch);
    }
    let l = comm_r_ins.len();
    if l != comm_d_ins.len() || l != public_inputs.len() || l != proof_vecs.len() {
        return Err(SealError::InconsistentInputs);
    }
    if find_zero(comm_d_ins) {
        return Err(SealError::ZeroCommD);
    }
    if find_zero(comm_r_ins) {
        return Err(SealError::ZeroCommR);
    }
    let partitions = porep_config.partitions as usize;
    let sp = SetupParams {
        vanilla_params: VanillaParams { challenges_per_partition: porep_config.challenges_per_partition },
        partitions: Some(partitions),
        priority: false,
    };
    let pp = match setup(&sp) {
        Ok(pp) => pp,
        Err(e) => return Err(SealError::Compound(e)),
    };
    let mut proofs: Vec<MultiProof> = Vec::new();
    let mut i: usize = 0;
    while i < l
        invariant
            l == proof_vecs@.len(),
            l == comm_r_ins@.len(),
            l == comm_d_ins@.len(),
            l == public_inputs@.len(),
            l > 0,
            !any_zero(comm_d_ins@),
            !any_zero(comm_r_ins@),
            porep_config.partitions != 0,
            pp.wf(),
            pp == seal_params(*porep_config),
            partitions == porep_config.partitions as usize,
            forall|j: int| 0 <= j < public_inputs@.len() ==> (#[trigger] public_inputs@[j]).wf(),
            i <= l,
            proofs@.len() == i,
            forall|t: int| 0 <= t < i ==> decodes(partitions as nat, (#[trigger] proof_vecs@[t])@),
            forall|t: int|
                0 <= t < i ==> proofs_bytes((#[trigger] proofs@[t]).circuit_proofs@) == proof_vecs@[t]@
                    && key_view(proofs@[t].verifying_key) == key_view(*verifying_key),
        decreases l - i,
    {
        match MultiProof::from_bytes(partitions, &proof_vecs[i], copy_key(verifying_key)) {
            Ok(m) => proofs.push(m),
            Err(e) => return Err(SealError::Compound(e)),
        }
        i = i + 1;
    }
    assert(decoded_from(proofs@, proof_vecs@, *verifying_key));
    let req = ChallengeRequirements { minimum_challenges: porep_config.minimum_challenges };
    let r = match batch_verify(&pp, public_inputs, &proofs, &req) {
        Ok(b) => Ok(b),
        Err(e) => Err(SealError::Compound(e)),
    };
    assert(seal_outcome(seal_params(*porep_config), public_inputs@, proofs@, seal_requirements(*porep_config), r));
    r
}

} // verus!
