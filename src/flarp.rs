use vstd::prelude::*;

verus! {

/// The number of bytes that an ASCII size such as `"2KiB"` names, or `None`
/// where the text is not a size.
pub uninterp spec fn parsed_byte_size(s: Seq<char>) -> Option<u64>;

/// The bytes that a size names: none where the text is not ASCII.
pub open spec fn byte_size(s: Seq<char>) -> Option<u64> {
    if vstd::utf8::is_ascii_chars(s) {
        parsed_byte_size(s)
    } else {
        None
    }
}

/// Relies on `bytefmt::parse`: the bytes that a size with an optional unit
/// names; an error where the text is not a size. Its pattern takes any
/// Unicode digit and its number parse only ASCII ones, so only ASCII text
/// is handed to it.
#[verifier::external_body]
fn parse_size(s: &String) -> (r: Option<u64>)
    requires
        vstd::utf8::is_ascii_chars(s@),
    ensures
        r == parsed_byte_size(s@),
{
    bytefmt::parse(s.as_str()).ok()
}

/// What a benchmark of sealing and proving is run with.
pub struct FlarpInputs {
    /// The size of sector.
    pub sector_size: String,
    pub drg_parents: u64,
    pub expander_parents: u64,
    pub porep_challenges: u64,
    pub porep_partitions: u8,
    pub post_challenges: u64,
    pub post_challenged_nodes: u64,
    pub stacked_layers: u64,
    /// How many sectors should be created in parallel.
    pub num_sectors: u64,
}

impl FlarpInputs {
    /// The sector size in bytes, where the text names one; text that is not
    /// ASCII names none.
    pub fn sector_size_bytes(&self) -> (r: Option<u64>)
        ensures
            r == byte_size(self.sector_size@),
    {
        if !self.sector_size.as_str().is_ascii() {
            return None;
        }
        parse_size(&self.sector_size)
    }
}

/// The number of constraints of the circuits that a benchmark measures.
#[derive(Clone, Copy, Debug, PartialEq, Eq, Structural)]
pub struct CircuitOutputs {
    pub porep_constraints: usize,
    pub post_constraints: usize,
    pub kdf_constraints: usize,
}

/// The times, in milliseconds, that a benchmark reports.
#[derive(Clone, Copy, Debug, PartialEq, Eq, Structural)]
pub struct FlarpOutputs {
    pub comm_d_cpu_time_ms: u64,
    pub comm_d_wall_time_ms: u64,
    pub encode_window_time_all_cpu_time_ms: u64,
    pub encode_window_time_all_wall_time_ms: u64,
    pub encoding_cpu_time_ms: u64,
    pub encoding_wall_time_ms: u64,
    pub epost_cpu_time_ms: u64,
    pub epost_wall_time_ms: u64,
    pub generate_tree_c_cpu_time_ms: u64,
    pub generate_tree_c_wall_time_ms: u64,
    pub porep_commit_time_cpu_time_ms: u64,
    pub porep_commit_time_wall_time_ms: u64,
    pub porep_proof_gen_cpu_time_ms: u64,
    pub porep_proof_gen_wall_time_ms: u64,
    pub post_finalize_ticket_cpu_time_ms: u64,
    pub post_finalize_ticket_time_ms: u64,
    pub epost_inclusions_cpu_time_ms: u64,
    pub epost_inclusions_wall_time_ms: u64,
    pub post_partial_ticket_hash_cpu_time_ms: u64,
    pub post_partial_ticket_hash_time_ms: u64,
    pub post_proof_gen_cpu_time_ms: u64,
    pub post_proof_gen_wall_time_ms: u64,
    pub post_read_challenged_range_cpu_time_ms: u64,
    pub post_read_challenged_range_time_ms: u64,
    pub post_verify_cpu_time_ms: u64,
    pub post_verify_wall_time_ms: u64,
    pub tree_r_last_cpu_time_ms: u64,
    pub tree_r_last_wall_time_ms: u64,
    pub window_comm_leaves_time_cpu_time_ms: u64,
    pub window_comm_leaves_time_wall_time_ms: u64,
    pub circuits: CircuitOutputs,
}

/// A benchmark's inputs and what it measured.
pub struct FlarpReport {
    pub inputs: FlarpInputs,
    pub outputs: FlarpOutputs,
}

/// The operations whose times the proving code records.
#[derive(Clone, Copy, Debug, PartialEq, Eq, Structural)]
pub enum Operation {
    GenerateTreeC,
    GenerateTreeRLast,
    CommD,
    EncodeWindowTimeAll,
    WindowCommLeavesTime,
    PorepCommitTime,
    PostInclusionProofs,
    PostFinalizeTicket,
    PostReadChallengedRange,
    PostPartialTicketHash,
}

/// The time one recorded operation took.
#[derive(Clone, Copy, Debug, PartialEq, Eq, Structural)]
pub struct OpMeasurement {
    pub op: Operation,
    pub cpu_time_ms: u64,
    pub wall_time_ms: u64,
}

/// The time one measured step took.
#[derive(Clone, Copy, Debug, PartialEq, Eq, Structural)]
pub struct Measured {
    pub cpu_time_ms: u64,
    pub wall_time_ms: u64,
}

/// The times of the proof-of-spacetime steps, and whether the proof that
/// was made verified.
#[derive(Clone, Copy, Debug, PartialEq, Eq, Structural)]
pub struct PostMeasurements {
    pub candidates: Measured,
    pub proof: Measured,
    pub verify: Measured,
    pub verified: bool,
}

/// What the steps of a benchmark measured: the replication of all
/// sectors, one seal proof per sector, the proof of spacetime (where it
/// ran), the recorded operations, and the circuits' sizes.
pub struct Measurements {
    pub replication: Measured,
    pub seal_proofs: Vec<Measured>,
    pub post: Option<PostMeasurements>,
    pub ops: Vec<OpMeasurement>,
    pub circuits: CircuitOutputs,
}

/// Why a benchmark could not report.
#[derive(Clone, Copy, Debug, PartialEq, Eq, Structural)]
pub enum FlarpError {
    /// The sector size is not a size.
    InvalidSectorSize,
    /// No sector was asked for.
    MissingNumSectors,
    /// The proof of spacetime was asked for and not measured.
    MissingPost,
    /// The proof of spacetime that was made did not verify.
    InvalidPost,
}

/// All times zero, all circuit sizes zero.
pub open spec fn zero_outputs() -> FlarpOutputs {
    FlarpOutputs {
        comm_d_cpu_time_ms: 0,
        comm_d_wall_time_ms: 0,
        encode_window_time_all_cpu_time_ms: 0,
        encode_window_time_all_wall_time_ms: 0,
        encoding_cpu_time_ms: 0,
        encoding_wall_time_ms: 0,
        epost_cpu_time_ms: 0,
        epost_wall_time_ms: 0,
        generate_tree_c_cpu_time_ms: 0,
        generate_tree_c_wall_time_ms: 0,
        porep_commit_time_cpu_time_ms: 0,
        porep_commit_time_wall_time_ms: 0,
        porep_proof_gen_cpu_time_ms: 0,
        porep_proof_gen_wall_time_ms: 0,
        post_finalize_ticket_cpu_time_ms: 0,
        post_finalize_ticket_time_ms: 0,
        epost_inclusions_cpu_time_ms: 0,
        epost_inclusions_wall_time_ms: 0,
        post_partial_ticket_hash_cpu_time_ms: 0,
        post_partial_ticket_hash_time_ms: 0,
        post_proof_gen_cpu_time_ms: 0,
        post_proof_gen_wall_time_ms: 0,
        post_read_challenged_range_cpu_time_ms: 0,
        post_read_challenged_range_time_ms: 0,
        post_verify_cpu_time_ms: 0,
        post_verify_wall_time_ms: 0,
        tree_r_last_cpu_time_ms: 0,
        tree_r_last_wall_time_ms: 0,
        window_comm_leaves_time_cpu_time_ms: 0,
        window_comm_leaves_time_wall_time_ms: 0,
        circuits: CircuitOutputs { porep_constraints: 0, post_constraints: 0, kdf_constraints: 0 },
    }
}

impl Default for FlarpOutputs {
    fn default() -> (r: FlarpOutputs)
        ensures
            r == zero_outputs(),
    {
        FlarpOutputs {
            comm_d_cpu_time_ms: 0,
            comm_d_wall_time_ms: 0,
            encode_window_time_all_cpu_time_ms: 0,
            encode_window_time_all_wall_time_ms: 0,
            encoding_cpu_time_ms: 0,
            encoding_wall_time_ms: 0,
            epost_cpu_time_ms: 0,
            epost_wall_time_ms: 0,
            generate_tree_c_cpu_time_ms: 0,
            generate_tree_c_wall_time_ms: 0,
            porep_commit_time_cpu_time_ms: 0,
            porep_commit_time_wall_time_ms: 0,
            porep_proof_gen_cpu_time_ms: 0,
            porep_proof_gen_wall_time_ms: 0,
            post_finalize_ticket_cpu_time_ms: 0,
            post_finalize_ticket_time_ms: 0,
            epost_inclusions_cpu_time_ms: 0,
            epost_inclusions_wall_time_ms: 0,
            post_partial_ticket_hash_cpu_time_ms: 0,
            post_partial_ticket_hash_time_ms: 0,
            post_proof_gen_cpu_time_ms: 0,
            post_proof_gen_wall_time_ms: 0,
            post_read_challenged_range_cpu_time_ms: 0,
            post_read_challenged_range_time_ms: 0,
            post_verify_cpu_time_ms: 0,
            post_verify_wall_time_ms: 0,
            tree_r_last_cpu_time_ms: 0,
            tree_r_last_wall_time_ms: 0,
            window_comm_leaves_time_cpu_time_ms: 0,
            window_comm_leaves_time_wall_time_ms: 0,
            circuits: CircuitOutputs { porep_constraints: 0, post_constraints: 0, kdf_constraints: 0 },
        }
    }
}

/// The outputs once one recorded operation's times are filled in: each
/// operation has its own pair of fields.
pub open spec fn with_op(o: FlarpOutputs, m: OpMeasurement) -> FlarpOutputs {
    let c = m.cpu_time_ms;
    let w = m.wall_time_ms;
    match m.op {
        Operation::GenerateTreeC => FlarpOutputs {
            generate_tree_c_cpu_time_ms: c,
            generate_tree_c_wall_time_ms: w,
            ..o
        },
        Operation::GenerateTreeRLast => FlarpOutputs {
            tree_r_last_cpu_time_ms: c,
            tree_r_last_wall_time_ms: w,
            ..o
        },
        Operation::CommD => FlarpOutputs { comm_d_cpu_time_ms: c, comm_d_wall_time_ms: w, ..o },
        Operation::EncodeWindowTimeAll => FlarpOutputs {
            encode_window_time_all_cpu_time_ms: c,
            encode_window_time_all_wall_time_ms: w,
            ..o
        },
        Operation::WindowCommLeavesTime => FlarpOutputs {
            window_comm_leaves_time_cpu_time_ms: c,
            window_comm_leaves_time_wall_time_ms: w,
            ..o
        },
        Operation::PorepCommitTime => FlarpOutputs {
            porep_commit_time_cpu_time_ms: c,
            porep_commit_time_wall_time_ms: w,
            ..o
        },
        Operation::PostInclusionProofs => FlarpOutputs {
            epost_inclusions_cpu_time_ms: c,
            epost_inclusions_wall_time_ms: w,
            ..o
        },
        Operation::PostFinalizeTicket => FlarpOutputs {
            post_finalize_ticket_cpu_time_ms: c,
            post_finalize_ticket_time_ms: w,
            ..o
        },
        Operation::PostReadChallengedRange => FlarpOutputs {
            post_read_challenged_range_cpu_time_ms: c,
            post_read_challenged_range_time_ms: w,
            ..o
        },
        Operation::PostPartialTicketHash => FlarpOutputs {
            post_partial_ticket_hash_cpu_time_ms: c,
            post_partial_ticket_hash_time_ms: w,
            ..o
        },
    }
}

/// The outputs once every recorded operation is filled in, in order: a
/// later record of an operation replaces an earlier one.
pub open spec fn with_ops(o: FlarpOutputs, ms: Seq<OpMeasurement>) -> FlarpOutputs
    decreases ms.len(),
{
    if ms.len() == 0 {
        o
    } else {
        with_op(with_ops(o, ms.drop_last()), ms.last())
    }
}

/// Fills in the times of the recorded operations.
pub fn augment_with_op_measurements(output: &mut FlarpOutputs, measurements: &Vec<OpMeasurement>)
    ensures
        *final(output) == with_ops(*old(output), measurements@),
{
    let mut i: usize = 0;
    while i < measurements.len()
        invariant
            i <= measurements@.len(),
            *output == with_ops(*old(output), measurements@.take(i as int)),
        decreases measurements@.len() - i,
    {
        let m = measurements[i];
        let c = m.cpu_time_ms;
        let w = m.wall_time_ms;
        match m.op {
            Operation::GenerateTreeC => {
                output.generate_tree_c_cpu_time_ms = c;
                output.generate_tree_c_wall_time_ms = w;
            },
            Operation::GenerateTreeRLast => {
                output.tree_r_last_cpu_time_ms = c;
                output.tree_r_last_wall_time_ms = w;
            },
            Operation::CommD => {
                output.comm_d_cpu_time_ms = c;
                output.comm_d_wall_time_ms = w;
            },
            Operation::EncodeWindowTimeAll => {
                output.encode_window_time_all_cpu_time_ms = c;
                output.encode_window_time_all_wall_time_ms = w;
            },
            Operation::WindowCommLeavesTime => {
                output.window_comm_leaves_time_cpu_time_ms = c;
                output.window_comm_leaves_time_wall_time_ms = w;
            },
            Operation::PorepCommitTime => {
                output.porep_commit_time_cpu_time_ms = c;
                output.porep_commit_time_wall_time_ms = w;
            },
            Operation::PostInclusionProofs => {
                output.epost_inclusions_cpu_time_ms = c;
                output.epost_inclusions_wall_time_ms = w;
            },
            Operation::PostFinalizeTicket => {
                output.post_finalize_ticket_cpu_time_ms = c;
                output.post_finalize_ticket_time_ms = w;
            },
            Operation::PostReadChallengedRange => {
                output.post_read_challenged_range_cpu_time_ms = c;
                output.post_read_challenged_range_time_ms = w;
            },
            Operation::PostPartialTicketHash => {
                output.post_partial_ticket_hash_cpu_time_ms = c;
                output.post_partial_ticket_hash_time_ms = w;
            },
        }
        assert(measurements@.take(i as int + 1).drop_last() =~= measurements@.take(i as int));
        i = i + 1;
    }
    assert(measurements@.take(i as int) =~= measurements@);
}

/// `a + b`, or the largest `u64` where the sum does not fit.
pub open spec fn sat_add(a: u64, b: u64) -> u64 {
    if a + b > u64::MAX {
        u64::MAX
    } else {
        (a + b) as u64
    }
}

/// The total CPU and wall times of the measured steps, each sum held at
/// the largest `u64`.
pub open spec fn totals(ms: Seq<Measured>) -> (u64, u64)
    decreases ms.len(),
{
    if ms.len() == 0 {
        (0, 0)
    } else {
        let t = totals(ms.drop_last());
        (sat_add(t.0, ms.last().cpu_time_ms), sat_add(t.1, ms.last().wall_time_ms))
    }
}

fn sum_times(ms: &Vec<Measured>) -> (r: (u64, u64))
    ensures
        r == totals(ms@),
{
    let mut cpu: u64 = 0;
    let mut wall: u64 = 0;
    let mut i: usize = 0;
    while i < ms.len()
        invariant
            i <= ms@.len(),
            (cpu, wall) == totals(ms@.take(i as int)),
        decreases ms@.len() - i,
    {
        cpu = cpu.saturating_add(ms[i].cpu_time_ms);
        wall = wall.saturating_add(ms[i].wall_time_ms);
        assert(ms@.take(i as int + 1).drop_last() =~= ms@.take(i as int));
        i = i + 1;
    }
    assert(ms@.take(i as int) =~= ms@);
    (cpu, wall)
}

/// The outputs with the proof-of-spacetime times and the replication
/// times filled in.
pub open spec fn with_post(o: FlarpOutputs, p: PostMeasurements, replication: Measured) -> FlarpOutputs {
    FlarpOutputs {
        epost_cpu_time_ms: p.candidates.cpu_time_ms,
        epost_wall_time_ms: p.candidates.wall_time_ms,
        post_proof_gen_cpu_time_ms: p.proof.cpu_time_ms,
        post_proof_gen_wall_time_ms: p.proof.wall_time_ms,
        post_verify_cpu_time_ms: p.verify.cpu_time_ms,
        post_verify_wall_time_ms: p.verify.wall_time_ms,
        encoding_wall_time_ms: replication.wall_time_ms,
        encoding_cpu_time_ms: replication.cpu_time_ms,
        ..o
    }
}

/// The outputs that a benchmark reports: where only replication ran, the
/// recorded operations alone; otherwise also the summed seal-proof times
/// (unless skipped), the proof-of-spacetime and replication times (unless
/// skipped), and the circuits' sizes.
pub open spec fn report_outputs(
    skip_seal_proof: bool,
    skip_post_proof: bool,
    only_replicate: bool,
    m: Measurements,
) -> FlarpOutputs {
    if only_replicate {
        with_ops(zero_outputs(), m.ops@)
    } else {
        let t = totals(m.seal_proofs@);
        let sealed = if skip_seal_proof {
            zero_outputs()
        } else {
            FlarpOutputs {
                porep_proof_gen_cpu_time_ms: t.0,
                porep_proof_gen_wall_time_ms: t.1,
                ..zero_outputs()
            }
        };
        let posted = if skip_post_proof {
            sealed
        } else {
            with_post(sealed, m.post->Some_0, m.replication)
        };
        FlarpOutputs { circuits: m.circuits, ..with_ops(posted, m.ops@) }
    }
}

/// Assembles a benchmark's report from its inputs, what was asked to run,
/// and what the steps measured.
pub fn run(
    inputs: FlarpInputs,
    skip_seal_proof: bool,
    skip_post_proof: bool,
    only_replicate: bool,
    measured: &Measurements,
) -> (r: Result<FlarpReport, FlarpError>)
    ensures
        byte_size(inputs.sector_size@) is None ==> r == Err::<FlarpReport, FlarpError>(
            FlarpError::InvalidSectorSize,
        ),
        byte_size(inputs.sector_size@) is Some && inputs.num_sectors == 0 ==> r == Err::<
            FlarpReport,
            FlarpError,
        >(FlarpError::MissingNumSectors),
        byte_size(inputs.sector_size@) is Some && inputs.num_sectors > 0 && !only_replicate
            && !skip_post_proof && measured.post is None ==> r == Err::<FlarpReport, FlarpError>(
            FlarpError::MissingPost,
        ),
        byte_size(inputs.sector_size@) is Some && inputs.num_sectors > 0 && !only_replicate
            && !skip_post_proof && (measured.post matches Some(p) && !p.verified) ==> r == Err::<
            FlarpReport,
            FlarpError,
        >(FlarpError::InvalidPost),
        r is Ok <== byte_size(inputs.sector_size@) is Some && inputs.num_sectors > 0 && (
        only_replicate || skip_post_proof || (measured.post matches Some(p) && p.verified)),
        r matches Ok(rep) ==> rep.inputs == inputs && rep.outputs == report_outputs(
            skip_seal_proof,
            skip_post_proof,
            only_replicate,
            *measured,
        ),
{
    if inputs.sector_size_bytes().is_none() {
        return Err(FlarpError::InvalidSectorSize);
    }
    if inputs.num_sectors == 0 {
        return Err(FlarpError::MissingNumSectors);
    }
    let mut outputs = FlarpOutputs::default();
    if only_replicate {
        augment_with_op_measurements(&mut outputs, &measured.ops);
        return Ok(FlarpReport { inputs, outputs });
    }
    if !skip_seal_proof {
        let (cpu, wall) = sum_times(&measured.seal_proofs);
        outputs.porep_proof_gen_cpu_time_ms = cpu;
        outputs.porep_proof_gen_wall_time_ms = wall;
    }
    if !skip_post_proof {
        let p = match measured.post {
            None => return Err(FlarpError::MissingPost),
            Some(p) => p,
        };
        if !p.verified {
            return Err(FlarpError::InvalidPost);
        }
        outputs.epost_cpu_time_ms = p.candidates.cpu_time_ms;
        outputs.epost_wall_time_ms = p.candidates.wall_time_ms;
        outputs.post_proof_gen_cpu_time_ms = p.proof.cpu_time_ms;
        outputs.post_proof_gen_wall_time_ms = p.proof.wall_time_ms;
        outputs.post_verify_cpu_time_ms = p.verify.cpu_time_ms;
        outputs.post_verify_wall_time_ms = p.verify.wall_time_ms;
        outputs.encoding_wall_time_ms = measured.replication.wall_time_ms;
        outputs.encoding_cpu_time_ms = measured.replication.cpu_time_ms;
    }
    augment_with_op_measurements(&mut outputs, &measured.ops);
    outputs.circuits = measured.circuits;
    Ok(FlarpReport { inputs, outputs })
}

} // verus!
