//! The decisions of a search: checking its input, deriving and testing
//! candidates, reconciling what a device reports, and how a run ends.
//!
//! Threads, locks, channels and files belong to the caller, which runs the
//! workers and hands each step's values to these functions.

use vstd::prelude::*;
use vstd::string::*;
use crate::error::GeneratorError;
use crate::keyfile::{
    expanded_secret_of, hidden_service_files, public_key_tag, secret_key_tag, HiddenServiceFiles,
};
use crate::keys::{ed25519_public_key, ed25519_public_of, random_seed};
use crate::onion::{onion_address_of, pubkey_to_onion};
use crate::pattern::{
    matches_at, pattern_matches_folded, trim_onion, valid_pattern, validate_pattern, Position,
};
use crate::targets::{Target, TargetKey, TargetSet};

verus! {

/// `std::path::PathBuf`, carried as an opaque value in `FoundKey`; nothing
/// is assumed of it.
#[verifier::external_type_specification]
#[verifier::external_body]
pub struct ExPathBuf(std::path::PathBuf);

/// A successfully found vanity key.
#[derive(Debug)]
pub struct FoundKey {
    pub prefix: String,
    pub onion_address: String,
    pub key_path: std::path::PathBuf,
}

/// A key drawn for testing: its secret, its public key and its address.
#[derive(Debug, Clone)]
pub struct Candidate {
    pub seed: [u8; 32],
    pub public_key: [u8; 32],
    pub onion: String,
}

impl Candidate {
    /// The public key and address are those of the secret.
    pub open spec fn derived_from(&self, seed: Seq<u8>) -> bool {
        &&& self.seed@ == seed
        &&& self.public_key@ == ed25519_public_of(seed)
        &&& self.onion@ == onion_address_of(self.public_key@)
    }
}

/// Derive the public key and address of the secret key `seed`.
pub fn derive_candidate(seed: [u8; 32]) -> (r: Candidate)
    ensures
        r.derived_from(seed@),
{
    let public_key = ed25519_public_key(&seed);
    let onion = pubkey_to_onion(&public_key);
    Candidate { seed, public_key, onion }
}

/// Draw a fresh secret key from the operating system's secure generator
/// and derive it; `None` when the generator fails.
pub fn draw_candidate() -> (r: Option<Candidate>)
    ensures
        r matches Some(c) ==> c.derived_from(c.seed@),
{
    match random_seed() {
        Some(seed) => Some(derive_candidate(seed)),
        None => None,
    }
}

/// The files of the hidden-service directory of a found candidate.
pub fn candidate_files(c: &Candidate) -> (r: HiddenServiceFiles)
    ensures
        r.dir_name@ == trim_onion(c.onion@),
        r.hostname@ == c.onion@ + seq!['\n'],
        r.public_key@ == public_key_tag() + c.public_key@,
        r.secret_key@ == secret_key_tag() + expanded_secret_of(c.seed@),
        expanded_secret_of(c.seed@).len() == 64,
        r.secret_key@.len() == 96,
{
    hidden_service_files(&c.seed, &c.public_key, c.onion.as_str())
}

/// Check the patterns of a run and collect them as prefix targets: an
/// error for an empty list, or for the first pattern that is not one to
/// twelve lowercase base32 characters.
pub fn validate_targets(prefixes: &Vec<String>) -> (r: Result<TargetSet, GeneratorError>)
    ensures
        prefixes@.len() == 0 ==> r matches Err(GeneratorError::NoPatterns),
        prefixes@.len() > 0 && (forall|i: int|
            0 <= i < prefixes@.len() ==> valid_pattern(#[trigger] prefixes@[i]@)) ==> (r matches Ok(
            t) && t.wf() && crate::targets::distinct(t@) && forall|k: TargetKey| #[trigger]
            t@.contains(k) <==> k.1 == Position::Prefix && exists|i: int|
                0 <= i < prefixes@.len() && prefixes@[i]@ == k.0),
        forall|i: int|
            0 <= i < prefixes@.len() && !valid_pattern(#[trigger] prefixes@[i]@) && (forall|j: int|
                0 <= j < i ==> valid_pattern(prefixes@[j]@)) ==> (r matches Err(
                GeneratorError::InvalidPrefix(s)) && s@ == prefixes@[i]@),
{
    if prefixes.len() == 0 {
        return Err(GeneratorError::NoPatterns);
    }
    let mut i: usize = 0;
    while i < prefixes.len()
        invariant
            i <= prefixes@.len(),
            forall|j: int| 0 <= j < i ==> valid_pattern(#[trigger] prefixes@[j]@),
        decreases prefixes@.len() - i,
    {
        match validate_pattern(prefixes[i].as_str()) {
            Ok(()) => {},
            Err(e) => {
                assert forall|k: int|
                    0 <= k < prefixes@.len() && !valid_pattern(#[trigger] prefixes@[k]@) && (forall|
                        j: int,
                    | 0 <= j < k ==> valid_pattern(prefixes@[j]@)) implies k == i by {
                    if k < i {
                    } else if k > i {
                        assert(!valid_pattern(prefixes@[i as int]@));
                    }
                }
                return Err(e);
            },
        }
        i = i + 1;
    }
    Ok(TargetSet::from_prefixes(prefixes))
}

/// Whether a worker goes on to its next candidate: not once the run is
/// cancelled, nor once no target is left.
pub fn worker_continues(cancelled: bool, remaining: usize) -> (r: bool)
    ensures
        r == (!cancelled && remaining > 0),
{
    !cancelled && remaining > 0
}

/// How a run ends: a device's error first; then, if it was stopped while
/// targets remained, `Stopped`; otherwise success.
pub fn run_outcome(stopped: bool, remaining: usize, device_error: Option<String>) -> (r: Result<
    (),
    GeneratorError,
>)
    ensures
        device_error matches Some(m) ==> (r matches Err(GeneratorError::Cuda(s)) && s@ == m@),
        device_error is None && stopped && remaining > 0 ==> r matches Err(GeneratorError::Stopped),
        device_error is None && !(stopped && remaining > 0) ==> r is Ok,
{
    match device_error {
        Some(m) => Err(GeneratorError::Cuda(m)),
        None => {
            if stopped && remaining > 0 {
                Err(GeneratorError::Stopped)
            } else {
                Ok(())
            }
        },
    }
}

/// Threads per block for a kernel: the least of the kernel's limit, the
/// device's limit, and the device's registers over the kernel's (256 when
/// the kernel reports no registers).
pub open spec fn threads_per_block(
    fn_max_threads: u32,
    fn_registers: u32,
    gpu_max_threads: u32,
    gpu_max_registers: u32,
) -> u32 {
    let by_registers = if fn_registers > 0 {
        (gpu_max_registers / fn_registers) as u32
    } else {
        256u32
    };
    let a = if fn_max_threads < gpu_max_threads {
        fn_max_threads
    } else {
        gpu_max_threads
    };
    if a < by_registers {
        a
    } else {
        by_registers
    }
}

/// The launch shape of a device: `threads` per block and
/// `multiprocessors * gpu_max_threads / threads` blocks; an error when no
/// thread fits in a block or the block count exceeds `u32`.
pub fn launch_geometry(
    fn_max_threads: u32,
    fn_registers: u32,
    gpu_max_threads: u32,
    gpu_max_registers: u32,
    gpu_cores: u32,
) -> (r: Result<(u32, u32), GeneratorError>)
    ensures
        ({
            let t = threads_per_block(fn_max_threads, fn_registers, gpu_max_threads, gpu_max_registers);
            let b = gpu_cores * gpu_max_threads / (t as int);
            &&& r is Ok <==> t > 0 && b <= u32::MAX
            &&& r matches Ok(g) ==> g.0 == t && g.1 == b
            &&& r matches Err(e) ==> e is Cuda
        }),
{
    let by_registers: u32 = if fn_registers > 0 {
        gpu_max_registers / fn_registers
    } else {
        256
    };
    let a = if fn_max_threads < gpu_max_threads {
        fn_max_threads
    } else {
        gpu_max_threads
    };
    let threads = if a < by_registers {
        a
    } else {
        by_registers
    };
    if threads == 0 {
        return Err(GeneratorError::Cuda(String::from_str("no thread fits in a block")));
    }
    assert(gpu_cores * gpu_max_threads <= u32::MAX * u32::MAX) by (nonlinear_arith)
        requires
            gpu_cores <= u32::MAX,
            gpu_max_threads <= u32::MAX,
    ;
    let total: u64 = gpu_cores as u64 * gpu_max_threads as u64;
    let blocks: u64 = total / threads as u64;
    if blocks > u32::MAX as u64 {
        return Err(GeneratorError::Cuda(String::from_str("too many blocks for one launch")));
    }
    Ok((threads, blocks as u32))
}

/// Keys that one launch examines: one per thread of every block.
pub fn candidates_per_launch(threads: u32, blocks: u32) -> (r: u64)
    ensures
        r == threads * blocks,
{
    assert(threads * blocks <= u32::MAX * u32::MAX) by (nonlinear_arith)
        requires
            threads <= u32::MAX,
            blocks <= u32::MAX,
    ;
    threads as u64 * blocks as u64
}

/// Check a device's report for `target`: derive the key of the 32 bytes it
/// wrote on the host and keep it only if its address really satisfies the
/// target.
pub fn reconcile_device_hit(out: [u8; 32], target: &Target) -> (r: Option<Candidate>)
    ensures
        r is Some <==> matches_at(
            trim_onion(onion_address_of(ed25519_public_of(out@))),
            target.pattern@,
            target.position,
        ),
        r matches Some(c) ==> c.derived_from(out@),
{
    let c = derive_candidate(out);
    if pattern_matches_folded(c.onion.as_str(), target.pattern.as_str(), target.position) {
        Some(c)
    } else {
        None
    }
}

} // verus!
