//! The computation backends (CPU, CUDA GPU, both together, an external CUDA
//! tool), what they report of themselves, and how one is chosen.

use vstd::prelude::*;
use vstd::string::*;
use crate::error::GeneratorError;
use crate::text::{decimal, decimal_of};

verus! {

/// Information about a computation backend.
#[derive(Debug, Clone)]
pub struct BackendInfo {
    pub name: String,
    pub estimated_speed: u64,
}

/// Backend mode selection.
#[derive(Debug, Clone, Copy, PartialEq, Eq, Structural)]
pub enum BackendMode {
    /// CPU only (always available).
    Cpu,
    /// GPU only (requires CUDA).
    Cuda,
    /// CPU and GPU together (requires CUDA).
    Hybrid,
    /// The best backend available.
    Auto,
}

impl Default for BackendMode {
    fn default() -> (r: Self)
        ensures
            r == BackendMode::Auto,
    {
        BackendMode::Auto
    }
}

/// Estimated keys per second of one CPU thread.
pub const CPU_SPEED_PER_THREAD: u64 = 500_000;

/// Estimated keys per second of one GPU multiprocessor.
pub const GPU_SPEED_PER_MULTIPROCESSOR: u64 = 5_000_000;

/// Estimated keys per second of the external CUDA tool.
pub const EXTERNAL_CUDA_SPEED: u64 = 100_000_000;

/// `a * b`, or `u64::MAX` where the product does not fit.
pub open spec fn saturating_product(a: nat, b: nat) -> nat {
    if a * b > u64::MAX {
        u64::MAX as nat
    } else {
        a * b
    }
}

fn saturating_mul(a: u64, b: u64) -> (r: u64)
    ensures
        r == saturating_product(a as nat, b as nat),
{
    match a.checked_mul(b) {
        Some(p) => p,
        None => u64::MAX,
    }
}

/// The name of a CPU backend with `n` threads: `CPU (n threads)`.
pub open spec fn cpu_name(n: nat) -> Seq<char> {
    "CPU ("@ + decimal_of(n) + " threads)"@
}

/// Number of logical CPUs of the machine.
///
/// Relies on `num_cpus::get`, which always returns at least 1; beyond that
/// it depends on the machine.
#[verifier::external_body]
fn logical_cpus() -> (r: usize)
    ensures
        r >= 1,
{
    num_cpus::get()
}

/// CPU backend: a pool of threads that each draw and test keys.
#[derive(Debug, Clone)]
pub struct CpuBackend {
    thread_count: usize,
}

impl CpuBackend {
    /// The number of worker threads.
    pub closed spec fn threads(&self) -> nat {
        self.thread_count as nat
    }

    /// Create a CPU backend using all available cores.
    pub fn new() -> (r: Self)
        ensures
            r.threads() >= 1,
    {
        CpuBackend { thread_count: logical_cpus() }
    }

    /// Create a CPU backend with a specific thread count.
    pub fn with_threads(thread_count: usize) -> (r: Self)
        ensures
            r.threads() == thread_count,
    {
        CpuBackend { thread_count }
    }

    /// The number of worker threads.
    pub fn thread_count(&self) -> (r: usize)
        ensures
            r == self.threads(),
    {
        self.thread_count
    }

    /// Get backend information.
    pub fn info(&self) -> (r: BackendInfo)
        ensures
            r.name@ == cpu_name(self.threads()),
            r.estimated_speed == saturating_product(self.threads(), CPU_SPEED_PER_THREAD as nat),
    {
        let mut name = String::from_str("CPU (");
        name.append(decimal(self.thread_count as u64).as_str());
        name.append(" threads)");
        BackendInfo {
            name,
            estimated_speed: saturating_mul(self.thread_count as u64, CPU_SPEED_PER_THREAD),
        }
    }
}

/// What probing found of one CUDA device.
#[derive(Debug, Clone)]
pub struct DeviceInfo {
    pub name: String,
    pub multiprocessor_count: u64,
}

/// The texts of `names` joined by `, `.
pub open spec fn join_names(names: Seq<Seq<char>>) -> Seq<char>
    decreases names.len(),
{
    if names.len() == 0 {
        Seq::empty()
    } else if names.len() == 1 {
        names[0]
    } else {
        join_names(names.drop_last()) + ", "@ + names.last()
    }
}

/// Estimated speed of `devices`: 5M keys per second per multiprocessor,
/// without bound.
pub open spec fn devices_speed(devices: Seq<DeviceInfo>) -> nat
    decreases devices.len(),
{
    if devices.len() == 0 {
        0
    } else {
        devices_speed(devices.drop_last()) + (devices.last().multiprocessor_count as nat)
            * (GPU_SPEED_PER_MULTIPROCESSOR as nat)
    }
}

/// `v`, or `u64::MAX` where it is larger.
pub open spec fn saturate(v: nat) -> nat {
    if v > u64::MAX {
        u64::MAX as nat
    } else {
        v
    }
}

/// The name of a CUDA backend on devices with these names.
pub open spec fn cuda_name(names: Seq<Seq<char>>) -> Seq<char> {
    if names.len() == 1 {
        "CUDA ("@ + names[0] + ")"@
    } else {
        "CUDA ("@ + decimal_of(names.len()) + " GPUs: "@ + join_names(names) + ")"@
    }
}

/// CUDA GPU backend: one worker per device.
#[derive(Debug, Clone)]
pub struct CudaBackend {
    device_names: Vec<String>,
    estimated_speed: u64,
}

impl CudaBackend {
    /// The devices' names.
    pub closed spec fn names(&self) -> Seq<Seq<char>> {
        self.device_names@.map_values(|s: String| s@)
    }

    /// The estimated speed of all devices together.
    pub closed spec fn speed(&self) -> u64 {
        self.estimated_speed
    }

    /// Number of devices.
    pub fn device_count(&self) -> (r: usize)
        ensures
            r == self.names().len(),
    {
        self.device_names.len()
    }

    /// A backend over the devices that probing found; an error when there is
    /// none.
    pub fn from_devices(devices: &Vec<DeviceInfo>) -> (r: Result<Self, GeneratorError>)
        ensures
            devices@.len() == 0 <==> r is Err,
            r matches Err(e) ==> e matches GeneratorError::Cuda(s) && s@
                == "No CUDA devices found"@,
            r matches Ok(c) ==> c.names() == devices@.map_values(|d: DeviceInfo| d.name@)
                && c.speed() == saturate(devices_speed(devices@)),
    {
        if devices.len() == 0 {
            return Err(GeneratorError::Cuda(String::from_str("No CUDA devices found")));
        }
        let mut names: Vec<String> = Vec::new();
        let mut total: u64 = 0;
        let mut i: usize = 0;
        while i < devices.len()
            invariant
                i <= devices@.len(),
                names@.len() == i,
                forall|j: int| 0 <= j < i ==> #[trigger] names@[j]@ == devices@[j].name@,
                total == saturate(devices_speed(devices@.subrange(0, i as int))),
            decreases devices@.len() - i,
        {
            let d = &devices[i];
            names.push(d.name.clone());
            let part = saturating_mul(d.multiprocessor_count, GPU_SPEED_PER_MULTIPROCESSOR);
            assert(devices@.subrange(0, i + 1).drop_last() =~= devices@.subrange(0, i as int));
            total = total.saturating_add(part);
            i = i + 1;
        }
        assert(devices@.subrange(0, devices@.len() as int) =~= devices@);
        let r = CudaBackend { device_names: names, estimated_speed: total };
        assert(r.names() =~= devices@.map_values(|d: DeviceInfo| d.name@));
        Ok(r)
    }
    /// Get backend information.
    pub fn info(&self) -> (r: BackendInfo)
        requires
            self.names().len() >= 1,
        ensures
            r.name@ == cuda_name(self.names()),
            r.estimated_speed == self.speed(),
    {
        let mut name = String::from_str("CUDA (");
        if self.device_names.len() == 1 {
            name.append(self.device_names[0].as_str());
        } else {
            name.append(decimal(self.device_names.len() as u64).as_str());
            name.append(" GPUs: ");
            let mut i: usize = 0;
            while i < self.device_names.len()
                invariant
                    1 < self.names().len(),
                    i <= self.names().len(),
                    self.names() == self.device_names@.map_values(|s: String| s@),
                    name@ == "CUDA ("@ + decimal_of(self.names().len()) + " GPUs: "@ + join_names(
                        self.names().subrange(0, i as int),
                    ),
                decreases self.names().len() - i,
            {
                proof {
                    reveal_strlit(", ");
                }
                let ghost before = name@;
                if i > 0 {
                    name.append(", ");
                }
                name.append(self.device_names[i].as_str());
                proof {
                    let sub = self.names().subrange(0, i + 1);
                    assert(sub.drop_last() =~= self.names().subrange(0, i as int));
                    if i == 0 {
                        assert(self.names().subrange(0, 0) =~= Seq::<Seq<char>>::empty());
                    }
                }
                i = i + 1;
            }
            assert(self.names().subrange(0, self.names().len() as int) =~= self.names());
        }
        name.append(")");
        BackendInfo { name, estimated_speed: self.estimated_speed }
    }
}

/// The name of a hybrid backend: `Hybrid: <gpu> + CPU (n threads)`.
pub open spec fn hybrid_name(gpu: Seq<char>, n: nat) -> Seq<char> {
    "Hybrid: "@ + gpu + " + CPU ("@ + decimal_of(n) + " threads)"@
}

/// Hybrid backend: the CPU pool and the GPU workers search the same
/// targets at once.
#[derive(Debug, Clone)]
pub struct HybridBackend {
    cpu_threads: usize,
    gpu_info: String,
    cpu_speed: u64,
    gpu_speed: u64,
}

impl HybridBackend {
    /// The number of CPU worker threads.
    pub closed spec fn threads(&self) -> nat {
        self.cpu_threads as nat
    }

    /// The GPU backend's name.
    pub closed spec fn gpu_name(&self) -> Seq<char> {
        self.gpu_info@
    }

    /// The estimated speeds of the CPU part and of the GPU part.
    pub closed spec fn speeds(&self) -> (u64, u64) {
        (self.cpu_speed, self.gpu_speed)
    }

    /// Create a hybrid backend with one CPU thread per logical CPU beside
    /// the devices of `gpu`.
    pub fn new(gpu: &CudaBackend) -> (r: Self)
        requires
            gpu.names().len() >= 1,
        ensures
            r.threads() >= 1,
            r.gpu_name() == cuda_name(gpu.names()),
            r.speeds().0 == saturating_product(r.threads(), CPU_SPEED_PER_THREAD as nat),
            r.speeds().1 == gpu.speed(),
    {
        HybridBackend::with_cpu_threads(logical_cpus(), gpu)
    }

    /// Create a hybrid backend with `cpu_threads` CPU threads beside the
    /// devices of `gpu`.
    pub fn with_cpu_threads(cpu_threads: usize, gpu: &CudaBackend) -> (r: Self)
        requires
            gpu.names().len() >= 1,
        ensures
            r.threads() == cpu_threads,
            r.gpu_name() == cuda_name(gpu.names()),
            r.speeds() == (
                saturating_product(cpu_threads as nat, CPU_SPEED_PER_THREAD as nat) as u64,
                gpu.speed(),
            ),
    {
        let cuda_info = gpu.info();
        let cpu_info = CpuBackend::with_threads(cpu_threads).info();
        HybridBackend {
            cpu_threads,
            gpu_info: cuda_info.name,
            cpu_speed: cpu_info.estimated_speed,
            gpu_speed: cuda_info.estimated_speed,
        }
    }

    /// The number of CPU worker threads.
    pub fn cpu_threads(&self) -> (r: usize)
        ensures
            r == self.threads(),
    {
        self.cpu_threads
    }

    /// Get backend information: both names, and the sum of both speeds
    /// (at most `u64::MAX`).
    pub fn info(&self) -> (r: BackendInfo)
        ensures
            r.name@ == hybrid_name(self.gpu_name(), self.threads()),
            r.estimated_speed == saturate((self.speeds().0 + self.speeds().1) as nat),
    {
        let mut name = String::from_str("Hybrid: ");
        name.append(self.gpu_info.as_str());
        name.append(" + CPU (");
        name.append(decimal(self.cpu_threads as u64).as_str());
        name.append(" threads)");
        BackendInfo { name, estimated_speed: self.cpu_speed.saturating_add(self.gpu_speed) }
    }
}

/// Backend that runs an external CUDA search program and reads the keys it
/// prints.
#[derive(Debug, Clone)]
pub struct ExternalCudaBackend {
    exe_path: String,
}

impl ExternalCudaBackend {
    /// The program's path.
    pub closed spec fn path(&self) -> Seq<char> {
        self.exe_path@
    }

    /// Create with an explicit path; `exists` tells whether a file is there.
    pub fn with_path(exe_path: String, exists: bool) -> (r: Result<Self, GeneratorError>)
        ensures
            exists <==> r is Ok,
            r matches Ok(b) ==> b.path() == exe_path@,
            r matches Err(e) ==> e matches GeneratorError::Cuda(s) && s@
                == "CUDA executable not found at: "@ + exe_path@,
    {
        if exists {
            Ok(ExternalCudaBackend { exe_path })
        } else {
            let mut m = String::from_str("CUDA executable not found at: ");
            m.append(exe_path.as_str());
            Err(GeneratorError::Cuda(m))
        }
    }

    /// The program's path.
    pub fn exe_path(&self) -> (r: &String)
        ensures
            r@ == self.path(),
    {
        &self.exe_path
    }

    /// Get backend information.
    pub fn info(&self) -> (r: BackendInfo)
        ensures
            r.name@ == "External CUDA (vanity_torv3_cuda)"@,
            r.estimated_speed == EXTERNAL_CUDA_SPEED,
    {
        BackendInfo {
            name: String::from_str("External CUDA (vanity_torv3_cuda)"),
            estimated_speed: EXTERNAL_CUDA_SPEED,
        }
    }
}

/// Available backend types.
#[derive(Debug, Clone)]
pub enum Backend {
    Cpu(CpuBackend),
    Cuda(CudaBackend),
    Hybrid(HybridBackend),
}

impl Backend {
    /// The backend's well-formedness: a CUDA backend has a device.
    pub open spec fn wf(&self) -> bool {
        self matches Backend::Cuda(c) ==> c.names().len() >= 1
    }

    /// Get information about this backend.
    pub fn info(&self) -> (r: BackendInfo)
        requires
            self.wf(),
        ensures
            r.name@ == match self {
                Backend::Cpu(b) => cpu_name(b.threads()),
                Backend::Cuda(b) => cuda_name(b.names()),
                Backend::Hybrid(b) => hybrid_name(b.gpu_name(), b.threads()),
            },
            r.estimated_speed == match self {
                Backend::Cpu(b) => saturating_product(b.threads(), CPU_SPEED_PER_THREAD as nat),
                Backend::Cuda(b) => b.speed() as nat,
                Backend::Hybrid(b) => saturate((b.speeds().0 + b.speeds().1) as nat),
            },
    {
        match self {
            Backend::Cpu(b) => b.info(),
            Backend::Cuda(b) => b.info(),
            Backend::Hybrid(b) => b.info(),
        }
    }
}

/// Select the backend for `mode` with `cpu_threads` CPU threads, given what
/// probing for CUDA devices gave. `Auto` prefers the hybrid backend and falls
/// back to the CPU without a device; `Cuda` and `Hybrid` report the probe's
/// error instead.
pub fn select_backend_with_config(
    mode: BackendMode,
    cpu_threads: usize,
    gpu: Result<CudaBackend, GeneratorError>,
) -> (r: Result<Backend, GeneratorError>)
    requires
        gpu matches Ok(c) ==> c.names().len() >= 1,
    ensures
        r matches Ok(b) ==> b.wf(),
        mode == BackendMode::Cpu ==> (r matches Ok(Backend::Cpu(c)) && c.threads() == cpu_threads),
        mode == BackendMode::Cuda ==> match gpu {
            Ok(g) => r == Ok::<Backend, GeneratorError>(Backend::Cuda(g)),
            Err(e) => r == Err::<Backend, GeneratorError>(e),
        },
        mode == BackendMode::Hybrid || mode == BackendMode::Auto ==> match gpu {
            Ok(g) => (r matches Ok(Backend::Hybrid(h)) && h.threads() == cpu_threads
                && h.gpu_name() == cuda_name(g.names()) && h.speeds() == (
                saturating_product(cpu_threads as nat, CPU_SPEED_PER_THREAD as nat) as u64,
                g.speed(),
            )),
            Err(e) => if mode == BackendMode::Hybrid {
                r == Err::<Backend, GeneratorError>(e)
            } else {
                (r matches Ok(Backend::Cpu(c)) && c.threads() == cpu_threads)
            },
        },
{
    match mode {
        BackendMode::Cpu => Ok(Backend::Cpu(CpuBackend::with_threads(cpu_threads))),
        BackendMode::Cuda => match gpu {
            Ok(g) => Ok(Backend::Cuda(g)),
            Err(e) => Err(e),
        },
        BackendMode::Hybrid => match gpu {
            Ok(g) => Ok(Backend::Hybrid(HybridBackend::with_cpu_threads(cpu_threads, &g))),
            Err(e) => Err(e),
        },
        BackendMode::Auto => match gpu {
            Ok(g) => Ok(Backend::Hybrid(HybridBackend::with_cpu_threads(cpu_threads, &g))),
            Err(_) => Ok(Backend::Cpu(CpuBackend::with_threads(cpu_threads))),
        },
    }
}

/// Select the best backend, given what probing for CUDA devices gave: the
/// hybrid backend when there is a device, else the CPU, each with one CPU
/// thread per logical CPU.
pub fn select_backend(gpu: Result<CudaBackend, GeneratorError>) -> (r: Backend)
    requires
        gpu matches Ok(c) ==> c.names().len() >= 1,
    ensures
        r.wf(),
        match gpu {
            Ok(g) => r matches Backend::Hybrid(h) && h.threads() >= 1 && h.gpu_name() == cuda_name(
                g.names(),
            ) && h.speeds() == (
                saturating_product(h.threads(), CPU_SPEED_PER_THREAD as nat) as u64,
                g.speed(),
            ),
            Err(_) => r matches Backend::Cpu(c) && c.threads() >= 1,
        },
{
    match gpu {
        Ok(g) => Backend::Hybrid(HybridBackend::new(&g)),
        Err(_) => Backend::Cpu(CpuBackend::new()),
    }
}

} // verus!
