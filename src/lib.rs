//! A one-shot inventory of the host CPU: architecture, vendor, model name,
//! logical and physical core counts, and how core frequencies are distributed.
//!
//! The library decides everything from plain readings of the system (register
//! values of the identification instruction, the text of the metadata source,
//! the entries of the per-CPU topology directory); the reading itself is left to
//! the caller.
use vstd::prelude::*;

use crate::distribution::distribution_of;
use crate::probe::{
    architecture_of, fabricant_of_info, fabricant_of_vendor, find_value, model_of_brand,
    register_bytes, InfoKey,
};
use crate::topology::{
    core_of, cores_of, count_physical_cores, cpu_entry_count, entry_core_ids, group_ids,
    lemma_cores_count, logical_count, physical_count, TopologyEntry,
};

pub mod distribution;
pub mod probe;
pub mod text;
pub mod topology;

verus! {

/// CPU architecture type: the instruction set the binary was built for.
#[derive(Debug, Clone, Copy, PartialEq, Eq, Structural)]
pub enum CpuArchitecture {
    /// 32-bit x86
    X86,
    /// 64-bit x86 (AMD64/Intel 64)
    X86_64,
    /// 32-bit ARM
    ARM,
    /// 64-bit ARM (AArch64)
    ARM64,
    /// Unknown or unsupported architecture
    Unknown,
}

/// CPU manufacturer/vendor.
#[derive(Debug, Clone, PartialEq, Eq)]
pub enum Fabricant {
    /// Intel Corporation
    Intel,
    /// Advanced Micro Devices (AMD)
    Amd,
    /// Other manufacturer, with its vendor string
    Other(String),
    /// Unknown manufacturer
    Unknown,
}

/// The mathematical value of a [`Fabricant`].
pub enum FabricantModel {
    Intel,
    Amd,
    Other(Seq<char>),
    Unknown,
}

impl View for Fabricant {
    type V = FabricantModel;

    open spec fn view(&self) -> FabricantModel {
        match self {
            Fabricant::Intel => FabricantModel::Intel,
            Fabricant::Amd => FabricantModel::Amd,
            Fabricant::Other(s) => FabricantModel::Other(s@),
            Fabricant::Unknown => FabricantModel::Unknown,
        }
    }
}

/// One logical CPU core (thread).
#[derive(Debug, Clone, Copy, PartialEq, Eq, Structural)]
pub struct Core {
    /// Logical core id
    pub id: u32,
    /// Maximum core speed in MHz; 0 when it could not be read
    pub speed_mhz: u32,
    /// Physical core this logical core belongs to, when known
    pub physical_core_id: Option<u32>,
}

impl Core {
    /// Creates a new `Core`.
    pub fn new(id: u32, speed_mhz: u32, physical_core_id: Option<u32>) -> (r: Core)
        ensures
            r == (Core { id, speed_mhz, physical_core_id }),
    {
        Core { id, speed_mhz, physical_core_id }
    }
}

/// How core frequencies are distributed: all the same (`Lineal`), or not (`Hybrid`).
#[derive(Debug, Clone)]
pub enum DistributionCore {
    /// All cores share one frequency (0 when no frequency is known).
    Lineal {
        /// The shared frequency in MHz
        mhz: u32,
    },
    /// Cores run at different frequencies (performance and efficiency cores).
    Hybrid {
        /// All cores, ordered by frequency
        groups: Vec<Core>,
    },
}

/// The mathematical value of a [`DistributionCore`].
pub enum DistributionModel {
    Lineal(u32),
    Hybrid(Seq<Core>),
}

impl View for DistributionCore {
    type V = DistributionModel;

    open spec fn view(&self) -> DistributionModel {
        match self {
            DistributionCore::Lineal { mhz } => DistributionModel::Lineal(*mhz),
            DistributionCore::Hybrid { groups } => DistributionModel::Hybrid(groups@),
        }
    }
}

/// Register values of the identification instruction.
#[derive(Debug, Clone)]
pub struct CpuidReadings {
    /// `ebx` of the base leaf: the first four bytes of the vendor string
    pub vendor_ebx: u32,
    /// `edx` of the base leaf: the next four bytes of the vendor string
    pub vendor_edx: u32,
    /// `ecx` of the base leaf: the last four bytes of the vendor string
    pub vendor_ecx: u32,
    /// `eax` of the first extended leaf: the highest extended leaf supported
    pub max_extended_leaf: u32,
    /// `eax`, `ebx`, `ecx`, `edx` of each of the three brand-string leaves, in turn
    pub brand: Vec<u32>,
}

/// Everything the snapshot is decided from, as read from the system.
#[derive(Debug, Clone)]
pub struct SystemReadings {
    /// The target architecture name, such as `"x86_64"`
    pub arch: String,
    /// The identification instruction's registers, where the platform has it
    pub cpuid: Option<CpuidReadings>,
    /// The text of the CPU metadata source, where it could be read
    pub cpuinfo: Option<String>,
    /// The entries of the per-CPU topology directory, where it could be listed
    pub topology: Option<Vec<TopologyEntry>>,
}

/// The vendor the readings name: from the vendor string where the instruction is
/// available, else from the metadata text; absent when neither can be had.
pub open spec fn fabricant_spec(r: SystemReadings) -> Option<FabricantModel> {
    match r.cpuid {
        Some(c) => Some(
            fabricant_of_vendor(register_bytes(seq![c.vendor_ebx, c.vendor_edx, c.vendor_ecx])),
        ),
        None => match r.cpuinfo {
            Some(t) => Some(fabricant_of_info(t@)),
            None => None,
        },
    }
}

/// The model name the readings give: the brand string where the instruction
/// gives one, else the `model name` line of the metadata text.
pub open spec fn model_spec(r: SystemReadings) -> Option<Seq<char>> {
    match r.cpuid {
        Some(c) if model_of_brand(c.max_extended_leaf, c.brand@) is Some => model_of_brand(
            c.max_extended_leaf,
            c.brand@,
        ),
        _ => match r.cpuinfo {
            Some(t) => find_value(t@, 0, InfoKey::ModelName),
            None => None,
        },
    }
}

/// The cores that the readings' topology entries describe.
pub open spec fn cores_spec(r: SystemReadings) -> Seq<Core> {
    match r.topology {
        Some(v) => cores_of(v@),
        None => seq![],
    }
}

/// A snapshot of the CPU's identity and topology.
#[derive(Debug, Clone)]
pub struct CpuInfo {
    /// CPU architecture type (x86, x86_64, ARM, ARM64, etc.)
    pub architecture: CpuArchitecture,
    /// CPU manufacturer/vendor
    pub fabricant: Fabricant,
    /// CPU model name
    pub model: String,
    /// Total number of logical cores (threads)
    pub total_logical_cores: Option<usize>,
    /// Total number of physical cores
    pub total_physical_cores: Option<usize>,
    /// Core distribution information (uniform or hybrid)
    pub distribution: DistributionCore,
}

impl CpuInfo {
    /// Builds the snapshot from what was read of the system. Every part that
    /// cannot be had falls back to a default: `Unknown` vendor, model
    /// `"Unknown"`, absent counts, `Lineal` at 0 MHz.
    pub fn new(readings: &SystemReadings) -> (r: CpuInfo)
        ensures
            r.architecture == architecture_of(readings.arch@),
            r.fabricant@ == fabricant_spec(*readings).unwrap_or(FabricantModel::Unknown),
            r.model@ == model_spec(*readings).unwrap_or("Unknown"@),
            r.total_logical_cores == logical_count(readings.topology),
            r.total_physical_cores == physical_count(cores_spec(*readings), readings.topology),
            r.distribution@ == distribution_of(cores_spec(*readings)),
            r.total_physical_cores matches Some(p) ==> (r.total_logical_cores matches Some(l) ==> p
                <= l),
    {
        let total_logical_cores = Self::get_total_logical_cores(&readings.topology);
        let cores = Self::get_cores(&readings.topology);
        let total_physical_cores = count_physical_cores(&cores, &readings.topology);
        proof {
            if readings.topology is Some {
                lemma_cores_count(readings.topology->0@);
            }
        }
        let distribution = Self::detect_distribution(&cores);
        let fabricant = match Self::get_fabricant(readings) {
            Some(f) => f,
            None => Fabricant::Unknown,
        };
        let model = match Self::get_model(readings) {
            Some(m) => m,
            None => "Unknown".to_owned(),
        };
        CpuInfo {
            architecture: Self::get_architecture(readings.arch.as_str()),
            fabricant,
            model,
            total_logical_cores,
            total_physical_cores,
            distribution,
        }
    }

    /// The vendor: from the instruction's vendor string where it is available,
    /// else from the metadata text; `None` when neither could be read.
    pub fn get_fabricant(readings: &SystemReadings) -> (r: Option<Fabricant>)
        ensures
            r matches Some(f) ==> fabricant_spec(*readings) == Some(f@),
            r is None ==> fabricant_spec(*readings) is None,
    {
        match &readings.cpuid {
            Some(c) => Some(Self::get_fabricant_cpuid(c.vendor_ebx, c.vendor_edx, c.vendor_ecx)),
            None => match &readings.cpuinfo {
                Some(t) => Some(Self::get_fabricant_arm(t.as_str())),
                None => None,
            },
        }
    }

    /// The model name: the instruction's brand string where it gives one, else
    /// the metadata text's `model name` line; `None` when neither does.
    pub fn get_model(readings: &SystemReadings) -> (r: Option<String>)
        ensures
            r matches Some(m) ==> model_spec(*readings) == Some(m@),
            r is None ==> model_spec(*readings) is None,
    {
        if let Some(c) = &readings.cpuid {
            if let Some(m) = Self::get_model_cpuid(c.max_extended_leaf, c.brand.as_slice()) {
                return Some(m);
            }
        }
        match &readings.cpuinfo {
            Some(t) => Self::get_model_procfs(t.as_str()),
            None => None,
        }
    }
}

/// The readings differ at most in what the frequency files hold: the same
/// architecture name, registers, metadata text, and topology entries of the same
/// names and core ids.
pub open spec fn same_but_frequencies(a: SystemReadings, b: SystemReadings) -> bool {
    &&& a.arch@ == b.arch@
    &&& a.cpuid == b.cpuid
    &&& a.cpuinfo == b.cpuinfo
    &&& match (a.topology, b.topology) {
        (None, None) => true,
        (Some(x), Some(y)) => x@.len() == y@.len() && forall|i: int|
            0 <= i < x@.len() ==> #[trigger] x@[i].name@ == y@[i].name@ && x@[i].core_id
                == y@[i].core_id,
        _ => false,
    }
}

/// Two snapshots built from readings that differ only in core frequencies agree
/// on architecture, vendor, model, and the logical and physical core counts.
pub proof fn lemma_snapshot_stable(a: SystemReadings, b: SystemReadings)
    requires
        same_but_frequencies(a, b),
    ensures
        architecture_of(a.arch@) == architecture_of(b.arch@),
        fabricant_spec(a) == fabricant_spec(b),
        model_spec(a) == model_spec(b),
        logical_count(a.topology) == logical_count(b.topology),
        physical_count(cores_spec(a), a.topology) == physical_count(cores_spec(b), b.topology),
{
    if a.topology is Some {
        let x = a.topology->0@;
        let y = b.topology->0@;
        lemma_topology_same_but_frequencies(x, y);
    }
}

proof fn lemma_topology_same_but_frequencies(x: Seq<TopologyEntry>, y: Seq<TopologyEntry>)
    requires
        x.len() == y.len(),
        forall|i: int|
            0 <= i < x.len() ==> #[trigger] x[i].name@ == y[i].name@ && x[i].core_id == y[i].core_id,
    ensures
        cpu_entry_count(x) == cpu_entry_count(y),
        group_ids(cores_of(x)) == group_ids(cores_of(y)),
        entry_core_ids(x) == entry_core_ids(y),
    decreases x.len(),
{
    if x.len() > 0 {
        let n = x.len() - 1;
        assert(x[n].name@ == y[n].name@);
        lemma_topology_same_but_frequencies(x.drop_last(), y.drop_last());
        let cx = cores_of(x.drop_last());
        let cy = cores_of(y.drop_last());
        match core_of(x.last()) {
            Some(c) => {
                assert(cores_of(x).drop_last() =~= cx);
                assert(cores_of(y).drop_last() =~= cy);
            },
            None => {},
        }
    }
}

} // verus!
