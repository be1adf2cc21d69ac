//! The per-CPU topology entries: enumeration of the logical cores, and the
//! logical and physical core counts.
use vstd::prelude::*;

use crate::text::{chars_of, parse_u32, parse_u32_spec, trim, trim_range};
use crate::{Core, CpuInfo};

verus! {

/// What was read for one entry of the topology directory: its name, and the
/// contents of its frequency and core-id files where they could be read.
#[derive(Debug, Clone)]
pub struct TopologyEntry {
    /// The entry's name, such as `cpu3`
    pub name: String,
    /// The maximum frequency in kHz, from the driver's own limit
    pub cpuinfo_max_freq: Option<String>,
    /// The maximum frequency in kHz, from the scaling governor's limit
    pub scaling_max_freq: Option<String>,
    /// The physical core id from the topology files
    pub core_id: Option<String>,
}

/// The logical core id of an entry named `cpu` followed by a decimal number.
pub open spec fn cpu_index(name: Seq<char>) -> Option<u32> {
    if name.len() >= 3 && name.subrange(0, 3) == "cpu"@ {
        parse_u32_spec(name.subrange(3, name.len() as int), 10)
    } else {
        None
    }
}

/// A file's contents read as a decimal number, surrounding whitespace aside.
pub open spec fn number_in(t: Option<String>) -> Option<u32> {
    match t {
        Some(s) => parse_u32_spec(trim(s@), 10),
        None => None,
    }
}

/// The maximum frequency in kHz: from the first frequency file that could be
/// read, 0 when neither could be or its contents are no number.
pub open spec fn speed_khz(e: TopologyEntry) -> u32 {
    if e.cpuinfo_max_freq is Some {
        number_in(e.cpuinfo_max_freq).unwrap_or(0)
    } else {
        number_in(e.scaling_max_freq).unwrap_or(0)
    }
}

/// The core that an entry describes, when its name is that of a logical core.
pub open spec fn core_of(e: TopologyEntry) -> Option<Core> {
    match cpu_index(e.name@) {
        Some(id) => Some(
            Core { id, speed_mhz: (speed_khz(e) / 1000) as u32, physical_core_id: number_in(e.core_id) },
        ),
        None => None,
    }
}

/// The cores that the entries describe, in the order of the entries.
pub open spec fn cores_of(s: Seq<TopologyEntry>) -> Seq<Core>
    decreases s.len(),
{
    if s.len() == 0 {
        seq![]
    } else {
        match core_of(s.last()) {
            Some(c) => cores_of(s.drop_last()).push(c),
            None => cores_of(s.drop_last()),
        }
    }
}

/// The number of entries whose name is that of a logical core.
pub open spec fn cpu_entry_count(s: Seq<TopologyEntry>) -> nat
    decreases s.len(),
{
    if s.len() == 0 {
        0
    } else if cpu_index(s.last().name@) is Some {
        cpu_entry_count(s.drop_last()) + 1
    } else {
        cpu_entry_count(s.drop_last())
    }
}

/// The physical core ids that the cores carry.
pub open spec fn group_ids(cores: Seq<Core>) -> Set<u32>
    decreases cores.len(),
{
    if cores.len() == 0 {
        Set::empty()
    } else {
        match cores.last().physical_core_id {
            Some(g) => group_ids(cores.drop_last()).insert(g),
            None => group_ids(cores.drop_last()),
        }
    }
}

/// The core ids read directly from the entries of logical cores.
pub open spec fn entry_core_ids(s: Seq<TopologyEntry>) -> Set<u32>
    decreases s.len(),
{
    if s.len() == 0 {
        Set::empty()
    } else {
        match number_in(s.last().core_id) {
            Some(g) if cpu_index(s.last().name@) is Some => entry_core_ids(s.drop_last()).insert(g),
            _ => entry_core_ids(s.drop_last()),
        }
    }
}

/// The number of logical cores: absent when the directory could not be read or
/// holds no entry of a logical core.
pub open spec fn logical_count(t: Option<Vec<TopologyEntry>>) -> Option<usize> {
    match t {
        Some(v) if cpu_entry_count(v@) > 0 => Some(cpu_entry_count(v@) as usize),
        _ => None,
    }
}

/// The number of distinct core ids read directly from the entries: absent when
/// none could be read.
pub open spec fn fallback_count(t: Option<Vec<TopologyEntry>>) -> Option<usize> {
    match t {
        Some(v) if entry_core_ids(v@).len() > 0 => Some(entry_core_ids(v@).len() as usize),
        _ => None,
    }
}

/// The number of physical cores: the distinct ids that the cores carry, or, when
/// they carry none, the count read directly from the topology entries.
pub open spec fn physical_count(cores: Seq<Core>, t: Option<Vec<TopologyEntry>>) -> Option<usize> {
    if group_ids(cores).len() > 0 {
        Some(group_ids(cores).len() as usize)
    } else {
        fallback_count(t)
    }
}

/// A file's contents read as a decimal number, as `number_in` defines it.
fn number_from(t: &Option<String>) -> (r: Option<u32>)
    ensures
        r == number_in(*t),
{
    match t {
        Some(s) => {
            let c = chars_of(s.as_str());
            let (a, b) = trim_range(&c, 0, c.len());
            assert(c@.subrange(0, c@.len() as int) =~= c@);
            parse_u32(&c, a, b, 10)
        },
        None => None,
    }
}

/// The logical core id of an entry named `cpu` followed by a decimal number.
pub fn cpu_index_of(name: &str) -> (r: Option<u32>)
    ensures
        r == cpu_index(name@),
{
    let c = chars_of(name);
    if c.len() >= 3 && c[0] == 'c' && c[1] == 'p' && c[2] == 'u' {
        proof {
            reveal_strlit("cpu");
            assert(c@.subrange(0, 3) =~= "cpu"@);
        }
        parse_u32(&c, 3, c.len(), 10)
    } else {
        proof {
            reveal_strlit("cpu");
            if c@.len() >= 3 {
                assert(c@.subrange(0, 3)[0] == c@[0]);
                assert(c@.subrange(0, 3)[1] == c@[1]);
                assert(c@.subrange(0, 3)[2] == c@[2]);
            }
        }
        None
    }
}

/// The core that an entry describes, as `core_of` defines it.
fn core_from(e: &TopologyEntry) -> (r: Option<Core>)
    ensures
        r == core_of(*e),
{
    match cpu_index_of(e.name.as_str()) {
        Some(id) => {
            let khz = if e.cpuinfo_max_freq.is_some() {
                number_from(&e.cpuinfo_max_freq)
            } else {
                number_from(&e.scaling_max_freq)
            };
            let khz = match khz {
                Some(k) => k,
                None => 0,
            };
            Some(Core { id, speed_mhz: khz / 1000, physical_core_id: number_from(&e.core_id) })
        },
        None => None,
    }
}

/// Adds `g` to the ids seen unless it is among them.
fn add_distinct(seen: &mut Vec<u32>, g: u32)
    requires
        old(seen)@.no_duplicates(),
    ensures
        final(seen)@.no_duplicates(),
        final(seen)@.to_set() == old(seen)@.to_set().insert(g),
        final(seen)@.len() <= old(seen)@.len() + 1,
{
    let mut i: usize = 0;
    while i < seen.len()
        invariant
            seen@ == old(seen)@,
            seen@.no_duplicates(),
            i <= seen@.len(),
            forall|k: int| 0 <= k < i ==> seen@[k] != g,
        decreases seen@.len() - i,
    {
        if seen[i] == g {
            assert(seen@.to_set().contains(g));
            assert(seen@.to_set().insert(g) =~= seen@.to_set());
            return;
        }
        i = i + 1;
    }
    let ghost before = seen@;
    seen.push(g);
    assert(seen@.to_set() =~= before.to_set().insert(g)) by {
        assert forall|x: u32| seen@.to_set().contains(x) <==> before.to_set().insert(g).contains(x) by {
            if seen@.contains(x) && x != g {
                let k = choose|k: int| 0 <= k < seen@.len() && seen@[k] == x;
                assert(before[k] == x);
            }
            if before.contains(x) {
                let k = choose|k: int| 0 <= k < before.len() && before[k] == x;
                assert(seen@[k] == x);
            }
            if x == g {
                assert(seen@[before.len() as int] == g);
            }
        }
    }
}

/// The number of distinct physical core ids that the cores carry.
pub fn count_group_ids(cores: &[Core]) -> (r: usize)
    ensures
        group_ids(cores@).finite(),
        r == group_ids(cores@).len(),
        r <= cores@.len(),
{
    let mut seen: Vec<u32> = Vec::new();
    let mut i: usize = 0;
    while i < cores.len()
        invariant
            i <= cores@.len(),
            seen@.no_duplicates(),
            seen@.to_set() == group_ids(cores@.subrange(0, i as int)),
            seen@.len() <= i,
        decreases cores@.len() - i,
    {
        assert(cores@.subrange(0, i + 1).drop_last() =~= cores@.subrange(0, i as int));
        match cores[i].physical_core_id {
            Some(g) => add_distinct(&mut seen, g),
            None => {},
        }
        i = i + 1;
    }
    assert(cores@.subrange(0, i as int) =~= cores@);
    proof {
        seen@.unique_seq_to_set();
    }
    seen.len()
}

/// The number of physical cores: the distinct ids that the cores carry, or,
/// when they carry none, the count read directly from the topology entries.
pub fn count_physical_cores(cores: &[Core], topology: &Option<Vec<TopologyEntry>>) -> (r: Option<
    usize,
>)
    ensures
        r == physical_count(cores@, *topology),
        r matches Some(n) ==> (n <= cores@.len() || (topology matches Some(v) && n
            <= cpu_entry_count(v@))),
{
    let n = count_group_ids(cores);
    if n > 0 {
        Some(n)
    } else {
        CpuInfo::get_total_physical_cores_fallback(topology)
    }
}

/// Each entry of a logical core gives one core.
pub proof fn lemma_cores_count(s: Seq<TopologyEntry>)
    ensures
        cores_of(s).len() == cpu_entry_count(s),
    decreases s.len(),
{
    if s.len() > 0 {
        lemma_cores_count(s.drop_last());
    }
}

impl CpuInfo {
    /// The cores that the topology entries describe; none when the directory could
    /// not be read.
    pub fn get_cores(topology: &Option<Vec<TopologyEntry>>) -> (r: Vec<Core>)
        ensures
            r@ == match *topology {
                Some(v) => cores_of(v@),
                None => seq![],
            },
    {
        let mut cores: Vec<Core> = Vec::new();
        match topology {
            None => cores,
            Some(entries) => {
                let mut i: usize = 0;
                while i < entries.len()
                    invariant
                        i <= entries@.len(),
                        cores@ == cores_of(entries@.subrange(0, i as int)),
                    decreases entries@.len() - i,
                {
                    assert(entries@.subrange(0, i + 1).drop_last() =~= entries@.subrange(0, i as int));
                    match core_from(&entries[i]) {
                        Some(c) => cores.push(c),
                        None => {},
                    }
                    i = i + 1;
                }
                assert(entries@.subrange(0, i as int) =~= entries@);
                cores
            },
        }
    }

    /// The number of entries whose name is that of a logical core.
    pub fn get_total_logical_cores(topology: &Option<Vec<TopologyEntry>>) -> (r: Option<usize>)
        ensures
            r == logical_count(*topology),
    {
        match topology {
            None => None,
            Some(entries) => {
                let mut count: usize = 0;
                let mut i: usize = 0;
                while i < entries.len()
                    invariant
                        i <= entries@.len(),
                        count == cpu_entry_count(entries@.subrange(0, i as int)),
                        count <= i,
                    decreases entries@.len() - i,
                {
                    assert(entries@.subrange(0, i + 1).drop_last() =~= entries@.subrange(0, i as int));
                    if cpu_index_of(entries[i].name.as_str()).is_some() {
                        count = count + 1;
                    }
                    i = i + 1;
                }
                assert(entries@.subrange(0, i as int) =~= entries@);
                if count > 0 {
                    Some(count)
                } else {
                    None
                }
            },
        }
    }

    /// The number of distinct core ids read directly from the entries of logical
    /// cores; absent when the directory could not be read or no id could be.
    pub fn get_total_physical_cores_fallback(topology: &Option<Vec<TopologyEntry>>) -> (r: Option<
        usize,
    >)
        ensures
            r == fallback_count(*topology),
            r matches Some(n) ==> topology matches Some(v) && entry_core_ids(v@).finite() && n
                <= cpu_entry_count(v@),
    {
        match topology {
            None => None,
            Some(entries) => {
                let mut seen: Vec<u32> = Vec::new();
                let mut i: usize = 0;
                while i < entries.len()
                    invariant
                        i <= entries@.len(),
                        seen@.no_duplicates(),
                        seen@.to_set() == entry_core_ids(entries@.subrange(0, i as int)),
                        seen@.len() <= cpu_entry_count(entries@.subrange(0, i as int)),
                    decreases entries@.len() - i,
                {
                    assert(entries@.subrange(0, i + 1).drop_last() =~= entries@.subrange(0, i as int));
                    if cpu_index_of(entries[i].name.as_str()).is_some() {
                        match number_from(&entries[i].core_id) {
                            Some(g) => add_distinct(&mut seen, g),
                            None => {},
                        }
                    }
                    i = i + 1;
                }
                assert(entries@.subrange(0, i as int) =~= entries@);
                proof {
                    seen@.unique_seq_to_set();
                }
                if seen.len() > 0 {
                    Some(seen.len())
                } else {
                    None
                }
            },
        }
    }
}

} // verus!
