use cpu_info::distribution::sorted_by_speed;
use cpu_info::topology::{count_physical_cores, cpu_index_of, TopologyEntry};
use cpu_info::{
    Core, CpuArchitecture, CpuInfo, CpuidReadings, DistributionCore, Fabricant, SystemReadings,
};

fn regs_of(text: &[u8]) -> Vec<u32> {
    text.chunks(4)
        .map(|c| u32::from_le_bytes([c[0], c[1], c[2], c[3]]))
        .collect()
}

fn entry(name: &str, max: Option<&str>, scaling: Option<&str>, core: Option<&str>) -> TopologyEntry {
    TopologyEntry {
        name: name.to_string(),
        cpuinfo_max_freq: max.map(|s| s.to_string()),
        scaling_max_freq: scaling.map(|s| s.to_string()),
        core_id: core.map(|s| s.to_string()),
    }
}

fn cpuid_of(vendor: &[u8], max_extended_leaf: u32, brand: &[u8]) -> CpuidReadings {
    let v = regs_of(vendor);
    CpuidReadings {
        vendor_ebx: v[0],
        vendor_edx: v[1],
        vendor_ecx: v[2],
        max_extended_leaf,
        brand: regs_of(brand),
    }
}

fn brand48(s: &str) -> Vec<u8> {
    let mut b = s.as_bytes().to_vec();
    b.resize(48, b' ');
    b
}

fn speeds(cores: &[Core]) -> Vec<u32> {
    cores.iter().map(|c| c.speed_mhz).collect()
}

#[test]
fn core_new_keeps_fields() {
    let core = Core::new(0, 3600, Some(0));
    assert_eq!(core.id, 0);
    assert_eq!(core.speed_mhz, 3600);
    assert_eq!(core.physical_core_id, Some(0));
}

#[test]
fn physical_count_from_groups() {
    let cores = vec![Core::new(0, 0, Some(0)), Core::new(1, 0, Some(0)), Core::new(2, 0, Some(1))];
    assert_eq!(count_physical_cores(&cores, &None), Some(2));
}

#[test]
fn physical_count_falls_back_to_topology() {
    let cores = vec![Core::new(0, 0, None), Core::new(1, 0, None), Core::new(2, 0, None), Core::new(3, 0, None)];
    let topo = Some(vec![
        entry("cpu0", None, None, Some("0\n")),
        entry("cpu1", None, None, Some("1\n")),
        entry("cpu2", None, None, Some("2\n")),
        entry("cpu3", None, None, Some("3\n")),
    ]);
    assert_eq!(count_physical_cores(&cores, &topo), Some(4));
    let shared = Some(vec![
        entry("cpu0", None, None, Some("0\n")),
        entry("cpu1", None, None, Some("0\n")),
        entry("cpu2", None, None, Some("1\n")),
        entry("cpu3", None, None, Some("2\n")),
    ]);
    assert_eq!(count_physical_cores(&cores, &shared), Some(3));
    assert_eq!(count_physical_cores(&[], &shared), Some(3));
}

#[test]
fn physical_count_absent_without_ids() {
    let topo = Some(vec![entry("cpu0", None, None, None), entry("cpu1", None, None, Some("x"))]);
    assert_eq!(count_physical_cores(&[], &topo), None);
    assert_eq!(count_physical_cores(&[], &None), None);
    assert_eq!(CpuInfo::get_total_physical_cores_fallback(&topo), None);
}

#[test]
fn fallback_skips_entries_that_are_not_cores() {
    let topo = Some(vec![
        entry("cpufreq", None, None, Some("7")),
        entry("cpu0", None, None, Some(" 5 ")),
        entry("online", None, None, Some("9")),
    ]);
    assert_eq!(CpuInfo::get_total_physical_cores_fallback(&topo), Some(1));
}

#[test]
fn vendor_from_registers() {
    assert_eq!(CpuInfo::get_fabricant_cpuid(0x756e6547, 0x49656e69, 0x6c65746e), Fabricant::Intel);
    assert_eq!(CpuInfo::get_fabricant_cpuid(0x68747541, 0x69746e65, 0x444d4163), Fabricant::Amd);
    let v = regs_of(b"  VIA VIA   ");
    assert_eq!(CpuInfo::get_fabricant_cpuid(v[0], v[1], v[2]), Fabricant::Other("VIA VIA".to_string()));
    let h = regs_of(b"HygonGenuine");
    assert_eq!(CpuInfo::get_fabricant_cpuid(h[0], h[1], h[2]), Fabricant::Other("HygonGenuine".to_string()));
}

#[test]
fn vendor_with_invalid_bytes_is_decoded_lossily() {
    let v = regs_of(b"Ab\xffcdefghijk");
    assert_eq!(
        CpuInfo::get_fabricant_cpuid(v[0], v[1], v[2]),
        Fabricant::Other("Ab\u{fffd}cdefghijk".to_string())
    );
}

#[test]
fn model_falls_back_to_metadata_text() {
    let readings = SystemReadings {
        arch: "x86_64".to_string(),
        cpuid: Some(cpuid_of(b"GenuineIntel", 0x8000_0000, &brand48("Ignored"))),
        cpuinfo: Some("processor\t: 0\nmodel name\t: Example CPU X1\n".to_string()),
        topology: None,
    };
    assert_eq!(CpuInfo::get_model(&readings), Some("Example CPU X1".to_string()));
    let upper = SystemReadings { cpuid: None, cpuinfo: Some("Model Name : Example CPU X1".to_string()), ..readings };
    assert_eq!(CpuInfo::get_model(&upper), Some("Example CPU X1".to_string()));
}

#[test]
fn model_from_brand_string() {
    let mut b = b"  Intel(R) Core(TM) i7 CPU".to_vec();
    b.resize(48, b' ');
    let readings = SystemReadings {
        arch: "x86_64".to_string(),
        cpuid: Some(cpuid_of(b"GenuineIntel", 0x8000_0008, &b)),
        cpuinfo: Some("model name : Other".to_string()),
        topology: None,
    };
    assert_eq!(CpuInfo::get_model(&readings), Some("Intel(R) Core(TM) i7 CPU".to_string()));
    assert_eq!(CpuInfo::get_model_cpuid(0x8000_0003, &regs_of(&b)), None);
}

#[test]
fn empty_brand_string_is_a_failure() {
    assert_eq!(CpuInfo::get_model_cpuid(0x8000_0004, &regs_of(&brand48(""))), None);
}

#[test]
fn model_absent_when_no_source_names_it() {
    assert_eq!(CpuInfo::get_model_procfs("processor : 0\nvendor_id : X\n"), None);
    assert_eq!(CpuInfo::get_model_procfs(""), None);
    let readings = SystemReadings { arch: "arm".to_string(), cpuid: None, cpuinfo: None, topology: None };
    assert_eq!(CpuInfo::get_model(&readings), None);
    assert_eq!(CpuInfo::new(&readings).model, "Unknown");
}

#[test]
fn model_value_is_trimmed() {
    assert_eq!(CpuInfo::get_model_procfs("model name:   Neoverse  N1 \r\n"), Some("Neoverse  N1".to_string()));
    assert_eq!(CpuInfo::get_model_procfs("model:\nmodel name : A : B\n"), Some("A : B".to_string()));
}

#[test]
fn vendor_from_implementer_line() {
    assert_eq!(CpuInfo::get_fabricant_arm("processor : 0\nCPU implementer\t: 0x41\n"), Fabricant::Other("ARM".to_string()));
    assert_eq!(CpuInfo::get_fabricant_arm("CPU implementer : 0x51"), Fabricant::Other("Qualcomm".to_string()));
    assert_eq!(CpuInfo::get_fabricant_arm("CPU IMPLEMENTER : 61"), Fabricant::Other("Apple".to_string()));
    assert_eq!(CpuInfo::get_fabricant_arm("CPU implementer : 0xff"), Fabricant::Other("0xff".to_string()));
    assert_eq!(CpuInfo::get_fabricant_arm("CPU implementer : zz"), Fabricant::Other("zz".to_string()));
    assert_eq!(CpuInfo::get_fabricant_arm("processor : 0\n"), Fabricant::Unknown);
}

#[test]
fn vendor_source_follows_the_instruction() {
    let arm = SystemReadings {
        arch: "aarch64".to_string(),
        cpuid: None,
        cpuinfo: Some("CPU implementer : 0x4e\n".to_string()),
        topology: None,
    };
    assert_eq!(CpuInfo::get_fabricant(&arm), Some(Fabricant::Other("Nvidia".to_string())));
    let none = SystemReadings { cpuinfo: None, ..arm };
    assert_eq!(CpuInfo::get_fabricant(&none), None);
    assert_eq!(CpuInfo::new(&none).fabricant, Fabricant::Unknown);
}

#[test]
fn architecture_names() {
    assert_eq!(CpuInfo::get_architecture("x86_64"), CpuArchitecture::X86_64);
    assert_eq!(CpuInfo::get_architecture("aarch64"), CpuArchitecture::ARM64);
    assert_eq!(CpuInfo::get_architecture("arm"), CpuArchitecture::ARM);
    assert_eq!(CpuInfo::get_architecture("x86"), CpuArchitecture::X86);
    assert_eq!(CpuInfo::get_architecture("riscv64"), CpuArchitecture::Unknown);
}

#[test]
fn unreadable_topology_gives_no_cores() {
    assert!(CpuInfo::get_cores(&None).is_empty());
    assert_eq!(CpuInfo::get_total_logical_cores(&None), None);
}

#[test]
fn cores_read_from_entries() {
    let topo = Some(vec![
        entry("cpu0", Some("3600000\n"), Some("1000"), Some("0\n")),
        entry("cpufreq", Some("1"), None, None),
        entry("cpu1", None, Some("2400000\n"), None),
        entry("cpu12", Some("oops"), Some("2400000"), Some("3")),
        entry("cpux", None, None, None),
    ]);
    let cores = CpuInfo::get_cores(&topo);
    assert_eq!(
        cores,
        vec![Core::new(0, 3600, Some(0)), Core::new(1, 2400, None), Core::new(12, 0, Some(3))]
    );
    assert_eq!(CpuInfo::get_total_logical_cores(&topo), Some(3));
    assert_eq!(CpuInfo::get_total_logical_cores(&Some(vec![entry("online", None, None, None)])), None);
}

#[test]
fn distribution_uniform_cases() {
    assert!(matches!(CpuInfo::detect_distribution(&[]), DistributionCore::Lineal { mhz: 0 }));
    let zeros = vec![Core::new(0, 0, None), Core::new(1, 0, None)];
    assert!(matches!(CpuInfo::detect_distribution(&zeros), DistributionCore::Lineal { mhz: 0 }));
    let same = vec![Core::new(0, 3000, None), Core::new(1, 3000, None), Core::new(2, 3000, None)];
    assert!(matches!(CpuInfo::detect_distribution(&same), DistributionCore::Lineal { mhz: 3000 }));
}

#[test]
fn distribution_hybrid_is_sorted_and_stable() {
    let cores = vec![
        Core::new(0, 4800, Some(0)),
        Core::new(1, 3600, Some(1)),
        Core::new(2, 4800, Some(2)),
        Core::new(3, 0, None),
    ];
    match CpuInfo::detect_distribution(&cores) {
        DistributionCore::Hybrid { groups } => {
            assert_eq!(speeds(&groups), vec![0, 3600, 4800, 4800]);
            assert_eq!(groups.iter().map(|c| c.id).collect::<Vec<_>>(), vec![3, 1, 0, 2]);
        }
        other => panic!("expected a hybrid layout, got {:?}", other),
    }
    let one_known = vec![Core::new(0, 0, None), Core::new(1, 2000, None)];
    assert!(matches!(CpuInfo::detect_distribution(&one_known), DistributionCore::Hybrid { .. }));
}

#[test]
fn distribution_ignores_input_order() {
    let a = vec![Core::new(0, 1800, None), Core::new(1, 3600, None), Core::new(2, 2400, None)];
    let b = vec![Core::new(2, 2400, None), Core::new(0, 1800, None), Core::new(1, 3600, None)];
    match (CpuInfo::detect_distribution(&a), CpuInfo::detect_distribution(&b)) {
        (DistributionCore::Hybrid { groups: x }, DistributionCore::Hybrid { groups: y }) => assert_eq!(x, y),
        _ => panic!("expected two hybrid layouts"),
    }
    assert_eq!(sorted_by_speed(&a), sorted_by_speed(&b));
}

fn sample_readings(freq: &str) -> SystemReadings {
    SystemReadings {
        arch: "x86_64".to_string(),
        cpuid: Some(cpuid_of(b"AuthenticAMD", 0x8000_0008, &brand48("AMD Ryzen 5 5600X 6-Core Processor"))),
        cpuinfo: None,
        topology: Some(vec![
            entry("cpu0", Some(freq), None, Some("0")),
            entry("cpu1", Some("4650000"), None, Some("0")),
            entry("cpu2", Some("4650000"), None, Some("1")),
            entry("cpu3", Some("4650000"), None, Some("1")),
            entry("cpufreq", None, None, None),
        ]),
    }
}

#[test]
fn snapshot_counts_and_identity() {
    let info = CpuInfo::new(&sample_readings("4650000"));
    assert_eq!(info.architecture, CpuArchitecture::X86_64);
    assert_eq!(info.fabricant, Fabricant::Amd);
    assert_eq!(info.model, "AMD Ryzen 5 5600X 6-Core Processor");
    assert_eq!(info.total_logical_cores, Some(4));
    assert_eq!(info.total_physical_cores, Some(2));
    assert!(info.total_physical_cores.unwrap() <= info.total_logical_cores.unwrap());
    assert!(matches!(info.distribution, DistributionCore::Lineal { mhz: 4650 }));
}

#[test]
fn snapshot_is_stable_across_calls() {
    let a = CpuInfo::new(&sample_readings("4650000"));
    let b = CpuInfo::new(&sample_readings("3000000"));
    assert_eq!(a.architecture, b.architecture);
    assert_eq!(a.fabricant, b.fabricant);
    assert_eq!(a.model, b.model);
    assert_eq!(a.total_logical_cores, b.total_logical_cores);
    assert_eq!(a.total_physical_cores, b.total_physical_cores);
    assert!(matches!(b.distribution, DistributionCore::Hybrid { .. }));
}

#[test]
fn snapshot_without_any_source() {
    let info = CpuInfo::new(&SystemReadings { arch: "mips".to_string(), cpuid: None, cpuinfo: None, topology: None });
    assert_eq!(info.architecture, CpuArchitecture::Unknown);
    assert_eq!(info.fabricant, Fabricant::Unknown);
    assert_eq!(info.model, "Unknown");
    assert_eq!(info.total_logical_cores, None);
    assert_eq!(info.total_physical_cores, None);
    assert!(matches!(info.distribution, DistributionCore::Lineal { mhz: 0 }));
}

#[test]
fn core_names_parse_like_decimal_numbers() {
    assert_eq!(cpu_index_of("cpu0"), Some(0));
    assert_eq!(cpu_index_of("cpu+7"), Some(7));
    assert_eq!(cpu_index_of("cpu4294967295"), Some(u32::MAX));
    assert_eq!(cpu_index_of("cpu4294967296"), None);
    assert_eq!(cpu_index_of("cpu"), None);
    assert_eq!(cpu_index_of("cpu-1"), None);
    assert_eq!(cpu_index_of("cpu1a"), None);
    assert_eq!(cpu_index_of("CPU1"), None);
}

#[test]
fn frequency_converts_khz_to_mhz() {
    let topo = Some(vec![
        entry("cpu0", Some(" 3599999 "), None, None),
        entry("cpu1", Some("4294967295"), None, None),
        entry("cpu2", Some("4294967296"), None, None),
    ]);
    assert_eq!(speeds(&CpuInfo::get_cores(&topo)), vec![3599, 4294967, 0]);
}

#[test]
fn implementer_with_bad_hex_keeps_raw_text() {
    assert_eq!(CpuInfo::get_fabricant_arm("CPU implementer : 0x"), Fabricant::Other("0x".to_string()));
    assert_eq!(CpuInfo::get_fabricant_arm("implementer: 0X41"), Fabricant::Other("0X41".to_string()));
    assert_eq!(CpuInfo::get_fabricant_arm("implementer: 0x+41"), Fabricant::Other("ARM".to_string()));
}
