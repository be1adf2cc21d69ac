//! Identification of the CPU: architecture, vendor and model name, from the
//! registers of the identification instruction or from the metadata text.
use vstd::prelude::*;

use crate::text::{
    chars_of, contains, contains_chars, copy_range, eq_ignore_ascii_case, eq_ignore_case, find_char,
    find_from, lemma_find_from_bounds, lossy_of, lower_of, lowercase, parse_u32, parse_u32_spec,
    string_of, trim, trim_range, utf8_lossy,
};
use crate::{CpuArchitecture, CpuInfo, Fabricant, FabricantModel};

verus! {

/// The architecture named by a target architecture string such as `"x86_64"`.
pub open spec fn architecture_of(name: Seq<char>) -> CpuArchitecture {
    if name == "x86_64"@ {
        CpuArchitecture::X86_64
    } else if name == "aarch64"@ {
        CpuArchitecture::ARM64
    } else if name == "arm"@ {
        CpuArchitecture::ARM
    } else if name == "x86"@ {
        CpuArchitecture::X86
    } else {
        CpuArchitecture::Unknown
    }
}

/// The four bytes of a register, least significant first.
pub open spec fn le_bytes(x: u32) -> Seq<u8> {
    seq![(x & 0xff) as u8, ((x >> 8u32) & 0xff) as u8, ((x >> 16u32) & 0xff) as u8, ((x >> 24u32) & 0xff) as u8]
}

/// The bytes of a sequence of registers, each least significant byte first.
pub open spec fn register_bytes(regs: Seq<u32>) -> Seq<u8>
    decreases regs.len(),
{
    if regs.len() == 0 {
        seq![]
    } else {
        register_bytes(regs.drop_last()) + le_bytes(regs.last())
    }
}

/// The vendor string `"GenuineIntel"` as bytes.
pub open spec fn intel_vendor() -> Seq<u8> {
    seq![0x47u8, 0x65, 0x6e, 0x75, 0x69, 0x6e, 0x65, 0x49, 0x6e, 0x74, 0x65, 0x6c]
}

/// The vendor string `"AuthenticAMD"` as bytes.
pub open spec fn amd_vendor() -> Seq<u8> {
    seq![0x41u8, 0x75, 0x74, 0x68, 0x65, 0x6e, 0x74, 0x69, 0x63, 0x41, 0x4d, 0x44]
}

/// The vendor named by the vendor string of the base identification leaf.
pub open spec fn fabricant_of_vendor(b: Seq<u8>) -> FabricantModel {
    if b == intel_vendor() {
        FabricantModel::Intel
    } else if b == amd_vendor() {
        FabricantModel::Amd
    } else {
        FabricantModel::Other(trim(lossy_of(b)))
    }
}

/// The model name given by the brand-string leaves, when the highest extended
/// leaf reaches them and the trimmed string is not empty.
pub open spec fn model_of_brand(max_extended_leaf: u32, regs: Seq<u32>) -> Option<Seq<char>> {
    let m = trim(lossy_of(register_bytes(regs)));
    if max_extended_leaf < 0x8000_0004 || m.len() == 0 {
        None
    } else {
        Some(m)
    }
}

/// The keys looked up in the metadata text.
#[derive(Clone, Copy, PartialEq, Eq, Structural)]
pub enum InfoKey {
    /// The key that equals `model name`, ignoring ASCII case
    ModelName,
    /// A key whose lower case holds `implementer`
    Implementer,
}

pub open spec fn key_matches(k: InfoKey, key: Seq<char>) -> bool {
    match k {
        InfoKey::ModelName => eq_ignore_ascii_case(key, "model name"@),
        InfoKey::Implementer => contains(lower_of(key), "implementer"@),
    }
}

/// The trimmed value of the line `s[start..end]` when it holds a colon and the
/// trimmed text before the first colon is the key sought.
pub open spec fn line_value(s: Seq<char>, start: int, end: int, k: InfoKey) -> Option<Seq<char>> {
    let c = find_from(s, start, end, ':');
    if c < end && key_matches(k, trim(s.subrange(start, c))) {
        Some(trim(s.subrange(c + 1, end)))
    } else {
        None
    }
}

/// The value of the first line, from `start` on, whose key is the one sought.
/// Lines end at `'\n'`.
pub open spec fn find_value(s: Seq<char>, start: int, k: InfoKey) -> Option<Seq<char>>
    decreases s.len() - start,
{
    if start < 0 || start >= s.len() {
        None
    } else {
        proof {
            lemma_find_from_bounds(s, start, s.len() as int, '\n');
        }
        let e = find_from(s, start, s.len() as int, '\n');
        if line_value(s, start, e, k) is Some {
            line_value(s, start, e, k)
        } else if e >= s.len() {
            None
        } else {
            find_value(s, e + 1, k)
        }
    }
}

/// What a known implementer code names.
pub open spec fn implementer_name(code: u32) -> Option<Seq<char>> {
    if code == 0x41 {
        Some("ARM"@)
    } else if code == 0x42 {
        Some("Broadcom"@)
    } else if code == 0x43 {
        Some("Cavium"@)
    } else if code == 0x44 {
        Some("DEC"@)
    } else if code == 0x4e {
        Some("Nvidia"@)
    } else if code == 0x50 {
        Some("APM"@)
    } else if code == 0x51 {
        Some("Qualcomm"@)
    } else if code == 0x56 {
        Some("Marvell"@)
    } else if code == 0x61 {
        Some("Apple"@)
    } else {
        None
    }
}

/// An implementer value read as hexadecimal, with or without a `0x` prefix.
pub open spec fn implementer_code(v: Seq<char>) -> Option<u32> {
    if v.len() >= 2 && v[0] == '0' && v[1] == 'x' {
        parse_u32_spec(v.subrange(2, v.len() as int), 16)
    } else {
        parse_u32_spec(v, 16)
    }
}

/// The vendor named by the metadata text: `Unknown` without an implementer line,
/// the known name of its code, or else the value as written.
pub open spec fn fabricant_of_info(s: Seq<char>) -> FabricantModel {
    match find_value(s, 0, InfoKey::Implementer) {
        None => FabricantModel::Unknown,
        Some(v) => match implementer_code(v) {
            Some(code) if implementer_name(code) is Some => FabricantModel::Other(
                implementer_name(code)->0,
            ),
            _ => FabricantModel::Other(v),
        },
    }
}

/// Whether the two character sequences are equal.
fn same_chars(a: &[char], b: &[char]) -> (r: bool)
    ensures
        r == (a@ == b@),
{
    if a.len() != b.len() {
        return false;
    }
    let mut i: usize = 0;
    while i < a.len()
        invariant
            a@.len() == b@.len(),
            i <= a@.len(),
            forall|k: int| 0 <= k < i ==> a@[k] == b@[k],
        decreases a@.len() - i,
    {
        if a[i] != b[i] {
            return false;
        }
        i = i + 1;
    }
    assert(a@ =~= b@);
    true
}

/// Whether the two byte sequences are equal.
fn same_bytes(a: &[u8], b: &[u8]) -> (r: bool)
    ensures
        r == (a@ == b@),
{
    if a.len() != b.len() {
        return false;
    }
    let mut i: usize = 0;
    while i < a.len()
        invariant
            a@.len() == b@.len(),
            i <= a@.len(),
            forall|k: int| 0 <= k < i ==> a@[k] == b@[k],
        decreases a@.len() - i,
    {
        if a[i] != b[i] {
            return false;
        }
        i = i + 1;
    }
    assert(a@ =~= b@);
    true
}

/// Appends the register's bytes, least significant first.
fn push_le_bytes(v: &mut Vec<u8>, x: u32)
    ensures
        final(v)@ == old(v)@ + le_bytes(x),
{
    v.push((x & 0xff) as u8);
    v.push(((x >> 8u32) & 0xff) as u8);
    v.push(((x >> 16u32) & 0xff) as u8);
    v.push(((x >> 24u32) & 0xff) as u8);
    assert(final(v)@ =~= old(v)@ + le_bytes(x));
}

/// The bytes of the registers, each least significant byte first.
pub fn registers_to_bytes(regs: &[u32]) -> (r: Vec<u8>)
    ensures
        r@ == register_bytes(regs@),
{
    let mut r: Vec<u8> = Vec::new();
    let mut i: usize = 0;
    while i < regs.len()
        invariant
            i <= regs@.len(),
            r@ == register_bytes(regs@.subrange(0, i as int)),
        decreases regs@.len() - i,
    {
        assert(regs@.subrange(0, i + 1).drop_last() =~= regs@.subrange(0, i as int));
        push_le_bytes(&mut r, regs[i]);
        i = i + 1;
    }
    assert(regs@.subrange(0, i as int) =~= regs@);
    r
}

/// The string of `s` with surrounding whitespace removed.
pub fn trimmed(s: &[char]) -> (r: String)
    ensures
        r@ == trim(s@),
{
    let (a, b) = trim_range(s, 0, s.len());
    assert(s@.subrange(0, s@.len() as int) =~= s@);
    string_of(&copy_range(s, a, b))
}

/// Whether `key` is the key sought, as `key_matches` defines it.
fn key_matches_exec(k: InfoKey, key: &[char]) -> (r: bool)
    ensures
        r == key_matches(k, key@),
{
    match k {
        InfoKey::ModelName => eq_ignore_case(key, &chars_of("model name")),
        InfoKey::Implementer => {
            let lower = lowercase(string_of(key).as_str());
            contains_chars(&chars_of(lower.as_str()), &chars_of("implementer"))
        },
    }
}

/// The bounds of the value that `find_value` gives from the start of `s`.
pub fn find_value_range(s: &[char], k: InfoKey) -> (r: Option<(usize, usize)>)
    ensures
        r matches Some((a, b)) ==> a <= b <= s@.len() && find_value(s@, 0, k) == Some(
            s@.subrange(a as int, b as int),
        ),
        r is None ==> find_value(s@, 0, k) is None,
{
    let n = s.len();
    let mut start: usize = 0;
    while start < n
        invariant
            n == s@.len(),
            start <= n,
            find_value(s@, 0, k) == find_value(s@, start as int, k),
        decreases n - start,
    {
        let e = find_char(s, start, n, '\n');
        let c = find_char(s, start, e, ':');
        if c < e {
            let (ka, kb) = trim_range(s, start, c);
            if key_matches_exec(k, &copy_range(s, ka, kb)) {
                let (va, vb) = trim_range(s, c + 1, e);
                return Some((va, vb));
            }
        }
        if e >= n {
            return None;
        }
        start = e + 1;
    }
    None
}

/// The value of the first line whose key is the one sought.
pub fn lookup(s: &[char], k: InfoKey) -> (r: Option<String>)
    ensures
        r matches Some(v) ==> find_value(s@, 0, k) == Some(v@),
        r is None ==> find_value(s@, 0, k) is None,
{
    match find_value_range(s, k) {
        Some((a, b)) => Some(string_of(&copy_range(s, a, b))),
        None => None,
    }
}

/// What a known implementer code names, as `implementer_name` gives it.
fn implementer_name_exec(code: u32) -> (r: Option<String>)
    ensures
        r matches Some(v) ==> implementer_name(code) == Some(v@),
        r is None ==> implementer_name(code) is None,
{
    if code == 0x41 {
        Some("ARM".to_owned())
    } else if code == 0x42 {
        Some("Broadcom".to_owned())
    } else if code == 0x43 {
        Some("Cavium".to_owned())
    } else if code == 0x44 {
        Some("DEC".to_owned())
    } else if code == 0x4e {
        Some("Nvidia".to_owned())
    } else if code == 0x50 {
        Some("APM".to_owned())
    } else if code == 0x51 {
        Some("Qualcomm".to_owned())
    } else if code == 0x56 {
        Some("Marvell".to_owned())
    } else if code == 0x61 {
        Some("Apple".to_owned())
    } else {
        None
    }
}

impl CpuInfo {
    /// The architecture named by a target architecture string.
    pub fn get_architecture(name: &str) -> (r: CpuArchitecture)
        ensures
            r == architecture_of(name@),
    {
        let n = chars_of(name);
        if same_chars(&n, &chars_of("x86_64")) {
            CpuArchitecture::X86_64
        } else if same_chars(&n, &chars_of("aarch64")) {
            CpuArchitecture::ARM64
        } else if same_chars(&n, &chars_of("arm")) {
            CpuArchitecture::ARM
        } else if same_chars(&n, &chars_of("x86")) {
            CpuArchitecture::X86
        } else {
            CpuArchitecture::Unknown
        }
    }

    /// The vendor named by the registers `ebx`, `edx`, `ecx` of the base leaf,
    /// which hold the twelve bytes of the vendor string in that order.
    pub fn get_fabricant_cpuid(ebx: u32, edx: u32, ecx: u32) -> (r: Fabricant)
        ensures
            r@ == fabricant_of_vendor(register_bytes(seq![ebx, edx, ecx])),
    {
        let regs = vec![ebx, edx, ecx];
        let bytes = registers_to_bytes(&regs);
        let intel: Vec<u8> = vec![0x47u8, 0x65, 0x6e, 0x75, 0x69, 0x6e, 0x65, 0x49, 0x6e, 0x74, 0x65, 0x6c];
        let amd: Vec<u8> = vec![0x41u8, 0x75, 0x74, 0x68, 0x65, 0x6e, 0x74, 0x69, 0x63, 0x41, 0x4d, 0x44];
        assert(intel@ =~= intel_vendor());
        assert(amd@ =~= amd_vendor());
        assert(regs@ =~= seq![ebx, edx, ecx]);
        if same_bytes(&bytes, &intel) {
            Fabricant::Intel
        } else if same_bytes(&bytes, &amd) {
            Fabricant::Amd
        } else {
            let text = utf8_lossy(&bytes);
            Fabricant::Other(trimmed(&chars_of(text.as_str())))
        }
    }

    /// The model name from the brand-string leaves: `regs` holds `eax`, `ebx`,
    /// `ecx`, `edx` of each leaf in turn.
    pub fn get_model_cpuid(max_extended_leaf: u32, regs: &[u32]) -> (r: Option<String>)
        ensures
            r matches Some(m) ==> model_of_brand(max_extended_leaf, regs@) == Some(m@),
            r is None ==> model_of_brand(max_extended_leaf, regs@) is None,
    {
        if max_extended_leaf < 0x8000_0004 {
            return None;
        }
        let bytes = registers_to_bytes(regs);
        let text = utf8_lossy(&bytes);
        let model = trimmed(&chars_of(text.as_str()));
        if model.as_str().is_empty() {
            None
        } else {
            Some(model)
        }
    }

    /// The vendor named by the implementer line of the metadata text.
    pub fn get_fabricant_arm(text: &str) -> (r: Fabricant)
        ensures
            r@ == fabricant_of_info(text@),
    {
        let s = chars_of(text);
        match find_value_range(&s, InfoKey::Implementer) {
            None => Fabricant::Unknown,
            Some((a, b)) => {
                let v = copy_range(&s, a, b);
                let code = if b - a >= 2 && s[a] == '0' && s[a + 1] == 'x' {
                    assert(v@.subrange(2, v@.len() as int) =~= s@.subrange(a + 2, b as int));
                    parse_u32(&s, a + 2, b, 16)
                } else {
                    parse_u32(&s, a, b, 16)
                };
                match code {
                    Some(c) => match implementer_name_exec(c) {
                        Some(name) => Fabricant::Other(name),
                        None => Fabricant::Other(string_of(&v)),
                    },
                    None => Fabricant::Other(string_of(&v)),
                }
            },
        }
    }

    /// The model name given by the metadata text.
    pub fn get_model_procfs(text: &str) -> (r: Option<String>)
        ensures
            r matches Some(m) ==> find_value(text@, 0, InfoKey::ModelName) == Some(m@),
            r is None ==> find_value(text@, 0, InfoKey::ModelName) is None,
    {
        lookup(&chars_of(text), InfoKey::ModelName)
    }
}

} // verus!
