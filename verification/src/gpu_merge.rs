//! The decisions taken while merging the GPU lists of the detection paths
//! (vendor tools, WMI, APU and SoC rules, Vulkan): which listed GPUs are
//! already known, and the names given to GPUs that are added.
use vstd::prelude::*;
use crate::gpu_text::{is_same_gpu_name, same_gpu_name, string_views};
use crate::text::{chars_of, contains, contains_str, has_substring, push_str, str_lowercase, string_of, to_lowercase};

verus! {

/// Either lower-cased name contains the other.
pub open spec fn names_overlap(a: Seq<char>, b: Seq<char>) -> bool {
    has_substring(str_lowercase(a), str_lowercase(b)) || has_substring(
        str_lowercase(b),
        str_lowercase(a),
    )
}

/// A GPU that WMI lists is already known when a listed name and its name,
/// lower-cased, contain one another.
pub open spec fn wmi_dominated(known: Seq<Seq<char>>, w: Seq<char>) -> bool {
    exists|i: int| 0 <= i < known.len() && names_overlap(#[trigger] known[i], w)
}

/// Whether a GPU reported by WMI was already found by a vendor tool under
/// an overlapping name.
pub fn wmi_gpu_is_known(known: &Vec<String>, wmi_name: &str) -> (r: bool)
    ensures
        r == wmi_dominated(string_views(known@), wmi_name@),
{
    let ghost ks = string_views(known@);
    let wl = to_lowercase(&chars_of(wmi_name));
    let mut i: usize = 0;
    while i < known.len()
        invariant
            i <= known@.len(),
            ks == string_views(known@),
            wl@ == str_lowercase(wmi_name@),
            forall|j: int| 0 <= j < i ==> !names_overlap(#[trigger] ks[j], wmi_name@),
        decreases known@.len() - i,
    {
        let el = to_lowercase(&chars_of(known[i].as_str()));
        assert(ks[i as int] == known@[i as int]@);
        if contains(&el, &wl) || contains(&wl, &el) {
            assert(names_overlap(ks[i as int], wmi_name@));
            return true;
        }
        i += 1;
    }
    false
}

/// A lower-cased name that reads as an AMD GPU.
pub open spec fn amd_gpu_name(l: Seq<char>) -> bool {
    has_substring(l, "amd"@) || has_substring(l, "radeon"@)
}

/// The position of the first GPU whose name reads as AMD (the one an AMD
/// unified-memory APU is attached to), if any.
pub fn amd_gpu_position(names: &Vec<String>) -> (r: Option<usize>)
    ensures
        match r {
            Some(i) => i < names@.len() && amd_gpu_name(str_lowercase(names@[i as int]@))
                && forall|j: int|
                0 <= j < i ==> !amd_gpu_name(str_lowercase(#[trigger] names@[j]@)),
            None => forall|j: int|
                0 <= j < names@.len() ==> !amd_gpu_name(str_lowercase(#[trigger] names@[j]@)),
        },
{
    let mut i: usize = 0;
    while i < names.len()
        invariant
            i <= names@.len(),
            forall|j: int| 0 <= j < i ==> !amd_gpu_name(str_lowercase(#[trigger] names@[j]@)),
        decreases names@.len() - i,
    {
        let l = to_lowercase(&chars_of(names[i].as_str()));
        if contains_str(&l, "amd") || contains_str(&l, "radeon") {
            return Some(i);
        }
        i += 1;
    }
    None
}

/// The name of the GPU added for an AMD unified-memory APU that no other
/// path found: the CPU name followed by " (integrated)".
pub fn apu_gpu_name(cpu_name: &str) -> (r: String)
    ensures
        r@ == cpu_name@ + " (integrated)"@,
{
    let mut v = chars_of(cpu_name);
    push_str(&mut v, " (integrated)");
    string_of(&v)
}

/// Whether a listed GPU name mentions Intel (so that an Intel Arc found
/// through sysfs is not added twice).
pub fn has_intel_gpu(names: &Vec<String>) -> (r: bool)
    ensures
        r == exists|i: int|
            0 <= i < names@.len() && has_substring(str_lowercase(#[trigger] names@[i]@), "intel"@),
{
    let mut i: usize = 0;
    while i < names.len()
        invariant
            i <= names@.len(),
            forall|j: int|
                0 <= j < i ==> !has_substring(str_lowercase(#[trigger] names@[j]@), "intel"@),
        decreases names@.len() - i,
    {
        let l = to_lowercase(&chars_of(names[i].as_str()));
        if contains_str(&l, "intel") {
            return true;
        }
        i += 1;
    }
    false
}

/// The name of an Apple Silicon GPU: the CPU name when it mentions Apple,
/// else "Apple Silicon".
pub fn apple_gpu_name(cpu_name: &str) -> (r: String)
    ensures
        r@ == (if has_substring(str_lowercase(cpu_name@), "apple"@) {
            cpu_name@
        } else {
            "Apple Silicon"@
        }),
{
    let l = to_lowercase(&chars_of(cpu_name));
    if contains_str(&l, "apple") {
        string_of(&chars_of(cpu_name))
    } else {
        string_of(&chars_of("Apple Silicon"))
    }
}

/// A lower-cased Vulkan device name that is an AMD GPU (RADV included).
pub open spec fn amd_vulkan_name(l: Seq<char>) -> bool {
    has_substring(l, "amd"@) || has_substring(l, "radeon"@) || has_substring(l, "radv"@)
}

/// A Vulkan device is skipped when a ROCm GPU is present and the device is
/// AMD (ROCm sees the same card better), or when a listed GPU has the same
/// name as `same_gpu_name` compares them.
pub open spec fn vulkan_dominated(known: Seq<Seq<char>>, has_rocm_gpu: bool, v: Seq<char>) -> bool {
    (has_rocm_gpu && amd_vulkan_name(str_lowercase(v))) || exists|i: int|
        0 <= i < known.len() && same_gpu_name(#[trigger] known[i], v)
}

/// Whether a Vulkan device should be left out of the GPU list.
pub fn vulkan_gpu_is_known(known: &Vec<String>, has_rocm_gpu: bool, vulkan_name: &str) -> (r: bool)
    ensures
        r == vulkan_dominated(string_views(known@), has_rocm_gpu, vulkan_name@),
{
    let ghost ks = string_views(known@);
    if has_rocm_gpu {
        let l = to_lowercase(&chars_of(vulkan_name));
        if contains_str(&l, "amd") || contains_str(&l, "radeon") || contains_str(&l, "radv") {
            return true;
        }
    }
    let mut i: usize = 0;
    while i < known.len()
        invariant
            i <= known@.len(),
            ks == string_views(known@),
            forall|j: int| 0 <= j < i ==> !same_gpu_name(#[trigger] ks[j], vulkan_name@),
        decreases known@.len() - i,
    {
        assert(ks[i as int] == known@[i as int]@);
        if is_same_gpu_name(known[i].as_str(), vulkan_name) {
            return true;
        }
        i += 1;
    }
    false
}

} // verus!
