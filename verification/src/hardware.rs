//! GPU and platform knowledge: backends, name-based lookup tables, and the
//! parsing of vendor tool output.
use vstd::prelude::*;
use crate::text::{
    ascii_lowered, ascii_lowered_of, chars_of, contains_str, eq_str, has_substring, is_digit,
    lower_str, slice_of, str_lowercase, string_of, to_lowercase, trim, trimmed,
};

verus! {

/// The acceleration backend for inference speed estimation.
#[derive(Debug, Clone, Copy, PartialEq, Eq, Structural)]
pub enum GpuBackend {
    Cuda,
    Metal,
    Rocm,
    /// AMD/other GPUs without ROCm (e.g. Windows AMD, older AMD).
    Vulkan,
    /// Intel oneAPI.
    Sycl,
    CpuArm,
    CpuX86,
    Ascend,
}

/// The display label of each backend.
pub open spec fn backend_label(b: GpuBackend) -> Seq<char> {
    match b {
        GpuBackend::Cuda => "CUDA"@,
        GpuBackend::Metal => "Metal"@,
        GpuBackend::Rocm => "ROCm"@,
        GpuBackend::Vulkan => "Vulkan"@,
        GpuBackend::Sycl => "SYCL"@,
        GpuBackend::CpuArm => "CPU (ARM)"@,
        GpuBackend::CpuX86 => "CPU (x86)"@,
        GpuBackend::Ascend => "NPU (Ascend)"@,
    }
}

impl GpuBackend {
    pub fn label(&self) -> (r: &'static str)
        ensures
            r@ == backend_label(*self),
    {
        match self {
            GpuBackend::Cuda => "CUDA",
            GpuBackend::Metal => "Metal",
            GpuBackend::Rocm => "ROCm",
            GpuBackend::Vulkan => "Vulkan",
            GpuBackend::Sycl => "SYCL",
            GpuBackend::CpuArm => "CPU (ARM)",
            GpuBackend::CpuX86 => "CPU (x86)",
            GpuBackend::Ascend => "NPU (Ascend)",
        }
    }
}

/// The NVIDIA compute capability (major, minor) recognised in a lower-cased
/// GPU name.
pub open spec fn compute_capability_of(l: Seq<char>) -> Option<(u8, u8)> {
    if has_substring(l, "5090"@) || has_substring(l, "5080"@) || has_substring(l, "5070"@) || has_substring(l, "5060"@) || has_substring(l, "b200"@) || has_substring(l, "b100"@) || has_substring(l, "gb200"@) || has_substring(l, "gb100"@) {
        Some((10, 0))
    } else if has_substring(l, "h100"@) || has_substring(l, "h200"@) {
        Some((9, 0))
    } else if has_substring(l, "4090"@) || has_substring(l, "4080"@) || has_substring(l, "4070"@) || has_substring(l, "4060"@) || has_substring(l, "l40"@) || has_substring(l, "l4"@) {
        Some((8, 9))
    } else if has_substring(l, "a100"@) {
        Some((8, 0))
    } else if has_substring(l, "3090"@) || has_substring(l, "3080"@) || has_substring(l, "3070"@) || has_substring(l, "3060"@) || has_substring(l, "a10"@) || has_substring(l, "a6000"@) || has_substring(l, "a5000"@) || has_substring(l, "a4000"@) || has_substring(l, "a2000"@) || has_substring(l, "a16"@) {
        Some((8, 6))
    } else if has_substring(l, "2080"@) || has_substring(l, "2070"@) || has_substring(l, "2060"@) || has_substring(l, "1660"@) || has_substring(l, "1650"@) || has_substring(l, "t4"@) {
        Some((7, 5))
    } else if has_substring(l, "v100"@) || has_substring(l, "titan v"@) {
        Some((7, 0))
    } else if has_substring(l, "p100"@) || has_substring(l, "1080"@) || has_substring(l, "1070"@) || has_substring(l, "1060"@) || has_substring(l, "1050"@) || has_substring(l, "p40"@) || has_substring(l, "p4"@) {
        Some((6, 1))
    } else {
        None
    }
}

/// Returns the NVIDIA compute capability (major, minor) for a known GPU name.
/// Used to determine compatibility with quantization formats that require
/// specific hardware features (e.g. AWQ requires Turing+ / cc >= 7.5).
///
/// Returns `None` for non-NVIDIA GPUs or unrecognized models.
pub fn gpu_compute_capability(name: &str) -> (r: Option<(u8, u8)>)
    ensures
        r == compute_capability_of(str_lowercase(name@)),
{
    let lower = lower_str(name);
    if contains_str(&lower, "5090") || contains_str(&lower, "5080") || contains_str(&lower, "5070") || contains_str(&lower, "5060") || contains_str(&lower, "b200") || contains_str(&lower, "b100") || contains_str(&lower, "gb200") || contains_str(&lower, "gb100") {
        return Some((10, 0));
    }
    if contains_str(&lower, "h100") || contains_str(&lower, "h200") {
        return Some((9, 0));
    }
    if contains_str(&lower, "4090") || contains_str(&lower, "4080") || contains_str(&lower, "4070") || contains_str(&lower, "4060") || contains_str(&lower, "l40") || contains_str(&lower, "l4") {
        return Some((8, 9));
    }
    if contains_str(&lower, "a100") {
        return Some((8, 0));
    }
    if contains_str(&lower, "3090") || contains_str(&lower, "3080") || contains_str(&lower, "3070") || contains_str(&lower, "3060") || contains_str(&lower, "a10") || contains_str(&lower, "a6000") || contains_str(&lower, "a5000") || contains_str(&lower, "a4000") || contains_str(&lower, "a2000") || contains_str(&lower, "a16") {
        return Some((8, 6));
    }
    if contains_str(&lower, "2080") || contains_str(&lower, "2070") || contains_str(&lower, "2060") || contains_str(&lower, "1660") || contains_str(&lower, "1650") || contains_str(&lower, "t4") {
        return Some((7, 5));
    }
    if contains_str(&lower, "v100") || contains_str(&lower, "titan v") {
        return Some((7, 0));
    }
    if contains_str(&lower, "p100") || contains_str(&lower, "1080") || contains_str(&lower, "1070") || contains_str(&lower, "1060") || contains_str(&lower, "1050") || contains_str(&lower, "p40") || contains_str(&lower, "p4") {
        return Some((6, 1));
    }
    None
}

/// The compute capability a quantization format needs: Turing (7.5) for
/// AWQ and GPTQ, nothing for any other format.
pub open spec fn min_capability_of(q: Seq<char>) -> Option<(u8, u8)> {
    if q == "AWQ-4bit"@ || q == "AWQ-8bit"@ || q == "GPTQ-Int4"@ || q == "GPTQ-Int8"@ {
        Some((7u8, 5u8))
    } else {
        None
    }
}

/// Minimum NVIDIA compute capability required by a quantization format
/// when running under vLLM: AWQ and GPTQ (Marlin kernels) need Turing+.
/// Formats with no known restriction (e.g. GGUF quants) give `None`.
pub fn quant_min_compute_capability(quantization: &str) -> (r: Option<(u8, u8)>)
    ensures
        r == min_capability_of(quantization@),
{
    let q = chars_of(quantization);
    if eq_str(&q, "AWQ-4bit") || eq_str(&q, "AWQ-8bit") {
        Some((7, 5))
    } else if eq_str(&q, "GPTQ-Int4") || eq_str(&q, "GPTQ-Int8") {
        Some((7, 5))
    } else {
        None
    }
}

/// The CPU is an AMD "Ryzen AI MAX" / "MAX+" APU, whose large memory pool is
/// shared between CPU and GPU (like Apple Silicon). Regular Ryzen AI chips
/// (e.g. HX 370) are not.
pub fn is_amd_unified_memory_apu(cpu_name: &str) -> (r: bool)
    ensures
        r == has_substring(str_lowercase(cpu_name@), "ryzen ai max"@),
{
    let lower = lower_str(cpu_name);
    contains_str(&lower, "ryzen ai max")
}

/// The GPU is an NVIDIA unified-memory SoC (Grace Blackwell / DGX Spark,
/// GB-series), recognised by its model name or by its PCI device id
/// (`10de:2e12`, as shown inside containers).
pub fn is_nvidia_unified_memory_gpu(name: &str) -> (r: bool)
    ensures
        r == (has_substring(str_lowercase(name@), "gb10"@) || has_substring(
            str_lowercase(name@),
            "gb20"@,
        ) || has_substring(str_lowercase(name@), "2e12"@)),
{
    let lower = lower_str(name);
    if contains_str(&lower, "gb10") || contains_str(&lower, "gb20") {
        return true;
    }
    contains_str(&lower, "2e12")
}

/// Memory bandwidth, in tenths of GB/s, recognised in a lower-cased GPU name.
pub open spec fn bandwidth_of(l: Seq<char>) -> Option<u32> {
    if has_substring(l, "5090"@) {
        Some(17920u32)
    } else if has_substring(l, "5080"@) {
        Some(9600u32)
    } else if has_substring(l, "5070 ti"@) {
        Some(8960u32)
    } else if has_substring(l, "5070"@) {
        Some(6720u32)
    } else if has_substring(l, "5060 ti"@) {
        Some(4480u32)
    } else if has_substring(l, "5060"@) {
        Some(2560u32)
    } else if has_substring(l, "4090"@) {
        Some(10080u32)
    } else if has_substring(l, "4080 super"@) {
        Some(7360u32)
    } else if has_substring(l, "4080"@) {
        Some(7170u32)
    } else if has_substring(l, "4070 ti super"@) {
        Some(6720u32)
    } else if has_substring(l, "4070 ti"@) {
        Some(5040u32)
    } else if has_substring(l, "4070 super"@) {
        Some(5040u32)
    } else if has_substring(l, "4070"@) {
        Some(5040u32)
    } else if has_substring(l, "4060 ti"@) {
        Some(2880u32)
    } else if has_substring(l, "4060"@) {
        Some(2720u32)
    } else if has_substring(l, "3090 ti"@) {
        Some(10080u32)
    } else if has_substring(l, "3090"@) {
        Some(9360u32)
    } else if has_substring(l, "3080 ti"@) {
        Some(9120u32)
    } else if has_substring(l, "3080"@) {
        Some(7600u32)
    } else if has_substring(l, "3070 ti"@) {
        Some(6080u32)
    } else if has_substring(l, "3070"@) {
        Some(4480u32)
    } else if has_substring(l, "3060 ti"@) {
        Some(4480u32)
    } else if has_substring(l, "3060"@) {
        Some(3600u32)
    } else if has_substring(l, "2080 ti"@) {
        Some(6160u32)
    } else if has_substring(l, "2080 super"@) {
        Some(4960u32)
    } else if has_substring(l, "2080"@) {
        Some(4480u32)
    } else if has_substring(l, "2070 super"@) {
        Some(4480u32)
    } else if has_substring(l, "2070"@) {
        Some(4480u32)
    } else if has_substring(l, "2060 super"@) {
        Some(4480u32)
    } else if has_substring(l, "2060"@) {
        Some(3360u32)
    } else if has_substring(l, "1660 ti"@) {
        Some(2880u32)
    } else if has_substring(l, "1660 super"@) {
        Some(3360u32)
    } else if has_substring(l, "1660"@) {
        Some(1920u32)
    } else if has_substring(l, "1650 super"@) {
        Some(1920u32)
    } else if has_substring(l, "1650"@) {
        Some(1280u32)
    } else if has_substring(l, "h100 sxm"@) {
        Some(33500u32)
    } else if has_substring(l, "h100"@) {
        Some(20390u32)
    } else if has_substring(l, "h200"@) {
        Some(48000u32)
    } else if has_substring(l, "a100 sxm"@) {
        Some(20390u32)
    } else if has_substring(l, "a100"@) {
        Some(15550u32)
    } else if has_substring(l, "l40s"@) {
        Some(8640u32)
    } else if has_substring(l, "l40"@) {
        Some(8640u32)
    } else if has_substring(l, "l4"@) {
        Some(3000u32)
    } else if has_substring(l, "a10g"@) {
        Some(6000u32)
    } else if has_substring(l, "a10"@) {
        Some(6000u32)
    } else if has_substring(l, "t4"@) {
        Some(3200u32)
    } else if has_substring(l, "v100 sxm"@) {
        Some(9000u32)
    } else if has_substring(l, "v100"@) {
        Some(8970u32)
    } else if has_substring(l, "a6000"@) {
        Some(7680u32)
    } else if has_substring(l, "a5000"@) {
        Some(7680u32)
    } else if has_substring(l, "a4000"@) {
        Some(4480u32)
    } else if has_substring(l, "9070 xt"@) {
        Some(6240u32)
    } else if has_substring(l, "9070"@) {
        Some(4880u32)
    } else if has_substring(l, "7900 xtx"@) {
        Some(9600u32)
    } else if has_substring(l, "7900 xt"@) {
        Some(8000u32)
    } else if has_substring(l, "7900 gre"@) {
        Some(5760u32)
    } else if has_substring(l, "7800 xt"@) {
        Some(6240u32)
    } else if has_substring(l, "7700 xt"@) {
        Some(4320u32)
    } else if has_substring(l, "7600"@) {
        Some(2880u32)
    } else if has_substring(l, "6950 xt"@) {
        Some(5760u32)
    } else if has_substring(l, "6900 xt"@) {
        Some(5120u32)
    } else if has_substring(l, "6800 xt"@) {
        Some(5120u32)
    } else if has_substring(l, "6800"@) {
        Some(5120u32)
    } else if has_substring(l, "6700 xt"@) {
        Some(3840u32)
    } else if has_substring(l, "6600 xt"@) {
        Some(2560u32)
    } else if has_substring(l, "6600"@) {
        Some(2240u32)
    } else if has_substring(l, "mi300x"@) {
        Some(53000u32)
    } else if has_substring(l, "mi300"@) {
        Some(53000u32)
    } else if has_substring(l, "mi250x"@) {
        Some(32770u32)
    } else if has_substring(l, "mi250"@) {
        Some(32770u32)
    } else if has_substring(l, "mi210"@) {
        Some(16380u32)
    } else if has_substring(l, "mi100"@) {
        Some(12290u32)
    } else if has_substring(l, "m5 max"@) {
        Some(6140u32)
    } else if has_substring(l, "m5 pro"@) {
        Some(3070u32)
    } else if has_substring(l, "m5"@) {
        Some(1536u32)
    } else if has_substring(l, "m4 ultra"@) {
        Some(8190u32)
    } else if has_substring(l, "m4 max"@) {
        Some(5460u32)
    } else if has_substring(l, "m4 pro"@) {
        Some(2730u32)
    } else if has_substring(l, "m4"@) {
        Some(1200u32)
    } else if has_substring(l, "m3 ultra"@) {
        Some(8000u32)
    } else if has_substring(l, "m3 max"@) {
        Some(4000u32)
    } else if has_substring(l, "m3 pro"@) {
        Some(1500u32)
    } else if has_substring(l, "m3"@) {
        Some(1000u32)
    } else if has_substring(l, "m2 ultra"@) {
        Some(8000u32)
    } else if has_substring(l, "m2 max"@) {
        Some(4000u32)
    } else if has_substring(l, "m2 pro"@) {
        Some(2000u32)
    } else if has_substring(l, "m2"@) {
        Some(1000u32)
    } else if has_substring(l, "m1 ultra"@) {
        Some(8000u32)
    } else if has_substring(l, "m1 max"@) {
        Some(4000u32)
    } else if has_substring(l, "m1 pro"@) {
        Some(2000u32)
    } else if has_substring(l, "m1"@) {
        Some(680u32)
    } else {
        None
    }
}

/// Estimated GPU memory bandwidth from the GPU model name, in tenths of a
/// GB/s (e.g. 10080 for an RTX 4090's 1008 GB/s, 1536 for 153.6 GB/s).
/// Returns `None` when the GPU is not recognized.
#[verifier::rlimit(50)]
pub fn gpu_memory_bandwidth_gbps(name: &str) -> (r: Option<u32>)
    ensures
        r == bandwidth_of(str_lowercase(name@)),
{
    let lower = lower_str(name);
    if contains_str(&lower, "5090") {
        return Some(17920u32);
    }
    if contains_str(&lower, "5080") {
        return Some(9600u32);
    }
    if contains_str(&lower, "5070 ti") {
        return Some(8960u32);
    }
    if contains_str(&lower, "5070") {
        return Some(6720u32);
    }
    if contains_str(&lower, "5060 ti") {
        return Some(4480u32);
    }
    if contains_str(&lower, "5060") {
        return Some(2560u32);
    }
    if contains_str(&lower, "4090") {
        return Some(10080u32);
    }
    if contains_str(&lower, "4080 super") {
        return Some(7360u32);
    }
    if contains_str(&lower, "4080") {
        return Some(7170u32);
    }
    if contains_str(&lower, "4070 ti super") {
        return Some(6720u32);
    }
    if contains_str(&lower, "4070 ti") {
        return Some(5040u32);
    }
    if contains_str(&lower, "4070 super") {
        return Some(5040u32);
    }
    if contains_str(&lower, "4070") {
        return Some(5040u32);
    }
    if contains_str(&lower, "4060 ti") {
        return Some(2880u32);
    }
    if contains_str(&lower, "4060") {
        return Some(2720u32);
    }
    if contains_str(&lower, "3090 ti") {
        return Some(10080u32);
    }
    if contains_str(&lower, "3090") {
        return Some(9360u32);
    }
    if contains_str(&lower, "3080 ti") {
        return Some(9120u32);
    }
    if contains_str(&lower, "3080") {
        return Some(7600u32);
    }
    if contains_str(&lower, "3070 ti") {
        return Some(6080u32);
    }
    if contains_str(&lower, "3070") {
        return Some(4480u32);
    }
    if contains_str(&lower, "3060 ti") {
        return Some(4480u32);
    }
    if contains_str(&lower, "3060") {
        return Some(3600u32);
    }
    if contains_str(&lower, "2080 ti") {
        return Some(6160u32);
    }
    if contains_str(&lower, "2080 super") {
        return Some(4960u32);
    }
    if contains_str(&lower, "2080") {
        return Some(4480u32);
    }
    if contains_str(&lower, "2070 super") {
        return Some(4480u32);
    }
    if contains_str(&lower, "2070") {
        return Some(4480u32);
    }
    if contains_str(&lower, "2060 super") {
        return Some(4480u32);
    }
    if contains_str(&lower, "2060") {
        return Some(3360u32);
    }
    if contains_str(&lower, "1660 ti") {
        return Some(2880u32);
    }
    if contains_str(&lower, "1660 super") {
        return Some(3360u32);
    }
    if contains_str(&lower, "1660") {
        return Some(1920u32);
    }
    if contains_str(&lower, "1650 super") {
        return Some(1920u32);
    }
    if contains_str(&lower, "1650") {
        return Some(1280u32);
    }
    if contains_str(&lower, "h100 sxm") {
        return Some(33500u32);
    }
    if contains_str(&lower, "h100") {
        return Some(20390u32);
    }
    if contains_str(&lower, "h200") {
        return Some(48000u32);
    }
    if contains_str(&lower, "a100 sxm") {
        return Some(20390u32);
    }
    if contains_str(&lower, "a100") {
        return Some(15550u32);
    }
    if contains_str(&lower, "l40s") {
        return Some(8640u32);
    }
    if contains_str(&lower, "l40") {
        return Some(8640u32);
    }
    if contains_str(&lower, "l4") {
        return Some(3000u32);
    }
    if contains_str(&lower, "a10g") {
        return Some(6000u32);
    }
    if contains_str(&lower, "a10") {
        return Some(6000u32);
    }
    if contains_str(&lower, "t4") {
        return Some(3200u32);
    }
    if contains_str(&lower, "v100 sxm") {
        return Some(9000u32);
    }
    if contains_str(&lower, "v100") {
        return Some(8970u32);
    }
    if contains_str(&lower, "a6000") {
        return Some(7680u32);
    }
    if contains_str(&lower, "a5000") {
        return Some(7680u32);
    }
    if contains_str(&lower, "a4000") {
        return Some(4480u32);
    }
    if contains_str(&lower, "9070 xt") {
        return Some(6240u32);
    }
    if contains_str(&lower, "9070") {
        return Some(4880u32);
    }
    if contains_str(&lower, "7900 xtx") {
        return Some(9600u32);
    }
    if contains_str(&lower, "7900 xt") {
        return Some(8000u32);
    }
    if contains_str(&lower, "7900 gre") {
        return Some(5760u32);
    }
    if contains_str(&lower, "7800 xt") {
        return Some(6240u32);
    }
    if contains_str(&lower, "7700 xt") {
        return Some(4320u32);
    }
    if contains_str(&lower, "7600") {
        return Some(2880u32);
    }
    if contains_str(&lower, "6950 xt") {
        return Some(5760u32);
    }
    if contains_str(&lower, "6900 xt") {
        return Some(5120u32);
    }
    if contains_str(&lower, "6800 xt") {
        return Some(5120u32);
    }
    if contains_str(&lower, "6800") {
        return Some(5120u32);
    }
    if contains_str(&lower, "6700 xt") {
        return Some(3840u32);
    }
    if contains_str(&lower, "6600 xt") {
        return Some(2560u32);
    }
    if contains_str(&lower, "6600") {
        return Some(2240u32);
    }
    if contains_str(&lower, "mi300x") {
        return Some(53000u32);
    }
    if contains_str(&lower, "mi300") {
        return Some(53000u32);
    }
    if contains_str(&lower, "mi250x") {
        return Some(32770u32);
    }
    if contains_str(&lower, "mi250") {
        return Some(32770u32);
    }
    if contains_str(&lower, "mi210") {
        return Some(16380u32);
    }
    if contains_str(&lower, "mi100") {
        return Some(12290u32);
    }
    if contains_str(&lower, "m5 max") {
        return Some(6140u32);
    }
    if contains_str(&lower, "m5 pro") {
        return Some(3070u32);
    }
    if contains_str(&lower, "m5") {
        return Some(1536u32);
    }
    if contains_str(&lower, "m4 ultra") {
        return Some(8190u32);
    }
    if contains_str(&lower, "m4 max") {
        return Some(5460u32);
    }
    if contains_str(&lower, "m4 pro") {
        return Some(2730u32);
    }
    if contains_str(&lower, "m4") {
        return Some(1200u32);
    }
    if contains_str(&lower, "m3 ultra") {
        return Some(8000u32);
    }
    if contains_str(&lower, "m3 max") {
        return Some(4000u32);
    }
    if contains_str(&lower, "m3 pro") {
        return Some(1500u32);
    }
    if contains_str(&lower, "m3") {
        return Some(1000u32);
    }
    if contains_str(&lower, "m2 ultra") {
        return Some(8000u32);
    }
    if contains_str(&lower, "m2 max") {
        return Some(4000u32);
    }
    if contains_str(&lower, "m2 pro") {
        return Some(2000u32);
    }
    if contains_str(&lower, "m2") {
        return Some(1000u32);
    }
    if contains_str(&lower, "m1 ultra") {
        return Some(8000u32);
    }
    if contains_str(&lower, "m1 max") {
        return Some(4000u32);
    }
    if contains_str(&lower, "m1 pro") {
        return Some(2000u32);
    }
    if contains_str(&lower, "m1") {
        return Some(680u32);
    }
    None
}

/// Estimated VRAM, in MiB, recognised in a lower-cased GPU name (0 when
/// nothing is recognised).
pub open spec fn vram_estimate_of(l: Seq<char>) -> u32 {
    if has_substring(l, "5090"@) {
        32768u32
    } else if has_substring(l, "5080"@) {
        16384u32
    } else if has_substring(l, "5070 ti"@) {
        16384u32
    } else if has_substring(l, "5070"@) {
        12288u32
    } else if has_substring(l, "5060 ti"@) {
        16384u32
    } else if has_substring(l, "5060"@) {
        8192u32
    } else if has_substring(l, "4090"@) {
        24576u32
    } else if has_substring(l, "4080"@) {
        16384u32
    } else if has_substring(l, "4070 ti"@) {
        12288u32
    } else if has_substring(l, "4070"@) {
        12288u32
    } else if has_substring(l, "4060 ti"@) {
        16384u32
    } else if has_substring(l, "4060"@) {
        8192u32
    } else if has_substring(l, "3090"@) {
        24576u32
    } else if has_substring(l, "3080 ti"@) {
        12288u32
    } else if has_substring(l, "3080"@) {
        10240u32
    } else if has_substring(l, "3070"@) {
        8192u32
    } else if has_substring(l, "3060 ti"@) {
        8192u32
    } else if has_substring(l, "3060"@) {
        12288u32
    } else if has_substring(l, "h100"@) {
        81920u32
    } else if has_substring(l, "a100"@) {
        81920u32
    } else if has_substring(l, "l40"@) {
        49152u32
    } else if has_substring(l, "a6000"@) {
        49152u32
    } else if has_substring(l, "a5500"@) {
        24576u32
    } else if has_substring(l, "a5000"@) {
        24576u32
    } else if has_substring(l, "a4500"@) {
        20480u32
    } else if has_substring(l, "a4000"@) {
        16384u32
    } else if has_substring(l, "a2000"@) {
        12288u32
    } else if has_substring(l, "a10"@) {
        24576u32
    } else if has_substring(l, "t4"@) {
        16384u32
    } else if has_substring(l, "gb10"@) || has_substring(l, "2e12"@) {
        131072u32
    } else if has_substring(l, "gb20"@) {
        131072u32
    } else if has_substring(l, "9070 xt"@) {
        16384u32
    } else if has_substring(l, "9070"@) {
        12288u32
    } else if has_substring(l, "9060 xt"@) {
        16384u32
    } else if has_substring(l, "9060"@) {
        8192u32
    } else if has_substring(l, "7900 xtx"@) {
        24576u32
    } else if has_substring(l, "7900"@) {
        20480u32
    } else if has_substring(l, "7800"@) {
        16384u32
    } else if has_substring(l, "7700"@) {
        12288u32
    } else if has_substring(l, "7600"@) {
        8192u32
    } else if has_substring(l, "6950"@) {
        16384u32
    } else if has_substring(l, "6900"@) {
        16384u32
    } else if has_substring(l, "6800"@) {
        16384u32
    } else if has_substring(l, "6750"@) {
        12288u32
    } else if has_substring(l, "6700"@) {
        12288u32
    } else if has_substring(l, "6650"@) {
        8192u32
    } else if has_substring(l, "6600"@) {
        8192u32
    } else if has_substring(l, "6500"@) {
        4096u32
    } else if has_substring(l, "5700 xt"@) {
        8192u32
    } else if has_substring(l, "5700"@) {
        8192u32
    } else if has_substring(l, "5600"@) {
        6144u32
    } else if has_substring(l, "5500"@) {
        4096u32
    } else if has_substring(l, "8060s"@) {
        32768u32
    } else if has_substring(l, "8050s"@) {
        24576u32
    } else if has_substring(l, "8060"@) && !has_substring(l, "8060s"@) {
        16384u32
    } else if has_substring(l, "8050"@) && !has_substring(l, "8050s"@) {
        12288u32
    } else if has_substring(l, "890m"@) {
        16384u32
    } else if has_substring(l, "880m"@) {
        12288u32
    } else if has_substring(l, "870m"@) {
        8192u32
    } else if has_substring(l, "860m"@) {
        8192u32
    } else if (has_substring(l, "radeon"@) || has_substring(l, "amd"@)) && !has_substring(l, "rx "@) && !has_substring(l, "hd "@) && !has_substring(l, " r5 "@) && !has_substring(l, " r7 "@) && !has_substring(l, " r9 "@) && !has_substring(l, "8060"@) && !has_substring(l, "8050"@) && (has_substring(l, "graphics"@) || has_substring(l, "igpu"@)) {
        512u32
    } else if has_substring(l, "rtx"@) {
        8192u32
    } else if has_substring(l, "gtx"@) {
        4096u32
    } else if has_substring(l, "rx "@) || has_substring(l, "radeon"@) {
        8192u32
    } else {
        0u32
    }
}

/// Fallback VRAM estimation from the GPU model name, in MiB (e.g. 24576 for
/// 24 GB, 512 for an integrated Radeon's 0.5 GB), or 0 when unknown. Used
/// when vendor tools report no VRAM.
#[verifier::rlimit(50)]
pub fn estimate_vram_from_name(name: &str) -> (r: u32)
    ensures
        r == vram_estimate_of(str_lowercase(name@)),
{
    let lower = lower_str(name);
    if contains_str(&lower, "5090") {
        return 32768u32;
    }
    if contains_str(&lower, "5080") {
        return 16384u32;
    }
    if contains_str(&lower, "5070 ti") {
        return 16384u32;
    }
    if contains_str(&lower, "5070") {
        return 12288u32;
    }
    if contains_str(&lower, "5060 ti") {
        return 16384u32;
    }
    if contains_str(&lower, "5060") {
        return 8192u32;
    }
    if contains_str(&lower, "4090") {
        return 24576u32;
    }
    if contains_str(&lower, "4080") {
        return 16384u32;
    }
    if contains_str(&lower, "4070 ti") {
        return 12288u32;
    }
    if contains_str(&lower, "4070") {
        return 12288u32;
    }
    if contains_str(&lower, "4060 ti") {
        return 16384u32;
    }
    if contains_str(&lower, "4060") {
        return 8192u32;
    }
    if contains_str(&lower, "3090") {
        return 24576u32;
    }
    if contains_str(&lower, "3080 ti") {
        return 12288u32;
    }
    if contains_str(&lower, "3080") {
        return 10240u32;
    }
    if contains_str(&lower, "3070") {
        return 8192u32;
    }
    if contains_str(&lower, "3060 ti") {
        return 8192u32;
    }
    if contains_str(&lower, "3060") {
        return 12288u32;
    }
    if contains_str(&lower, "h100") {
        return 81920u32;
    }
    if contains_str(&lower, "a100") {
        return 81920u32;
    }
    if contains_str(&lower, "l40") {
        return 49152u32;
    }
    if contains_str(&lower, "a6000") {
        return 49152u32;
    }
    if contains_str(&lower, "a5500") {
        return 24576u32;
    }
    if contains_str(&lower, "a5000") {
        return 24576u32;
    }
    if contains_str(&lower, "a4500") {
        return 20480u32;
    }
    if contains_str(&lower, "a4000") {
        return 16384u32;
    }
    if contains_str(&lower, "a2000") {
        return 12288u32;
    }
    if contains_str(&lower, "a10") {
        return 24576u32;
    }
    if contains_str(&lower, "t4") {
        return 16384u32;
    }
    if contains_str(&lower, "gb10") || contains_str(&lower, "2e12") {
        return 131072u32;
    }
    if contains_str(&lower, "gb20") {
        return 131072u32;
    }
    if contains_str(&lower, "9070 xt") {
        return 16384u32;
    }
    if contains_str(&lower, "9070") {
        return 12288u32;
    }
    if contains_str(&lower, "9060 xt") {
        return 16384u32;
    }
    if contains_str(&lower, "9060") {
        return 8192u32;
    }
    if contains_str(&lower, "7900 xtx") {
        return 24576u32;
    }
    if contains_str(&lower, "7900") {
        return 20480u32;
    }
    if contains_str(&lower, "7800") {
        return 16384u32;
    }
    if contains_str(&lower, "7700") {
        return 12288u32;
    }
    if contains_str(&lower, "7600") {
        return 8192u32;
    }
    if contains_str(&lower, "6950") {
        return 16384u32;
    }
    if contains_str(&lower, "6900") {
        return 16384u32;
    }
    if contains_str(&lower, "6800") {
        return 16384u32;
    }
    if contains_str(&lower, "6750") {
        return 12288u32;
    }
    if contains_str(&lower, "6700") {
        return 12288u32;
    }
    if contains_str(&lower, "6650") {
        return 8192u32;
    }
    if contains_str(&lower, "6600") {
        return 8192u32;
    }
    if contains_str(&lower, "6500") {
        return 4096u32;
    }
    if contains_str(&lower, "5700 xt") {
        return 8192u32;
    }
    if contains_str(&lower, "5700") {
        return 8192u32;
    }
    if contains_str(&lower, "5600") {
        return 6144u32;
    }
    if contains_str(&lower, "5500") {
        return 4096u32;
    }
    if contains_str(&lower, "8060s") {
        return 32768u32;
    }
    if contains_str(&lower, "8050s") {
        return 24576u32;
    }
    if contains_str(&lower, "8060") && !contains_str(&lower, "8060s") {
        return 16384u32;
    }
    if contains_str(&lower, "8050") && !contains_str(&lower, "8050s") {
        return 12288u32;
    }
    if contains_str(&lower, "890m") {
        return 16384u32;
    }
    if contains_str(&lower, "880m") {
        return 12288u32;
    }
    if contains_str(&lower, "870m") {
        return 8192u32;
    }
    if contains_str(&lower, "860m") {
        return 8192u32;
    }
    if (contains_str(&lower, "radeon") || contains_str(&lower, "amd")) && !contains_str(&lower, "rx ") && !contains_str(&lower, "hd ") && !contains_str(&lower, " r5 ") && !contains_str(&lower, " r7 ") && !contains_str(&lower, " r9 ") && !contains_str(&lower, "8060") && !contains_str(&lower, "8050") && (contains_str(&lower, "graphics") || contains_str(&lower, "igpu")) {
        return 512u32;
    }
    if contains_str(&lower, "rtx") {
        return 8192u32;
    }
    if contains_str(&lower, "gtx") {
        return 4096u32;
    }
    if contains_str(&lower, "rx ") || contains_str(&lower, "radeon") {
        return 8192u32;
    }
    0
}


/// A kernel text (`/proc/sys/kernel/osrelease` or `/proc/version`) that was
/// read and names Microsoft's kernel, in any ASCII case.
pub open spec fn names_microsoft_kernel(text: Option<Seq<char>>) -> bool {
    match text {
        Some(t) => has_substring(ascii_lowered(t), "microsoft"@),
        None => false,
    }
}

/// The WSL verdict from what the platform shows: a Linux build that sees
/// `WSL_INTEROP` or `WSL_DISTRO_NAME` set, or a kernel text naming Microsoft.
pub open spec fn wsl_verdict(
    is_linux: bool,
    wsl_env_set: bool,
    osrelease: Option<Seq<char>>,
    version: Option<Seq<char>>,
) -> bool {
    is_linux && (wsl_env_set || names_microsoft_kernel(osrelease) || names_microsoft_kernel(
        version,
    ))
}

/// Whether a kernel text that was read names Microsoft's kernel.
fn kernel_text_names_microsoft(text: Option<&str>) -> (r: bool)
    ensures
        r == names_microsoft_kernel(
            match text {
                Some(t) => Some(t@),
                None => None,
            },
        ),
{
    match text {
        Some(t) => {
            let lowered = ascii_lowered_of(t);
            contains_str(&lowered, "microsoft")
        },
        None => false,
    }
}

/// Decides whether the process runs under Windows Subsystem for Linux, from
/// what the caller read: whether the build targets Linux, whether either WSL
/// environment variable is set, and the two kernel texts (`None` where a
/// file could not be read).
pub fn is_running_in_wsl(
    is_linux: bool,
    wsl_env_set: bool,
    osrelease: Option<&str>,
    version: Option<&str>,
) -> (r: bool)
    ensures
        r == wsl_verdict(
            is_linux,
            wsl_env_set,
            match osrelease {
                Some(t) => Some(t@),
                None => None,
            },
            match version {
                Some(t) => Some(t@),
                None => None,
            },
        ),
{
    if !is_linux {
        return false;
    }
    if wsl_env_set {
        return true;
    }
    kernel_text_names_microsoft(osrelease) || kernel_text_names_microsoft(version)
}


/// The unit of a memory size given on the command line.
#[derive(Debug, Clone, Copy, PartialEq, Eq, Structural)]
pub enum MemoryUnit {
    Gb,
    Mb,
    Tb,
}

/// Where the number of a memory size ends: the first character from `i` on
/// that is neither an ASCII digit nor a dot.
pub open spec fn number_end(t: Seq<char>, i: int) -> int
    decreases t.len() - i,
{
    if i < 0 || i >= t.len() {
        t.len() as int
    } else if is_digit(t[i]) || t[i] == '.' {
        number_end(t, i + 1)
    } else {
        i
    }
}

/// The unit a lower-cased suffix names: "g", "gb", "gib" or nothing for
/// GB, "m", "mb", "mib" for MB, "t", "tb", "tib" for TB.
pub open spec fn memory_unit_of(suffix: Seq<char>) -> Option<MemoryUnit> {
    if suffix == "g"@ || suffix == "gb"@ || suffix == "gib"@ || suffix.len() == 0 {
        Some(MemoryUnit::Gb)
    } else if suffix == "m"@ || suffix == "mb"@ || suffix == "mib"@ {
        Some(MemoryUnit::Mb)
    } else if suffix == "t"@ || suffix == "tb"@ || suffix == "tib"@ {
        Some(MemoryUnit::Tb)
    } else {
        None
    }
}

/// The number text and unit of a memory size such as "32G", "32000MB" or
/// "1.5 tib": the leading digits and dots of the trimmed text, and the unit
/// its trimmed, lower-cased rest names; `None` for an empty text or an
/// unknown unit.
pub open spec fn memory_size_parts(s: Seq<char>) -> Option<(Seq<char>, MemoryUnit)> {
    let t = trimmed(s);
    if t.len() == 0 {
        None
    } else {
        let k = number_end(t, 0);
        match memory_unit_of(str_lowercase(trimmed(t.subrange(k, t.len() as int)))) {
            Some(u) => Some((t.subrange(0, k), u)),
            None => None,
        }
    }
}

/// Split a human-readable memory size ("32G", "32gb", "32000M", "1T"...)
/// into its number text and unit (the caller parses the number and scales
/// it to GB); `None` when the text is empty or the unit is unknown.
pub fn split_memory_size(s: &str) -> (r: Option<(String, MemoryUnit)>)
    ensures
        match r {
            Some((n, u)) => memory_size_parts(s@) == Some((n@, u)),
            None => memory_size_parts(s@) is None,
        },
{
    let t = trim(&chars_of(s));
    if t.len() == 0 {
        return None;
    }
    let mut k: usize = 0;
    while k < t.len() && (('0' <= t[k] && t[k] <= '9') || t[k] == '.')
        invariant
            k <= t@.len(),
            number_end(t@, 0) == number_end(t@, k as int),
        decreases t@.len() - k,
    {
        k += 1;
    }
    let n = t.len();
    let suffix = to_lowercase(&trim(&slice_of(&t, k, n)));
    let unit = if eq_str(&suffix, "g") || eq_str(&suffix, "gb") || eq_str(&suffix, "gib")
        || suffix.len() == 0 {
        MemoryUnit::Gb
    } else if eq_str(&suffix, "m") || eq_str(&suffix, "mb") || eq_str(&suffix, "mib") {
        MemoryUnit::Mb
    } else if eq_str(&suffix, "t") || eq_str(&suffix, "tb") || eq_str(&suffix, "tib") {
        MemoryUnit::Tb
    } else {
        return None;
    };
    Some((string_of(&slice_of(&t, 0, k)), unit))
}

} // verus!
