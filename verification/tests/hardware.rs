use llmfit::gpu_text::{
    extract_gpu_model_numbers, is_integrated_gpu_name, is_same_gpu_name, is_software_vulkan_device,
    normalize_gpu_name_for_dedupe, parse_cpu_name_from_cpuinfo, parse_vulkan_device_names,
    prefer_discrete_gpus,
};
use llmfit::hardware::{
    split_memory_size, MemoryUnit, estimate_vram_from_name, gpu_compute_capability, gpu_memory_bandwidth_gbps,
    is_amd_unified_memory_apu, quant_min_compute_capability, GpuBackend,
};
use llmfit::nvidia::{parse_nvidia_smi_extended, parse_nvidia_smi_list, NvidiaGroup};
use llmfit::rocm::parse_rocm_smi_output;

/// Bandwidth in GB/s as the library reports it (tenths of GB/s).
fn bandwidth(name: &str) -> Option<f64> {
    gpu_memory_bandwidth_gbps(name).map(|t| t as f64 / 10.0)
}

/// Name-based VRAM estimate in GB (the library works in MiB).
fn vram_estimate_gb(name: &str) -> f64 {
    estimate_vram_from_name(name) as f64 / 1024.0
}

/// Per-card VRAM of an nvidia-smi group in GB, merged as the detector
/// does: the largest parsed MiB value, else the name estimate.
fn group_vram_gb(g: &NvidiaGroup) -> Option<f64> {
    let mut best = 0.0f64;
    for row in &g.rows {
        let parsed: f64 = row.vram_text.trim().parse().unwrap_or(0.0);
        let mb = if parsed > 0.0 {
            parsed
        } else {
            estimate_vram_from_name(&g.name) as f64
        };
        if mb > best {
            best = mb;
        }
    }
    if best > 0.0 {
        Some(best / 1024.0)
    } else {
        None
    }
}

#[test]
fn test_parse_nvidia_smi_does_not_sum_multi_gpu_vram() {
    let text = "24564, NVIDIA GeForce RTX 4090\n24564, NVIDIA GeForce RTX 4090\n";
    let gpus = parse_nvidia_smi_list(text);

    assert_eq!(gpus.len(), 1);
    assert_eq!(gpus[0].rows.len(), 2);
    let vram = group_vram_gb(&gpus[0]).expect("VRAM should be parsed for RTX 4090 entries");
    // 24564 MiB ~= 23.99 GiB; must stay single-card VRAM, not 2x summed.
    assert!(vram > 23.0 && vram < 25.0, "unexpected VRAM value: {vram}");
}

#[test]
fn test_parse_nvidia_smi_keeps_distinct_models() {
    let text = "24564, NVIDIA GeForce RTX 4090\n16376, NVIDIA GeForce RTX 4080\n";
    let gpus = parse_nvidia_smi_list(text);

    assert_eq!(gpus.len(), 2);
    assert!(gpus.iter().any(|g| g.name.contains("4090") && g.rows.len() == 1));
    assert!(gpus.iter().any(|g| g.name.contains("4080") && g.rows.len() == 1));
}

#[test]
fn test_parse_nvidia_smi_gb10_gets_vram_estimate() {
    // DGX Spark reports GB10 with 0 VRAM from nvidia-smi
    let text = "0, NVIDIA GB10\n";
    let gpus = parse_nvidia_smi_list(text);

    assert_eq!(gpus.len(), 1);
    assert!(gpus[0].name.contains("GB10"));
    let vram = group_vram_gb(&gpus[0]).expect("GB10 should have estimated VRAM");
    assert!(vram > 100.0, "GB10 VRAM should be ~128GB, got {vram}");
}

#[test]
fn test_estimate_vram_gb10() {
    assert_eq!(vram_estimate_gb("NVIDIA GB10"), 128.0);
    assert_eq!(vram_estimate_gb("NVIDIA GB20"), 128.0);
}

#[test]
fn test_estimate_vram_rtx_professional() {
    assert_eq!(vram_estimate_gb("NVIDIA RTX A6000"), 48.0);
    assert_eq!(vram_estimate_gb("NVIDIA RTX A5500"), 24.0);
    assert_eq!(vram_estimate_gb("NVIDIA RTX A5000"), 24.0);
    assert_eq!(vram_estimate_gb("NVIDIA RTX A4500"), 20.0);
    assert_eq!(vram_estimate_gb("NVIDIA RTX A4000"), 16.0);
    assert_eq!(vram_estimate_gb("NVIDIA RTX A2000"), 12.0);
}

#[test]
fn test_parse_extended_discrete_gpu_not_unified() {
    let text = "None, 24564, NVIDIA GeForce RTX 4090\n";
    let gpus = parse_nvidia_smi_extended(text);

    assert_eq!(gpus.len(), 1);
    assert_eq!(gpus[0].name, "NVIDIA GeForce RTX 4090");
    assert!(!gpus[0].rows.iter().any(|r| r.ats), "discrete GPU should not be unified");
    let vram = group_vram_gb(&gpus[0]).expect("VRAM should be present");
    assert!(vram > 23.0 && vram < 25.0, "unexpected VRAM: {vram}");
}

#[test]
fn test_parse_extended_tegra_unified_memory() {
    let text = "ATS, [N/A], NVIDIA Thor\n";
    let gpus = parse_nvidia_smi_extended(text);

    assert_eq!(gpus.len(), 1);
    assert_eq!(gpus[0].name, "NVIDIA Thor");
    assert!(gpus[0].rows.iter().any(|r| r.ats), "ATS should set unified_memory=true");
    assert_eq!(gpus[0].rows[0].vram_text, "[N/A]");
}

#[test]
fn test_parse_extended_multi_gpu_discrete() {
    let text = "None, 24564, NVIDIA GeForce RTX 4090\nNone, 24564, NVIDIA GeForce RTX 4090\n";
    let gpus = parse_nvidia_smi_extended(text);

    assert_eq!(gpus.len(), 1);
    assert_eq!(gpus[0].rows.len(), 2);
    assert!(!gpus[0].rows.iter().any(|r| r.ats));
}

#[test]
fn test_gpu_bandwidth_known_gpus() {
    assert_eq!(bandwidth("NVIDIA GeForce RTX 4090"), Some(1008.0));
    assert_eq!(bandwidth("NVIDIA GeForce RTX 3060"), Some(360.0));
    assert_eq!(bandwidth("Tesla T4"), Some(320.0));
    assert_eq!(bandwidth("NVIDIA H100 SXM"), Some(3350.0));
    assert_eq!(bandwidth("NVIDIA A100"), Some(1555.0));
}

#[test]
fn test_gpu_bandwidth_apple_silicon() {
    assert_eq!(bandwidth("Apple M1 Max"), Some(400.0));
    assert_eq!(bandwidth("Apple M4 Pro"), Some(273.0));
    assert_eq!(bandwidth("Apple M5 Max"), Some(614.0));
    assert_eq!(bandwidth("Apple M5 Pro"), Some(307.0));
    assert_eq!(bandwidth("Apple M5"), Some(153.6));
}

#[test]
fn test_gpu_bandwidth_unknown_returns_none() {
    assert_eq!(bandwidth("Some Random GPU"), None);
    assert_eq!(bandwidth(""), None);
}

#[test]
fn test_gpu_bandwidth_amd() {
    assert_eq!(bandwidth("AMD Radeon RX 7900 XTX"), Some(960.0));
    assert_eq!(bandwidth("AMD Instinct MI300X"), Some(5300.0));
}

#[test]
fn test_parse_cpu_name_from_cpuinfo_prefers_model_name() {
    let cpuinfo = "\
processor   : 0
model name  : Qualcomm Kryo 680
Hardware    : Qualcomm Technologies, Inc SM8350
";
    assert_eq!(parse_cpu_name_from_cpuinfo(cpuinfo), Some("Qualcomm Kryo 680".to_string()));
}

#[test]
fn test_parse_cpu_name_from_cpuinfo_uses_hardware_fallback() {
    let cpuinfo = "\
processor   : 0
Hardware    : Qualcomm Technologies, Inc SM8650
";
    assert_eq!(
        parse_cpu_name_from_cpuinfo(cpuinfo),
        Some("Qualcomm Technologies, Inc SM8650".to_string())
    );
}

#[test]
fn test_parse_vulkan_device_names_from_summary_output() {
    let text = "\
GPU0:
deviceName         = Adreno (TM) 740
GPU1:
deviceName         = llvmpipe (LLVM 17.0.0, 256 bits)
";
    let names = parse_vulkan_device_names(text);
    assert_eq!(
        names,
        vec!["Adreno (TM) 740".to_string(), "llvmpipe (LLVM 17.0.0, 256 bits)".to_string()]
    );
}

#[test]
fn test_parse_vulkan_device_names_from_gpu_id_lines() {
    let text = "\
GPU id = 0 (Adreno (TM) 740)
GPU id = 1 (NVIDIA GeForce RTX 4090)
";
    let names = parse_vulkan_device_names(text);
    assert_eq!(
        names,
        vec!["Adreno (TM) 740".to_string(), "NVIDIA GeForce RTX 4090".to_string()]
    );
}

#[test]
fn test_is_software_vulkan_device() {
    assert!(is_software_vulkan_device("llvmpipe (LLVM 17.0.0, 256 bits)"));
    assert!(is_software_vulkan_device("SwiftShader Device"));
    assert!(!is_software_vulkan_device("Adreno (TM) 740"));
    assert!(is_software_vulkan_device(
        "AMD Ryzen 7 9800X3D 8-Core Processor (RADV RAPHAEL_MENDOCINO)"
    ));
    assert!(is_software_vulkan_device("AMD Ryzen 5 7600X 6-Core Processor (RADV RAPHAEL)"));
    assert!(!is_software_vulkan_device("AMD Radeon RX 7900 XTX (RADV NAVI31)"));
}

#[test]
fn test_is_same_gpu_name_uses_normalized_exact_match() {
    assert!(is_same_gpu_name("NVIDIA-GeForce RTX 4090", "nvidia geforce rtx 4090"));
    assert!(!is_same_gpu_name("RTX", "RTX 4090"));
}

#[test]
fn test_is_same_gpu_name_amd_rocm_vs_vulkan_radv() {
    assert!(is_same_gpu_name(
        "Radeon RX 7700S/7600/7600S/7600M XT/PRO W7600",
        "AMD Radeon RX 7600 XT (RADV NAVI33)"
    ));
    assert!(is_same_gpu_name(
        "Radeon RX 7700S/7600/7600S/7600M XT/PRO W7600",
        "AMD Radeon RX 7700 XT (RADV NAVI33)"
    ));
    assert!(!is_same_gpu_name("NVIDIA GeForce RTX 3060", "AMD Radeon RX 6600"));
    assert!(!is_same_gpu_name("AMD Radeon RX 6600", "AMD Radeon RX 7900 XTX (RADV NAVI31)"));
}

#[test]
fn test_extract_gpu_model_numbers() {
    assert_eq!(
        extract_gpu_model_numbers("radeon rx 7700s 7600 7600s 7600m xt pro w7600"),
        vec!["7700", "7600", "7600", "7600", "7600"]
    );
    assert_eq!(extract_gpu_model_numbers("amd radeon rx 7600 xt radv navi33"), vec!["7600"]);
    assert!(extract_gpu_model_numbers("rx 42 xt").is_empty());
}

#[test]
fn test_normalize_gpu_name_for_dedupe() {
    assert_eq!(normalize_gpu_name_for_dedupe(" Adreno (TM) 740 "), "adreno tm 740");
}

#[test]
fn test_gpu_backend_labels() {
    assert_eq!(GpuBackend::Cuda.label(), "CUDA");
    assert_eq!(GpuBackend::Metal.label(), "Metal");
    assert_eq!(GpuBackend::Rocm.label(), "ROCm");
    assert_eq!(GpuBackend::Vulkan.label(), "Vulkan");
    assert_eq!(GpuBackend::Sycl.label(), "SYCL");
    assert_eq!(GpuBackend::CpuArm.label(), "CPU (ARM)");
    assert_eq!(GpuBackend::CpuX86.label(), "CPU (x86)");
    assert_eq!(GpuBackend::Ascend.label(), "NPU (Ascend)");
}

#[test]
fn test_amd_unified_memory_apu_detection() {
    assert!(is_amd_unified_memory_apu("AMD Ryzen AI MAX+ 395 w/ Radeon 8060S"));
    assert!(is_amd_unified_memory_apu("AMD Ryzen AI MAX 390"));
    assert!(!is_amd_unified_memory_apu("AMD Ryzen AI 9 HX 370 w/ Radeon 890M"));
    assert!(!is_amd_unified_memory_apu("AMD Ryzen AI 7 350"));
    assert!(!is_amd_unified_memory_apu("AMD Ryzen 9 7950X"));
    assert!(!is_amd_unified_memory_apu("Intel Core i9-14900K"));
}

#[test]
fn test_bandwidth_rtx_20_series() {
    assert_eq!(bandwidth("NVIDIA GeForce RTX 2080 Ti"), Some(616.0));
    assert_eq!(bandwidth("NVIDIA GeForce RTX 2060"), Some(336.0));
}

#[test]
fn test_bandwidth_gtx_16_series() {
    assert_eq!(bandwidth("NVIDIA GeForce GTX 1660 Ti"), Some(288.0));
    assert_eq!(bandwidth("NVIDIA GeForce GTX 1650"), Some(128.0));
}

#[test]
fn test_bandwidth_rtx_50_series() {
    assert_eq!(bandwidth("NVIDIA GeForce RTX 5090"), Some(1792.0));
    assert_eq!(bandwidth("NVIDIA GeForce RTX 5080"), Some(960.0));
    assert_eq!(bandwidth("NVIDIA GeForce RTX 5070 Ti"), Some(896.0));
    assert_eq!(bandwidth("NVIDIA GeForce RTX 5070"), Some(672.0));
    assert_eq!(bandwidth("NVIDIA GeForce RTX 5060 Ti"), Some(448.0));
    assert_eq!(bandwidth("NVIDIA GeForce RTX 5060"), Some(256.0));
}

#[test]
fn test_bandwidth_amd_rx_6000() {
    assert_eq!(bandwidth("AMD Radeon RX 6950 XT"), Some(576.0));
    assert_eq!(bandwidth("AMD Radeon RX 6700 XT"), Some(384.0));
    assert_eq!(bandwidth("AMD Radeon RX 6600"), Some(224.0));
}

#[test]
fn test_bandwidth_nvidia_professional() {
    assert_eq!(bandwidth("NVIDIA RTX A6000"), Some(768.0));
    assert_eq!(bandwidth("NVIDIA RTX A4000"), Some(448.0));
    assert_eq!(bandwidth("NVIDIA L40S"), Some(864.0));
    assert_eq!(bandwidth("NVIDIA L4"), Some(300.0));
}

#[test]
fn test_bandwidth_apple_silicon_all() {
    assert_eq!(bandwidth("Apple M4 Ultra"), Some(819.0));
    assert_eq!(bandwidth("Apple M4"), Some(120.0));
    assert_eq!(bandwidth("Apple M3 Ultra"), Some(800.0));
    assert_eq!(bandwidth("Apple M3 Max"), Some(400.0));
    assert_eq!(bandwidth("Apple M3 Pro"), Some(150.0));
    assert_eq!(bandwidth("Apple M3"), Some(100.0));
    assert_eq!(bandwidth("Apple M1 Pro"), Some(200.0));
    assert_eq!(bandwidth("Apple M1 Ultra"), Some(800.0));
}

#[test]
fn test_bandwidth_amd_cdna() {
    assert_eq!(bandwidth("AMD Instinct MI250X"), Some(3277.0));
    assert_eq!(bandwidth("AMD Instinct MI210"), Some(1638.0));
    assert_eq!(bandwidth("AMD Instinct MI100"), Some(1229.0));
}

#[test]
fn test_bandwidth_amd_rdna4() {
    assert_eq!(bandwidth("AMD Radeon RX 9070 XT"), Some(624.0));
    assert_eq!(bandwidth("AMD Radeon RX 9070"), Some(488.0));
}

#[test]
fn test_compute_capability_nvidia_generations() {
    assert_eq!(gpu_compute_capability("Tesla P100"), Some((6, 1)));
    assert_eq!(gpu_compute_capability("Tesla V100-PCIE-16GB"), Some((7, 0)));
    assert_eq!(gpu_compute_capability("Tesla T4"), Some((7, 5)));
    assert_eq!(gpu_compute_capability("NVIDIA GeForce RTX 2080 Ti"), Some((7, 5)));
    assert_eq!(gpu_compute_capability("NVIDIA GeForce GTX 1660 Ti"), Some((7, 5)));
    assert_eq!(gpu_compute_capability("NVIDIA A100"), Some((8, 0)));
    assert_eq!(gpu_compute_capability("NVIDIA GeForce RTX 3090"), Some((8, 6)));
    assert_eq!(gpu_compute_capability("NVIDIA GeForce RTX 4090"), Some((8, 9)));
    assert_eq!(gpu_compute_capability("NVIDIA L40S"), Some((8, 9)));
    assert_eq!(gpu_compute_capability("NVIDIA H100 SXM"), Some((9, 0)));
    assert_eq!(gpu_compute_capability("NVIDIA GeForce RTX 5090"), Some((10, 0)));
}

#[test]
fn test_compute_capability_unknown_returns_none() {
    assert_eq!(gpu_compute_capability("Some Random GPU"), None);
    assert_eq!(gpu_compute_capability("Apple M4 Max"), None);
    assert_eq!(gpu_compute_capability("AMD Radeon RX 7900 XTX"), None);
}

#[test]
fn test_is_integrated_gpu_name() {
    assert!(is_integrated_gpu_name("Intel(R) UHD Graphics 770"));
    assert!(is_integrated_gpu_name("Intel(R) HD Graphics 630"));
    assert!(is_integrated_gpu_name("Intel(R) Iris(R) Xe Graphics"));
    assert!(is_integrated_gpu_name("Intel(R) Iris(R) Plus Graphics"));
    assert!(!is_integrated_gpu_name("Intel(R) Arc(TM) A770"));
    assert!(!is_integrated_gpu_name("Intel(R) Arc(TM) B580"));
    assert!(is_integrated_gpu_name("AMD Ryzen AI 9 HX 370 w/ Radeon 890M (integrated)"));
}

#[test]
fn test_is_integrated_gpu_name_amd() {
    assert!(is_integrated_gpu_name("AMD Radeon(TM) Graphics"));
    assert!(is_integrated_gpu_name("AMD Radeon Graphics"));
    assert!(!is_integrated_gpu_name("AMD Radeon RX 7900 XTX"));
    assert!(!is_integrated_gpu_name("AMD Radeon Pro W7900"));
}

#[test]
fn test_is_integrated_gpu_name_nvidia() {
    assert!(!is_integrated_gpu_name("NVIDIA GeForce RTX 4090"));
    assert!(!is_integrated_gpu_name("NVIDIA GeForce GTX 1650"));
}

#[test]
fn test_prefer_discrete_gpus_filters_integrated() {
    let names = vec!["Intel(R) UHD Graphics 770".to_string(), "NVIDIA GeForce RTX 4090".to_string()];
    let keep = prefer_discrete_gpus(&names);
    assert_eq!(keep.len(), 1);
    assert!(names[keep[0]].contains("RTX 4090"));
}

#[test]
fn test_prefer_discrete_gpus_keeps_igpu_only() {
    let names = vec!["Intel(R) UHD Graphics 770".to_string()];
    let keep = prefer_discrete_gpus(&names);
    assert_eq!(keep.len(), 1);
    assert!(names[keep[0]].contains("UHD"));
}

#[test]
fn test_quant_min_compute_capability() {
    assert_eq!(quant_min_compute_capability("AWQ-4bit"), Some((7, 5)));
    assert_eq!(quant_min_compute_capability("AWQ-8bit"), Some((7, 5)));
    assert_eq!(quant_min_compute_capability("GPTQ-Int4"), Some((7, 5)));
    assert_eq!(quant_min_compute_capability("GPTQ-Int8"), Some((7, 5)));
    assert_eq!(quant_min_compute_capability("Q4_K_M"), None);
    assert_eq!(quant_min_compute_capability("Q8_0"), None);
}

/// Per-card VRAM of a rocm-smi group in GB.
fn rocm_vram_gb(bytes: Option<u64>) -> Option<f64> {
    bytes.map(|b| b as f64 / (1024.0 * 1024.0 * 1024.0))
}

#[test]
fn test_parse_rocm_smi_two_different_gpus() {
    let vram_text = "\
GPU[0]          : VRAM Total Memory (B): 8573157376
GPU[0]          : VRAM Total Used Memory (B): 60448768
GPU[1]          : VRAM Total Memory (B): 34208743424
GPU[1]          : VRAM Total Used Memory (B): 33732509696";

    let product_text = "\
GPU[0]          : Card Series:          AMD Radeon RX 7600
GPU[0]          : Card Model:           0x7480
GPU[0]          : Card Vendor:          Advanced Micro Devices, Inc. [AMD/ATI]
GPU[0]          : Card SKU:             D7451000
GPU[1]          : Card Series:          AMD Radeon AI PRO R9700
GPU[1]          : Card Model:           0x7551
GPU[1]          : Card Vendor:          Advanced Micro Devices, Inc. [AMD/ATI]
GPU[1]          : Card SKU:             1E4990U";

    let gpus = parse_rocm_smi_output(vram_text, Some(product_text));

    assert_eq!(gpus.len(), 2, "should detect two distinct GPUs");
    assert!(gpus.iter().any(|g| g.name.contains("RX 7600") && g.count == 1));
    assert!(gpus.iter().any(|g| g.name.contains("R9700") && g.count == 1));

    let rx7600 = gpus.iter().find(|g| g.name.contains("RX 7600")).unwrap();
    let r9700 = gpus.iter().find(|g| g.name.contains("R9700")).unwrap();
    let a = rocm_vram_gb(rx7600.vram_bytes).unwrap();
    let b = rocm_vram_gb(r9700.vram_bytes).unwrap();
    assert!(a > 7.0 && a < 9.0);
    assert!(b > 31.0 && b < 33.0);
}

#[test]
fn test_parse_rocm_smi_identical_gpus_grouped() {
    let vram_text = "\
GPU[0]          : VRAM Total Memory (B): 34208743424
GPU[0]          : VRAM Total Used Memory (B): 100000
GPU[1]          : VRAM Total Memory (B): 34208743424
GPU[1]          : VRAM Total Used Memory (B): 200000";

    let product_text = "\
GPU[0]          : Card Series:          AMD Radeon AI PRO R9700
GPU[1]          : Card Series:          AMD Radeon AI PRO R9700";

    let gpus = parse_rocm_smi_output(vram_text, Some(product_text));

    assert_eq!(gpus.len(), 1, "identical GPUs should be grouped");
    assert_eq!(gpus[0].count, 2);
    assert!(gpus[0].name.contains("R9700"));
}

#[test]
fn test_parse_rocm_smi_igpu_filtered() {
    let vram_text = "\
GPU[0]          : VRAM Total Memory (B): 536870912
GPU[0]          : VRAM Total Used Memory (B): 100000
GPU[1]          : VRAM Total Memory (B): 34208743424
GPU[1]          : VRAM Total Used Memory (B): 200000";

    let product_text = "\
GPU[0]          : Card Series:          AMD Radeon Graphics
GPU[1]          : Card Series:          AMD Radeon AI PRO R9700";

    let gpus = parse_rocm_smi_output(vram_text, Some(product_text));

    assert_eq!(gpus.len(), 1, "iGPU should be filtered out");
    assert!(gpus[0].name.contains("R9700"));
}

#[test]
fn test_parse_rocm_smi_no_product_text() {
    let vram_text = "\
GPU[0]          : VRAM Total Memory (B): 34208743424
GPU[0]          : VRAM Total Used Memory (B): 200000";

    let gpus = parse_rocm_smi_output(vram_text, None);

    assert_eq!(gpus.len(), 1);
    assert_eq!(gpus[0].name, "AMD GPU");
    assert!(rocm_vram_gb(gpus[0].vram_bytes).unwrap() > 31.0);
}

/// The memory size in GB: the library splits number and unit, the float
/// step (parse and scale) is the caller's.
fn parse_memory_size(s: &str) -> Option<f64> {
    let (num, unit) = split_memory_size(s)?;
    let value: f64 = num.parse().ok()?;
    Some(match unit {
        MemoryUnit::Gb => value,
        MemoryUnit::Mb => value / 1024.0,
        MemoryUnit::Tb => value * 1024.0,
    })
}

#[test]
fn test_parse_memory_size_gb() {
    assert_eq!(parse_memory_size("32G"), Some(32.0));
    assert_eq!(parse_memory_size("32GB"), Some(32.0));
    assert_eq!(parse_memory_size("32GiB"), Some(32.0));
    assert_eq!(parse_memory_size("24g"), Some(24.0));
    assert_eq!(parse_memory_size("24gb"), Some(24.0));
}

#[test]
fn test_parse_memory_size_mb() {
    let result = parse_memory_size("16384M").unwrap();
    assert!((result - 16.0).abs() < 0.01);
    let result = parse_memory_size("8192MB").unwrap();
    assert!((result - 8.0).abs() < 0.01);
}

#[test]
fn test_parse_memory_size_tb() {
    let result = parse_memory_size("1T").unwrap();
    assert!((result - 1024.0).abs() < 0.01);
    let result = parse_memory_size("2TB").unwrap();
    assert!((result - 2048.0).abs() < 0.01);
}

#[test]
fn test_parse_memory_size_bare_number() {
    assert_eq!(parse_memory_size("16"), Some(16.0));
}

#[test]
fn test_parse_memory_size_whitespace() {
    assert_eq!(parse_memory_size("  32G  "), Some(32.0));
}

#[test]
fn test_parse_memory_size_empty() {
    assert_eq!(parse_memory_size(""), None);
    assert_eq!(parse_memory_size("  "), None);
}

#[test]
fn test_parse_memory_size_invalid_suffix() {
    assert_eq!(parse_memory_size("32X"), None);
    assert_eq!(parse_memory_size("32KB"), None);
}

#[test]
fn test_parse_memory_size_fractional() {
    assert_eq!(parse_memory_size("16.5G"), Some(16.5));
}

#[test]
fn memory_size_split_parts() {
    assert_eq!(split_memory_size(" 1.5 tib "), Some(("1.5".to_string(), MemoryUnit::Tb)));
    assert_eq!(split_memory_size("512"), Some(("512".to_string(), MemoryUnit::Gb)));
    assert_eq!(split_memory_size("G"), Some((String::new(), MemoryUnit::Gb)));
    assert_eq!(split_memory_size("32 kb"), None);
}
