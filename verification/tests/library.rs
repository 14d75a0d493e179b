use llmfit::catalog::{cached_to_keep, dedupe_hf_entries, merge_hf_entry, HfModelEntry, ModelDatabase};
use llmfit::cursor::{floor_grapheme_boundary, visible_dm_dir_input, visible_search_query};
use llmfit::gpu_merge::{
    amd_gpu_position, apple_gpu_name, apu_gpu_name, has_intel_gpu, vulkan_gpu_is_known,
    wmi_gpu_is_known,
};
use llmfit::gpu_text::{is_same_gpu_name, normalize_gpu_name_for_dedupe, parse_windows_gpu_list, resolve_wmi_vram, VramAmount};
use llmfit::hardware::{is_running_in_wsl, GpuBackend};
use llmfit::models::{
    canonical_slug, infer_heads_from_name, matches_license_filter, Capability, GgufSource,
    KvQuant, LlmModel, ModelFormat,
};
use llmfit::nvidia::{parse_nvidia_smi_extended, parse_nvidia_smi_list};
use llmfit::probes::{
    detect_intel_gpu, first_cpu_brand, gpu_name_from_lspci, hbm_capacity_mb, lists_apple_gpu,
    lspci_lists_intel_arc, meminfo_total_kb, npu_ids, parse_uevent, parse_vm_stat,
    parse_wmic_gpu_list, physical_ram_bytes, scan_amd_sysfs, scan_nvidia_sysfs, soc_model_name,
    vram_or_estimate, vulkan_gpu_groups, DrmCard, IntelGpu,
};
use llmfit::text::lower_str;
use llmfit::tui::{
    compare_badges, filter_summary, fit_indicator, format_epoch, FilterTone, marquee_text, pull_spinner, status_keys_and_mode,
    truncate_str, truncate_with_ellipsis, BenchViewMode, FitLevel, InputMode, ModelFit, RunMode,
    StatusState,
};

fn model(name: &str) -> LlmModel {
    LlmModel {
        name: name.to_string(),
        provider: "Meta".to_string(),
        parameter_count: "8B".to_string(),
        parameters_raw: Some(8_000_000_000),
        quantization: "Q4_K_M".to_string(),
        context_length: 8192,
        use_case: "General".to_string(),
        is_moe: false,
        num_experts: None,
        active_experts: None,
        active_parameters: None,
        release_date: None,
        gguf_sources: vec![],
        capabilities: vec![],
        format: ModelFormat::Gguf,
        num_attention_heads: None,
        num_key_value_heads: None,
        num_hidden_layers: None,
        head_dim: None,
        attention_layout: None,
        hidden_size: None,
        moe_intermediate_size: None,
        vocab_size: None,
        shared_expert_intermediate_size: None,
        architecture: None,
        license: None,
    }
}

fn entry(name: &str) -> HfModelEntry {
    HfModelEntry {
        name: name.to_string(),
        provider: "Test".to_string(),
        parameter_count: "7B".to_string(),
        parameters_raw: Some(7_000_000_000),
        quantization: "Q4_K_M".to_string(),
        context_length: 4096,
        use_case: "General".to_string(),
        is_moe: false,
        num_experts: None,
        active_experts: None,
        active_parameters: None,
        release_date: None,
        gguf_sources: vec![],
        capabilities: vec![],
        format: ModelFormat::Gguf,
        hf_downloads: 0,
        hf_likes: 0,
        num_attention_heads: None,
        num_key_value_heads: None,
        num_hidden_layers: None,
        head_dim: None,
        hidden_size: None,
        vocab_size: None,
        moe_intermediate_size: None,
        shared_expert_intermediate_size: None,
        license: None,
        architecture: None,
    }
}

fn card(name: &str, vendor: Option<&str>, vram: Option<&str>, uevent: Option<&str>) -> DrmCard {
    DrmCard {
        name: name.to_string(),
        vendor: vendor.map(|s| s.to_string()),
        vram_total: vram.map(|s| s.to_string()),
        uevent: uevent.map(|s| s.to_string()),
    }
}

fn status(mode: InputMode) -> StatusState {
    StatusState {
        input_mode: mode,
        show_bench: false,
        bench_view_mode: BenchViewMode::Results,
        bench_show_detail: false,
        show_multi_compare: false,
        show_detail: false,
        ollama_available: false,
        mlx_available: false,
        llamacpp_available: false,
        docker_mr_available: false,
        lmstudio_available: false,
        vllm_available: false,
        installed_first: false,
        sim_active: false,
        visual_selection_count: 0,
        select_column: 0,
    }
}

// ── text display ─────────────────────────────────────────────────────

#[test]
fn truncate_str_never_exceeds_the_limit() {
    for max in 0..8 {
        let t = truncate_str("abcdefghij", max);
        assert!(t.chars().count() <= max);
    }
    assert_eq!(truncate_str("abc", 0), "");
}

#[test]
fn truncate_with_ellipsis_cases() {
    assert_eq!(truncate_with_ellipsis("hello", 0), "");
    assert_eq!(truncate_with_ellipsis("hello", 10), "hello");
    assert_eq!(truncate_with_ellipsis("hello", 1), "…");
    assert_eq!(truncate_with_ellipsis("hello", 3), "he…");
}

#[test]
fn marquee_text_scrolls_through_a_ring() {
    assert_eq!(marquee_text("abc", 0, 0), "");
    assert_eq!(marquee_text("abc", 5, 0), "abc");
    assert_eq!(marquee_text("abcdef", 3, 0), "abc");
    assert_eq!(marquee_text("abcdef", 3, 4), "bcd");
    assert_eq!(marquee_text("abcdef", 3, 28), "  a");
    assert_eq!(marquee_text("abcdef", 3, 36), "abc");
}

#[test]
fn fit_indicator_is_a_dot() {
    assert_eq!(fit_indicator(FitLevel::Perfect), "●");
    assert_eq!(fit_indicator(FitLevel::TooTight), "●");
}

#[test]
fn pull_spinner_frames() {
    assert_eq!(pull_spinner(0), '⠋');
    assert_eq!(pull_spinner(3), '⠙');
    assert_eq!(pull_spinner(29), '⠏');
    assert_eq!(pull_spinner(30), '⠋');
}

#[test]
fn compare_badges_cases() {
    let plain = ModelFit { model: model("m"), fit_level: FitLevel::Good, run_mode: RunMode::Gpu, notes: vec![] };
    assert_eq!(compare_badges(&plain), "-");
    let mut moe = model("m");
    moe.is_moe = true;
    let all = ModelFit {
        model: moe,
        fit_level: FitLevel::Good,
        run_mode: RunMode::MoeOffload,
        notes: vec!["note".to_string()],
    };
    assert_eq!(compare_badges(&all), "MoE, Offload, Notes");
}

#[test]
fn format_epoch_dates() {
    assert_eq!(format_epoch(0), "1970-01-01");
    assert_eq!(format_epoch(86_400 * 365), "1971-01-01");
    assert_eq!(format_epoch(951_782_400), "2000-02-29");
    assert_eq!(format_epoch(1_700_000_000), "2023-11-14");
}

#[test]
fn status_search_mode_hints() {
    let (keys, mode) = status_keys_and_mode(&status(InputMode::Search));
    assert_eq!(keys, "  Type to search  Esc:done  Ctrl-U:clear");
    assert_eq!(mode, "SEARCH");
}

// ── cursor and search window ─────────────────────────────────────────

#[test]
fn floor_grapheme_boundary_cases() {
    // 'é' takes bytes 1..3; byte 2 falls inside it.
    assert_eq!(floor_grapheme_boundary("héllo", 2), 1);
    // "e" + combining acute accent form one cluster over bytes 0..3.
    assert_eq!(floor_grapheme_boundary("e\u{301}x", 1), 0);
    assert_eq!(floor_grapheme_boundary("e\u{301}x", 3), 3);
    assert_eq!(floor_grapheme_boundary("abc", 100), 3);
}

#[test]
fn visible_search_query_narrow_boxes() {
    assert_eq!(visible_search_query("hello", 3, 0), (String::new(), 0));
    assert_eq!(visible_search_query("hello", 3, 1), (String::new(), 0));
    assert_eq!(visible_dm_dir_input("/tmp", 4, 10), (String::new(), 0));
}

#[test]
fn visible_search_query_cursor_stays_in_the_box() {
    let q = "abcdefghijklmnopqrstuvwxyz";
    for cursor in 0..=q.len() {
        let (text, offset) = visible_search_query(q, cursor, 8);
        assert!((offset as usize) < 8);
        assert!(text.len() <= 7);
        assert!(q.contains(&text));
    }
}

// ── platform ─────────────────────────────────────────────────────────

#[test]
fn wsl_verdicts() {
    assert!(!is_running_in_wsl(false, true, None, None));
    assert!(is_running_in_wsl(true, true, None, None));
    assert!(is_running_in_wsl(true, false, Some("5.15.90.1-microsoft-standard-WSL2"), None));
    assert!(is_running_in_wsl(true, false, None, Some("Linux version 5.15 (Microsoft@host)")));
    assert!(!is_running_in_wsl(true, false, Some("6.1.0-generic"), Some("Linux version 6.1.0")));
}

// ── GPU list decisions ───────────────────────────────────────────────

#[test]
fn wmi_gpu_known_by_overlapping_names() {
    let known = vec!["NVIDIA GeForce RTX 4090".to_string()];
    assert!(wmi_gpu_is_known(&known, "nvidia geforce rtx 4090"));
    assert!(wmi_gpu_is_known(&known, "RTX 4090"));
    assert!(!wmi_gpu_is_known(&known, "AMD Radeon RX 7600"));
    assert!(!wmi_gpu_is_known(&vec![], "AMD Radeon RX 7600"));
}

#[test]
fn apu_and_apple_names() {
    let names = vec!["NVIDIA GeForce RTX 4090".to_string(), "AMD Radeon RX 7600".to_string()];
    assert_eq!(amd_gpu_position(&names), Some(1));
    assert_eq!(amd_gpu_position(&names[..1].to_vec()), None);
    assert_eq!(apu_gpu_name("AMD Ryzen AI MAX+ 395"), "AMD Ryzen AI MAX+ 395 (integrated)");
    assert!(has_intel_gpu(&vec!["Intel Arc A770".to_string()]));
    assert!(!has_intel_gpu(&names));
    assert_eq!(apple_gpu_name("Apple M3 Max"), "Apple M3 Max");
    assert_eq!(apple_gpu_name("Intel Core i9"), "Apple Silicon");
}

#[test]
fn vulkan_devices_already_known() {
    let rocm = vec!["Radeon RX 7700S/7600/7600S/7600M XT/PRO W7600".to_string()];
    assert!(vulkan_gpu_is_known(&rocm, true, "AMD Radeon RX 7600 XT (RADV NAVI33)"));
    let nv = vec!["NVIDIA GeForce RTX 4090".to_string()];
    assert!(vulkan_gpu_is_known(&nv, false, "NVIDIA GeForce RTX 4090"));
    assert!(!vulkan_gpu_is_known(&nv, false, "Adreno (TM) 740"));
}

#[test]
fn same_gpu_name_is_symmetric() {
    let a = "Radeon RX 7700S/7600/7600S/7600M XT/PRO W7600";
    let b = "AMD Radeon RX 7600 XT (RADV NAVI33)";
    assert_eq!(is_same_gpu_name(a, b), is_same_gpu_name(b, a));
    assert!(is_same_gpu_name(a, a));
}

// ── Windows adapters ─────────────────────────────────────────────────

#[test]
fn wmi_vram_resolution() {
    assert_eq!(resolve_wmi_vram(0, "Unknown GPU"), None);
    assert_eq!(resolve_wmi_vram(8_589_934_592, "Unknown GPU"), Some(VramAmount::Bytes(8_589_934_592)));
    // Capped 32-bit value for a card known to be larger: the estimate wins.
    assert_eq!(resolve_wmi_vram(4_293_918_720, "NVIDIA GeForce RTX 4090"), Some(VramAmount::Mib(24576)));
    assert_eq!(resolve_wmi_vram(1000, "NVIDIA GeForce RTX 4090"), Some(VramAmount::Mib(24576)));
}

#[test]
fn windows_gpu_list_skips_virtual_adapters() {
    let text = "NVIDIA GeForce RTX 4090|4293918720\nMicrosoft Basic Display Adapter|0\n\n|123\n";
    let gpus = parse_windows_gpu_list(text);
    assert_eq!(gpus.len(), 1);
    assert_eq!(gpus[0].name, "NVIDIA GeForce RTX 4090");
    assert_eq!(gpus[0].backend, GpuBackend::Cuda);
    assert_eq!(gpus[0].vram, Some(VramAmount::Mib(24576)));
}

#[test]
fn wmic_csv_list() {
    let text = "Node,AdapterRAM,Name\nPC,4293918720,NVIDIA GeForce RTX 4090\nPC,0,Microsoft Basic Display Adapter\nPC,2147483648,AMD Radeon, Inc. Card\n";
    let gpus = parse_wmic_gpu_list(text);
    assert_eq!(gpus.len(), 2);
    assert_eq!(gpus[0].name, "NVIDIA GeForce RTX 4090");
    assert_eq!(gpus[1].name, "AMD Radeon, Inc. Card");
    assert_eq!(gpus[1].backend, GpuBackend::Vulkan);
}

// ── nvidia-smi ───────────────────────────────────────────────────────

#[test]
fn nvidia_smi_groups_are_sorted_and_default_named() {
    let text = "8192, NVIDIA B\n4096\n16384, NVIDIA A\n8192, NVIDIA B\n";
    let gpus = parse_nvidia_smi_list(text);
    let names: Vec<&str> = gpus.iter().map(|g| g.name.as_str()).collect();
    assert_eq!(names, vec!["NVIDIA A", "NVIDIA B", "NVIDIA GPU"]);
    assert_eq!(gpus[1].rows.len(), 2);
    assert_eq!(gpus[2].rows[0].vram_text, "4096");
    // Lines with fewer than three fields are skipped in the extended format.
    assert!(parse_nvidia_smi_extended("None, 1024\n").is_empty());
    assert!(parse_nvidia_smi_extended("ats, 0, Tegra, Orin\n")[0].rows[0].ats);
    assert_eq!(parse_nvidia_smi_extended("ats, 0, Tegra, Orin\n")[0].name, "Tegra, Orin");
}

// ── probes ───────────────────────────────────────────────────────────

#[test]
fn lspci_names_by_slot_then_vendor() {
    let text = "\
0000:00:02.0 VGA compatible controller [0300]: Intel Corporation Meteor Lake-P [Intel Arc Graphics] [8086:7d55]
0000:01:00.0 VGA compatible controller [0300]: NVIDIA Corporation AD102 [GeForce RTX 4090] [10de:2684] (rev a1)
0000:03:00.0 Display controller [0380]: Advanced Micro Devices, Inc. [AMD/ATI] Navi 33 [Radeon RX 7600] [1002:7480]
";
    assert_eq!(
        gpu_name_from_lspci(text, &vec!["0000:01:00.0".to_string()], false),
        Some("GeForce RTX 4090".to_string())
    );
    assert_eq!(gpu_name_from_lspci(text, &vec![], false), Some("GeForce RTX 4090".to_string()));
    // The AMD card is a "Display controller": found by its slot...
    assert_eq!(
        gpu_name_from_lspci(text, &vec!["0000:03:00.0".to_string()], true),
        Some("Radeon RX 7600".to_string())
    );
    // ...while the fallback looks at VGA/3D lines only, where "ati" also
    // occurs inside "Corporation".
    assert_eq!(gpu_name_from_lspci(text, &vec![], true), Some("Intel Arc Graphics".to_string()));
    assert!(lspci_lists_intel_arc(text));
    assert!(!lspci_lists_intel_arc("0000:01:00.0 VGA: NVIDIA"));
}

#[test]
fn apple_gpu_listing() {
    assert!(lists_apple_gpu("Graphics/Displays:\n    Apple M2 Pro:\n      Chipset Model: Apple M2 Pro\n"));
    assert!(!lists_apple_gpu("Graphics/Displays:\n    AMD Radeon Pro 5500M:\n"));
}

#[test]
fn npu_smi_output() {
    assert_eq!(npu_ids("NPU ID : 0\nChip Count : 1\nNPU ID : 1\n"), vec!["0".to_string(), "1".to_string()]);
    assert_eq!(hbm_capacity_mb("Chip Type : Ascend\nHBM Capacity(MB) : 65536\n"), 65536);
    assert_eq!(hbm_capacity_mb("HBM Capacity(MB) : N/A\nHBM Capacity(MB) : 32768\n"), 0);
    assert_eq!(hbm_capacity_mb(""), 0);
}

#[test]
fn memory_totals() {
    assert_eq!(meminfo_total_kb("MemTotal:       16318208 kB\nMemFree: 1 kB\n"), Some(16318208));
    assert_eq!(meminfo_total_kb("MemFree: 1 kB\n"), None);
    assert_eq!(physical_ram_bytes(" 34359738368\r\n"), Some(34359738368));
    assert_eq!(physical_ram_bytes("0"), None);
    assert_eq!(physical_ram_bytes("abc"), None);
}

#[test]
fn vm_stat_counters() {
    let text = "Mach Virtual Memory Statistics: (page size of 4096 bytes)\nPages free:                               12345.\nPages active:                             100.\nPages inactive:                           200.\nPages purgeable:                          30.\n";
    let s = parse_vm_stat(text);
    assert_eq!((s.page_size, s.free, s.inactive, s.purgeable), (4096, 12345, 200, 30));
    let empty = parse_vm_stat("");
    assert_eq!((empty.page_size, empty.free, empty.inactive, empty.purgeable), (16384, 0, 0, 0));
}

#[test]
fn uevent_and_sysfs_scans() {
    let u = parse_uevent("DRIVER=nvidia\nPCI_CLASS=30000\nPCI_SLOT_NAME=0000:01:00.0\n");
    assert_eq!(u.slots, vec!["0000:01:00.0".to_string()]);
    assert!(u.nvidia_driver);
    assert!(!parse_uevent("DRIVER=amdgpu\n").nvidia_driver);

    let cards = vec![
        card("card0", Some("0x10de\n"), Some("25757220864\n"), Some("DRIVER=nvidia\nPCI_SLOT_NAME=0000:01:00.0\n")),
        card("card0-DP-1", Some("0x10de\n"), Some("1\n"), None),
        card("card1", Some("0x1002\n"), Some("8573157376\n"), Some("PCI_SLOT_NAME=0000:03:00.0\n")),
        card("card2", Some("0x10de\n"), Some("12884901888\n"), None),
    ];
    let nv = scan_nvidia_sysfs(&cards).unwrap();
    assert_eq!(nv.count, 2);
    assert_eq!(nv.max_vram_bytes, 25757220864);
    assert_eq!(nv.slot_hints, vec!["0000:01:00.0".to_string()]);
    assert!(nv.nvidia_driver);
    assert!(scan_nvidia_sysfs(&vec![]).is_none());

    let amd = scan_amd_sysfs(&cards).unwrap();
    assert_eq!(amd.vram_bytes, 8573157376);
    assert_eq!(amd.slot_hints, vec!["0000:03:00.0".to_string()]);
    let only_nvidia = vec![card("card0", Some("0x10de\n"), None, None)];
    assert!(scan_amd_sysfs(&only_nvidia).is_none());
}

#[test]
fn vram_fallback_to_estimate() {
    assert_eq!(vram_or_estimate(5, "anything"), Some(VramAmount::Bytes(5)));
    assert_eq!(vram_or_estimate(0, "NVIDIA GeForce RTX 4090"), Some(VramAmount::Mib(24576)));
    assert_eq!(vram_or_estimate(0, "Unknown"), None);
}

#[test]
fn intel_gpu_detection() {
    let discrete = vec![card("card0", Some("0x8086\n"), Some("17179869184\n"), None)];
    assert_eq!(detect_intel_gpu(&discrete, None), IntelGpu::Vram(17179869184));
    let igpu = vec![card("card0", Some("0x8086\n"), None, None)];
    let lspci = "0000:00:02.0 VGA compatible controller: Intel Corporation Meteor Lake-P [Intel Arc Graphics]\n";
    assert_eq!(detect_intel_gpu(&igpu, Some(lspci)), IntelGpu::Integrated);
    assert_eq!(detect_intel_gpu(&vec![], None), IntelGpu::NotFound);
    let other = vec![card("card0", Some("0x10de\n"), Some("1024\n"), None)];
    assert_eq!(detect_intel_gpu(&other, None), IntelGpu::NotFound);
    assert_eq!(detect_intel_gpu(&other, Some(lspci)), IntelGpu::Integrated);
}

#[test]
fn vulkan_groups_count_hardware_devices() {
    let text = "GPU id = 0 (NVIDIA GeForce RTX 4090)\nGPU id = 1 (NVIDIA GeForce RTX 4090)\nGPU id = 2 (llvmpipe (LLVM 17.0.0, 256 bits))\nGPU id = 3 (Adreno (TM) 740)\n";
    let groups = vulkan_gpu_groups(text);
    assert_eq!(groups.len(), 2);
    assert_eq!(groups[0].name, "Adreno (TM) 740");
    assert_eq!(groups[0].count, 1);
    assert_eq!(groups[1].name, "NVIDIA GeForce RTX 4090");
    assert_eq!(groups[1].count, 2);
}

#[test]
fn cpu_and_soc_names() {
    let brands = vec!["".to_string(), " Unknown ".to_string(), " AMD Ryzen 9 7950X ".to_string()];
    assert_eq!(first_cpu_brand(&brands), Some("AMD Ryzen 9 7950X".to_string()));
    assert_eq!(first_cpu_brand(&vec!["UNKNOWN".to_string()]), None);
    assert_eq!(soc_model_name("  SM8650\n"), Some("SM8650".to_string()));
    assert_eq!(soc_model_name("  \n"), None);
}

// ── models ───────────────────────────────────────────────────────────

#[test]
fn head_guesses_by_family() {
    assert_eq!(infer_heads_from_name("gemma-2-9b", 9), (16, 8));
    assert_eq!(infer_heads_from_name("phi-3-mini", 4), (32, 8));
    assert_eq!(infer_heads_from_name("MiniMax-M1", 456), (48, 8));
    assert_eq!(infer_heads_from_name("unknown", 3), (16, 4));
    assert_eq!(infer_heads_from_name("Mixtral-8x22B", 141), (96, 8));
    assert_eq!(infer_heads_from_name("Llama-4-Scout", 109), (64, 8));
}

#[test]
fn valid_tp_sizes_are_exactly_the_divisors() {
    let mut m = model("x");
    m.num_attention_heads = Some(40);
    m.num_key_value_heads = Some(10);
    assert_eq!(m.valid_tp_sizes(0), vec![1, 2, 5]);
    m.num_key_value_heads = None;
    m.num_attention_heads = Some(6);
    assert_eq!(m.valid_tp_sizes(0), vec![1, 2, 3, 6]);
    for tp in 0..=1 {
        assert!(m.supports_tp(tp, 0));
    }
}

#[test]
fn mlx_name_checks_use_case_mapping() {
    assert!(model("Foo-MLX-4bit").is_mlx_model());
    assert!(model("foo-mlx").is_mlx_model());
    assert!(!model("Foo-4bit").is_mlx_model());
    assert!(model("foo-mlx-8bit").is_mlx_only());
    assert_eq!(lower_str("AbC"), vec!['a', 'b', 'c']);
}

#[test]
fn license_filter() {
    assert!(!matches_license_filter(&None, "mit"));
    assert!(matches_license_filter(&Some("MIT".to_string()), " apache-2.0 , mit"));
    assert!(!matches_license_filter(&Some("gpl-3.0".to_string()), "mit,apache-2.0"));
}

#[test]
fn kv_quant_labels_round_trip() {
    for kv in KvQuant::all() {
        assert_eq!(KvQuant::parse(kv.label()), Some(*kv));
    }
}

#[test]
fn canonical_slugs_match_across_orgs_and_case() {
    assert_eq!(canonical_slug("meta-llama/Llama-3.1-8B"), canonical_slug("other/llama-3.1-8b"));
    assert_eq!(canonical_slug("meta-llama/Llama-3.1-8B"), "llama318b");
}

// ── catalogue ────────────────────────────────────────────────────────

#[test]
fn test_find_model() {
    let db = ModelDatabase::from_models(vec![
        model("meta-llama/Llama-3.1-8B"),
        model("meta-llama/Llama-3.3-70B"),
        model("Qwen/Qwen3-8B"),
    ]);

    // Search by name substring (case insensitive)
    let results = db.find_model("llama");
    assert!(!results.is_empty());
    assert!(results.iter().any(|m| m.name.to_lowercase().contains("llama")));

    // Search should be case insensitive
    let results_upper = db.find_model("LLAMA");
    assert_eq!(results.len(), results_upper.len());
}

#[test]
fn cached_models_with_a_known_slug_are_skipped() {
    let embedded = vec!["meta-llama/Llama-3.1-8B".to_string(), "Qwen/Qwen3-8B".to_string()];
    let cached = vec![
        "other/llama-3.1-8b".to_string(),
        "mistralai/Mistral-7B".to_string(),
        "qwen/qwen3_8b".to_string(),
        "google/gemma-2-9b".to_string(),
    ];
    assert_eq!(cached_to_keep(&embedded, &cached), vec![1, 3]);
    assert_eq!(cached_to_keep(&vec![], &cached), vec![0, 1, 2, 3]);
    assert!(cached_to_keep(&embedded, &vec![]).is_empty());
}

#[test]
fn gpu_names_normalise_ascii_punctuation() {
    assert_eq!(normalize_gpu_name_for_dedupe(" Adreno (TM) 740 "), "adreno tm 740");
    assert_eq!(normalize_gpu_name_for_dedupe("NVIDIA GeForce RTX-4090!!"), "nvidia geforce rtx 4090");
}

#[test]
fn find_model_matches_name_provider_or_size() {
    let mut q = model("Qwen/Qwen3-8B");
    q.provider = "Alibaba".to_string();
    q.parameter_count = "32B".to_string();
    let db = ModelDatabase::from_models(vec![model("meta-llama/Llama-3.1-8B"), q]);
    assert_eq!(db.get_all_models().len(), 2);
    assert_eq!(db.find_model("llama").len(), 1);
    assert_eq!(db.find_model("LLAMA").len(), 1);
    assert_eq!(db.find_model("alibaba")[0].name, "Qwen/Qwen3-8B");
    assert_eq!(db.find_model("8b").len(), 2);
    assert!(db.find_model("mistral").is_empty());
}

#[test]
fn dedupe_keeps_first_seen_order_and_merges_by_slug() {
    let out = dedupe_hf_entries(vec![
        entry("org/Model-A"),
        entry("org/Model-B"),
        entry("mirror/model_a"),
    ]);
    assert_eq!(out.len(), 2);
    assert_eq!(out[0].entry.name, "org/Model-A");
    assert_eq!(out[0].members, vec![0, 2]);
    assert_eq!(out[1].members, vec![1]);
}

#[test]
fn merge_keeps_first_moe_details_and_unions() {
    let mut a = entry("m");
    a.is_moe = true;
    a.num_experts = Some(8);
    a.capabilities = vec![Capability::Vision];
    a.gguf_sources = vec![GgufSource { repo: "r/one".to_string(), provider: "p".to_string() }];
    a.release_date = None;
    let mut b = entry("m");
    b.is_moe = true;
    b.num_experts = Some(64);
    b.capabilities = vec![Capability::Vision, Capability::ToolUse];
    b.gguf_sources = vec![
        GgufSource { repo: "r/one".to_string(), provider: "other".to_string() },
        GgufSource { repo: "r/two".to_string(), provider: "p".to_string() },
    ];
    b.release_date = Some("2025-01-01".to_string());
    b.hf_likes = 3;
    merge_hf_entry(&mut a, &b);
    assert_eq!(a.num_experts, Some(8));
    assert_eq!(a.capabilities, vec![Capability::Vision, Capability::ToolUse]);
    assert_eq!(a.gguf_sources.len(), 2);
    assert_eq!(a.gguf_sources[0].provider, "p");
    assert_eq!(a.release_date.as_deref(), Some("2025-01-01"));
    assert_eq!(a.hf_likes, 3);
}

#[test]
fn filter_summaries() {
    assert_eq!(filter_summary(&vec![true, true, true], 3), ("All".to_string(), FilterTone::All));
    assert_eq!(filter_summary(&vec![true, false, true], 3), ("2/3".to_string(), FilterTone::Part));
    assert_eq!(filter_summary(&vec![false, false], 2), ("0/2".to_string(), FilterTone::Nothing));
    assert_eq!(filter_summary(&vec![], 0), ("All".to_string(), FilterTone::All));
}

#[test]
fn rocm_checked_reads_ordinary_output() {
    let vram_text = "GPU[0]          : VRAM Total Memory (B): 34208743424\n";
    let groups = llmfit::rocm::parse_rocm_smi_output_checked(vram_text, None).unwrap();
    assert_eq!(groups.len(), 1);
    assert_eq!(groups[0].name, "AMD GPU");
    assert_eq!(groups[0].count, 1);
    assert_eq!(groups[0].vram_bytes, Some(34208743424));
}
