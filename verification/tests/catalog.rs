use llmfit::catalog::{dedupe_hf_entries, HfModelEntry};
use llmfit::models::{Capability, GgufSource, ModelFormat};

#[test]
fn test_dedupe_hf_entries_merges_duplicate_metadata() {
    // The memory estimates are floating-point numbers that the caller merges
    // over `members`; they are checked here the same way.
    let min_ram = [10.0f64, 12.0];
    let recommended_ram = [18.0f64, 24.0];
    let min_vram = [Some(8.0f64), Some(10.0)];
    let deduped = dedupe_hf_entries(vec![
        HfModelEntry {
            name: "Test/ModelA".to_string(),
            provider: "Test".to_string(),
            parameter_count: "18B".to_string(),
            parameters_raw: Some(18_000_000_000),
            quantization: "Q4_K_M".to_string(),
            context_length: 32_768,
            use_case: "General".to_string(),
            is_moe: false,
            num_experts: None,
            active_experts: None,
            active_parameters: None,
            release_date: Some("2026-01-01".to_string()),
            gguf_sources: vec![GgufSource {
                repo: "test/model-a-gguf".to_string(),
                provider: "test".to_string(),
            }],
            capabilities: vec![Capability::Vision],
            format: ModelFormat::Safetensors,
            hf_downloads: 10_000,
            hf_likes: 500,
            num_attention_heads: Some(32),
            num_key_value_heads: None,
            num_hidden_layers: Some(48),
            head_dim: None,
            hidden_size: None,
            vocab_size: None,
            moe_intermediate_size: None,
            shared_expert_intermediate_size: None,
            architecture: None,
            license: Some("apache-2.0".to_string()),
        },
        HfModelEntry {
            name: "Test/ModelA".to_string(),
            provider: "Test".to_string(),
            parameter_count: "20B".to_string(),
            parameters_raw: Some(20_000_000_000),
            quantization: "Q4_K_M".to_string(),
            context_length: 65_536,
            use_case: "General".to_string(),
            is_moe: true,
            num_experts: Some(64),
            active_experts: Some(8),
            active_parameters: Some(3_000_000_000),
            release_date: Some("2026-02-01".to_string()),
            gguf_sources: vec![GgufSource {
                repo: "unsloth/model-a-gguf".to_string(),
                provider: "unsloth".to_string(),
            }],
            capabilities: vec![Capability::ToolUse],
            format: ModelFormat::Gguf,
            hf_downloads: 100,
            hf_likes: 10,
            num_attention_heads: None,
            num_key_value_heads: Some(8),
            num_hidden_layers: None,
            head_dim: Some(128),
            hidden_size: None,
            vocab_size: None,
            moe_intermediate_size: None,
            shared_expert_intermediate_size: None,
            architecture: None,
            license: None,
        },
    ]);

    assert_eq!(deduped.len(), 1, "two entries with the same name should be collapsed to one");
    let group = &deduped[0];
    let m = &group.entry;
    assert_eq!(group.members, vec![0, 1]);

    assert_eq!(m.parameter_count, "20B");
    assert_eq!(m.parameters_raw, Some(20_000_000_000));

    let mut ram = min_ram[group.members[0]];
    let mut rec = recommended_ram[group.members[0]];
    let mut vram = min_vram[group.members[0]];
    for &i in &group.members[1..] {
        if min_ram[i] > ram {
            ram = min_ram[i];
        }
        if recommended_ram[i] > rec {
            rec = recommended_ram[i];
        }
        if min_vram[i].unwrap_or(0.0) > vram.unwrap_or(0.0) {
            vram = min_vram[i];
        }
    }
    assert_eq!(ram, 12.0);
    assert_eq!(rec, 24.0);
    assert_eq!(vram, Some(10.0));

    assert_eq!(m.context_length, 65_536);

    assert!(m.is_moe);
    assert_eq!(m.num_experts, Some(64));
    assert_eq!(m.active_experts, Some(8));
    assert_eq!(m.active_parameters, Some(3_000_000_000));

    assert_eq!(m.release_date.as_deref(), Some("2026-02-01"));

    assert!(m.capabilities.contains(&Capability::Vision));
    assert!(m.capabilities.contains(&Capability::ToolUse));

    assert_eq!(m.gguf_sources.len(), 2);
    assert!(m.gguf_sources.iter().any(|s| s.repo == "test/model-a-gguf"));
    assert!(m.gguf_sources.iter().any(|s| s.repo == "unsloth/model-a-gguf"));

    assert_eq!(m.hf_downloads, 10_000);
    assert_eq!(m.hf_likes, 500);

    assert_eq!(m.num_attention_heads, Some(32));
    assert_eq!(m.num_key_value_heads, Some(8));
    assert_eq!(m.num_hidden_layers, Some(48));
    assert_eq!(m.head_dim, Some(128));

    assert_eq!(m.license.as_deref(), Some("apache-2.0"));
}
