use llmfit::models::{
    infer_attention_layout_from_name, infer_heads_from_name, parse_generation, quant_bpp,
    quant_bytes_per_param, quant_quality_penalty, quant_speed_multiplier, AttentionLayout,
    Capability, KvQuant, LlmModel, ModelFormat, UseCase,
};

/// Bytes per parameter (the library works in hundredths).
fn bpp(q: &str) -> f64 {
    quant_bpp(q) as f64 / 100.0
}

/// Speed multiplier (the library works in hundredths).
fn speed(q: &str) -> f64 {
    quant_speed_multiplier(q) as f64 / 100.0
}

/// Quality penalty in points.
fn penalty(q: &str) -> f64 {
    quant_quality_penalty(q) as f64
}

/// Bytes per parameter for the on-disk size (the library works in
/// thousandths).
fn bytes_pp(q: &str) -> f64 {
    quant_bytes_per_param(q) as f64 / 1000.0
}

/// Generation number (the library works in tenths).
fn generation(arch: Option<&str>, name: &str) -> Option<f64> {
    parse_generation(arch, name).map(|t| t as f64 / 10.0)
}

fn base_model(name: &str, parameter_count: &str, raw: u64, use_case: &str) -> LlmModel {
    LlmModel {
        name: name.to_string(),
        provider: "Test".to_string(),
        parameter_count: parameter_count.to_string(),
        parameters_raw: Some(raw),
        quantization: "Q4_K_M".to_string(),
        context_length: 4096,
        use_case: use_case.to_string(),
        is_moe: false,
        num_experts: None,
        active_experts: None,
        active_parameters: None,
        release_date: None,
        gguf_sources: vec![],
        capabilities: vec![],
        format: ModelFormat::default(),
        num_attention_heads: None,
        num_key_value_heads: None,
        num_hidden_layers: None,
        head_dim: None,
        attention_layout: None,
        hidden_size: None,
        moe_intermediate_size: None,
        vocab_size: None,
        shared_expert_intermediate_size: None,
        architecture: None,
        license: None,
    }
}

/// A model for the tensor-parallel checks; `params_b` whole billions.
fn tp_test_model(name: &str, params_b: u64, attn_heads: Option<u32>, kv_heads: Option<u32>) -> LlmModel {
    let mut m = base_model(name, &format!("{}B", params_b), params_b * 1_000_000_000, "General");
    m.num_attention_heads = attn_heads;
    m.num_key_value_heads = kv_heads;
    m
}

#[test]
fn test_mlx_quant_bpp_values() {
    assert_eq!(bpp("mlx-4bit"), 0.55);
    assert_eq!(bpp("mlx-8bit"), 1.0);
    assert_eq!(speed("mlx-4bit"), 1.15);
    assert_eq!(speed("mlx-8bit"), 0.85);
    assert_eq!(penalty("mlx-4bit"), -4.0);
    assert_eq!(penalty("mlx-8bit"), 0.0);
}

#[test]
fn test_ud_quant_mappings() {
    assert_eq!(bpp("UD-Q2_K_XL"), bpp("Q2_K"));
    assert_eq!(bytes_pp("UD-Q2_K_XL"), bytes_pp("Q2_K"));
    assert_eq!(speed("UD-Q2_K_XL"), speed("Q2_K"));
    assert_eq!(penalty("UD-Q2_K_XL"), penalty("Q2_K"));

    assert_eq!(bpp("UD-Q4_K_M"), bpp("Q4_K_M"));
    assert_eq!(bytes_pp("UD-Q4_K_M"), bytes_pp("Q4_K_M"));

    assert_eq!(bpp("UD-Q8_K_S"), bpp("Q8_0"));
    assert_eq!(bytes_pp("UD-Q8_K_S"), bytes_pp("Q8_0"));

    assert!(bpp("UD-Q2_K_XL") < 0.5, "UD-Q2_K_XL bpp should be 0.37, not default 0.58");
    assert!(bytes_pp("UD-Q2_K_XL") < 0.4, "UD-Q2_K_XL bytes should be 0.25, not default 0.5");
}

#[test]
fn test_quant_bpp() {
    assert_eq!(bpp("F32"), 4.0);
    assert_eq!(bpp("F16"), 2.0);
    assert_eq!(bpp("Q8_0"), 1.05);
    assert_eq!(bpp("Q4_K_M"), 0.58);
    assert_eq!(bpp("Q2_K"), 0.37);
    assert_eq!(bpp("UNKNOWN"), 0.58);
}

#[test]
fn test_quant_speed_multiplier() {
    assert_eq!(speed("F16"), 0.6);
    assert_eq!(speed("Q5_K_M"), 1.0);
    assert_eq!(speed("Q4_K_M"), 1.15);
    assert_eq!(speed("Q2_K"), 1.35);
    assert!(speed("Q2_K") > speed("Q8_0"));
}

#[test]
fn test_quant_quality_penalty() {
    assert_eq!(penalty("F16"), 0.0);
    assert_eq!(penalty("Q8_0"), 0.0);
    assert_eq!(penalty("Q4_K_M"), -5.0);
    assert_eq!(penalty("Q2_K"), -12.0);
    assert!(penalty("Q2_K") < penalty("Q8_0"));
}

#[test]
fn test_use_case_from_model_coding() {
    let mut model = base_model("codellama-7b", "7B", 7_000_000_000, "Coding");
    model.provider = "Meta".to_string();
    assert_eq!(UseCase::from_model(&model), UseCase::Coding);
}

#[test]
fn test_use_case_from_model_embedding() {
    let mut model = base_model("bge-large", "335M", 335_000_000, "Embedding");
    model.provider = "BAAI".to_string();
    model.quantization = "F16".to_string();
    model.context_length = 512;
    assert_eq!(UseCase::from_model(&model), UseCase::Embedding);
}

#[test]
fn test_use_case_from_model_reasoning() {
    let mut model = base_model("deepseek-r1-7b", "7B", 7_000_000_000, "Reasoning");
    model.provider = "DeepSeek".to_string();
    model.context_length = 8192;
    assert_eq!(UseCase::from_model(&model), UseCase::Reasoning);
}

#[test]
fn test_capability_infer_vision() {
    let mut model = base_model(
        "meta-llama/Llama-3.2-11B-Vision-Instruct",
        "11B",
        11_000_000_000,
        "Multimodal, vision and text",
    );
    model.context_length = 131072;
    let caps = Capability::infer(&model);
    assert!(caps.contains(&Capability::Vision));
    assert!(caps.contains(&Capability::ToolUse));
}

#[test]
fn test_capability_infer_tool_use() {
    let mut model =
        base_model("Qwen/Qwen3-8B", "8B", 8_000_000_000, "General purpose text generation");
    model.context_length = 32768;
    let caps = Capability::infer(&model);
    assert!(caps.contains(&Capability::ToolUse));
    assert!(!caps.contains(&Capability::Vision));
}

#[test]
fn test_capability_infer_none() {
    let mut model =
        base_model("BAAI/bge-large-en-v1.5", "335M", 335_000_000, "Text embeddings for RAG");
    model.quantization = "F16".to_string();
    model.context_length = 512;
    let caps = Capability::infer(&model);
    assert!(caps.is_empty());
}

#[test]
fn test_capability_preserves_explicit() {
    let mut model = base_model("some-model", "7B", 7_000_000_000, "General");
    model.capabilities = vec![Capability::Vision];
    let caps = Capability::infer(&model);
    assert_eq!(caps.iter().filter(|c| **c == Capability::Vision).count(), 1);
}

#[test]
fn test_awq_gptq_quant_values() {
    assert_eq!(bpp("AWQ-4bit"), 0.5);
    assert_eq!(bpp("AWQ-8bit"), 1.0);
    assert_eq!(speed("AWQ-4bit"), 1.2);
    assert_eq!(speed("AWQ-8bit"), 0.85);
    assert_eq!(penalty("AWQ-4bit"), -3.0);
    assert_eq!(penalty("AWQ-8bit"), 0.0);
    assert_eq!(bpp("GPTQ-Int4"), 0.5);
    assert_eq!(bpp("GPTQ-Int8"), 1.0);
    assert_eq!(speed("GPTQ-Int4"), 1.2);
    assert_eq!(speed("GPTQ-Int8"), 0.85);
    assert_eq!(penalty("GPTQ-Int4"), -3.0);
    assert_eq!(penalty("GPTQ-Int8"), 0.0);
}

#[test]
fn test_model_format_prequantized() {
    assert!(ModelFormat::Awq.is_prequantized());
    assert!(ModelFormat::Gptq.is_prequantized());
    assert!(ModelFormat::Autoround.is_prequantized());
    assert!(!ModelFormat::Gguf.is_prequantized());
    assert!(!ModelFormat::Mlx.is_prequantized());
    assert!(!ModelFormat::Safetensors.is_prequantized());
}

#[test]
fn test_supports_tp_with_explicit_heads() {
    let model = tp_test_model("Test-8B", 8, Some(32), Some(8));
    assert!(model.supports_tp(1, 8));
    assert!(model.supports_tp(2, 8));
    assert!(model.supports_tp(4, 8));
    assert!(model.supports_tp(8, 8));
    assert!(!model.supports_tp(3, 8));
    assert!(!model.supports_tp(5, 8));
}

#[test]
fn test_supports_tp_always_true_for_1() {
    let model = tp_test_model("Tiny", 1, None, None);
    assert!(model.supports_tp(1, 1));
}

#[test]
fn test_valid_tp_sizes_32_8() {
    let model = tp_test_model("Test", 8, Some(32), Some(8));
    let sizes = model.valid_tp_sizes(8);
    assert!(sizes.contains(&1));
    assert!(sizes.contains(&2));
    assert!(sizes.contains(&4));
    assert!(sizes.contains(&8));
    assert!(!sizes.contains(&3));
}

#[test]
fn test_valid_tp_sizes_48_heads() {
    let model = tp_test_model("Llama-32B", 32, Some(48), Some(8));
    assert!(model.supports_tp(2, 32));
    assert!(!model.supports_tp(3, 32));
    assert!(model.supports_tp(4, 32));
    assert!(model.supports_tp(8, 32));
}

#[test]
fn test_infer_heads_from_name_qwen() {
    let (attn, kv) = infer_heads_from_name("Qwen2.5-72B-Instruct", 72);
    assert_eq!(attn, 64);
    assert_eq!(kv, 8);
}

#[test]
fn test_infer_heads_from_name_llama() {
    let (attn, kv) = infer_heads_from_name("Llama-3.1-8B", 8);
    assert_eq!(attn, 32);
    assert_eq!(kv, 8);
}

#[test]
fn test_infer_heads_from_name_deepseek() {
    let (attn, kv) = infer_heads_from_name("DeepSeek-V3", 671);
    assert_eq!(attn, 128);
    assert_eq!(kv, 16);
}

#[test]
fn test_supports_tp_with_inferred_heads() {
    let model = tp_test_model("Llama-3.1-70B", 70, None, None);
    assert!(model.supports_tp(2, 70));
    assert!(model.supports_tp(4, 70));
    assert!(model.supports_tp(8, 70));
}

#[test]
fn test_kv_quant_from_str_round_trip() {
    for kv in KvQuant::all() {
        let parsed = KvQuant::parse(kv.label()).expect("label should parse");
        assert_eq!(parsed, *kv);
    }
    assert_eq!(KvQuant::parse("FP16"), Some(KvQuant::Fp16));
    assert_eq!(KvQuant::parse("Q4_0"), Some(KvQuant::Q4_0));
    assert_eq!(KvQuant::parse("turboquant"), Some(KvQuant::TurboQuant));
    assert_eq!(KvQuant::parse("nope"), None);
}

#[test]
fn test_infer_attention_layout_qwen3_next() {
    let layout = infer_attention_layout_from_name("Qwen/Qwen3-Next-80B-A3B");
    assert!(layout.is_some());
    let layout = layout.unwrap();
    assert!(layout.full > 0 && layout.linear > 0);
    let fraction = layout.full as f64 / layout.total() as f64;
    assert!(fraction < 0.5);
}

#[test]
fn test_infer_attention_layout_dense_returns_none() {
    assert!(infer_attention_layout_from_name("meta-llama/Llama-3.1-8B").is_none());
    assert!(infer_attention_layout_from_name("Qwen/Qwen2.5-7B").is_none());
}

#[test]
fn test_effective_attention_layout_prefers_explicit() {
    let mut model = base_model("Qwen/Qwen3-Next-80B", "8B", 8_000_000_000, "General");
    model.context_length = 8192;
    model.num_attention_heads = Some(32);
    model.num_key_value_heads = Some(8);
    model.num_hidden_layers = Some(32);
    model.head_dim = Some(128);
    model.attention_layout = Some(AttentionLayout { full: 5, linear: 35 });
    let resolved = model.effective_attention_layout().unwrap();
    assert_eq!(resolved.full, 5);
    assert_eq!(resolved.linear, 35);
}

#[test]
fn test_parse_generation_from_architecture() {
    assert_eq!(generation(Some("qwen2"), ""), Some(2.0));
    assert_eq!(generation(Some("qwen3"), ""), Some(3.0));
    assert_eq!(generation(Some("qwen3_moe"), ""), Some(3.0));
    assert_eq!(generation(Some("qwen3_5_moe"), ""), Some(3.5));
    assert_eq!(generation(Some("qwen3_5"), ""), Some(3.5));
    assert_eq!(generation(Some("qwen3_next"), ""), Some(3.8));

    assert_eq!(generation(Some("deepseek"), ""), Some(1.0));
    assert_eq!(generation(Some("deepseek_v2"), ""), Some(2.0));
    assert_eq!(generation(Some("deepseek_v3"), ""), Some(3.0));
    assert_eq!(generation(Some("deepseek_v4"), ""), Some(4.0));

    assert_eq!(generation(Some("llama4"), ""), Some(4.0));

    assert_eq!(generation(Some("gemma"), ""), Some(1.0));
    assert_eq!(generation(Some("gemma2"), ""), Some(2.0));
    assert_eq!(generation(Some("gemma3"), ""), Some(3.0));
    assert_eq!(generation(Some("gemma4"), ""), Some(4.0));

    assert_eq!(generation(Some("phi"), ""), Some(1.0));
    assert_eq!(generation(Some("phi3"), ""), Some(3.0));

    assert_eq!(generation(Some("unknown_arch"), ""), None);
}

#[test]
fn test_parse_generation_from_name_fallback() {
    assert_eq!(generation(Some("llama"), "meta-llama/Llama-3.1-8B"), Some(3.1));
    assert_eq!(generation(Some("llama"), "meta-llama/Llama-2-7B"), Some(2.0));
    assert_eq!(generation(None, "Qwen/Qwen3.6-35B-A3B"), Some(3.6));
    assert_eq!(generation(None, "Qwen/Qwen2.5-72B"), Some(2.5));
    assert_eq!(generation(None, "deepseek-ai/DeepSeek-V4-Flash"), Some(4.0));
    assert_eq!(generation(None, "google/gemma-3-12b-it"), Some(3.0));
}
