//! The model catalogue's logic: quantization tables, generation parsing,
//! capability and use-case inference, KV-cache options and attention
//! layouts.
use vstd::prelude::*;
use crate::text::{
    after_last, after_last_char, chars_of, eq_chars, contains_str, ends_with_str, eq_str, has_prefix,
    has_substring, has_suffix, lower_str, remove_separators, slice_of, split, split_char,
    starts_with_str, str_lowercase, str_uppercase, string_of, to_lowercase, to_uppercase, trim,
    trimmed, views, without_separators, all_ascii, ascii_lowered, ascii_lower, ascii_uppered, split_from,
};

verus! {

/// Bytes per parameter, in hundredths, for each quantization name.
pub open spec fn quant_bpp_of(q: Seq<char>) -> u32 {
    if q == "F32"@ {
        400u32
    } else if q == "F16"@ || q == "BF16"@ {
        200u32
    } else if q == "Q8_0"@ {
        105u32
    } else if q == "Q6_K"@ {
        80u32
    } else if q == "Q5_K_M"@ {
        68u32
    } else if q == "Q4_K_M"@ || q == "Q4_0"@ {
        58u32
    } else if q == "Q3_K_M"@ {
        48u32
    } else if q == "Q2_K"@ {
        37u32
    } else if q == "UD-Q2_K_XL"@ || q == "UD-Q2_K_L"@ || q == "UD-Q2_K_M"@ || q == "UD-Q2_K_S"@ {
        37u32
    } else if q == "UD-Q3_K_XL"@ || q == "UD-Q3_K_L"@ || q == "UD-Q3_K_M"@ || q == "UD-Q3_K_S"@ {
        48u32
    } else if q == "UD-Q4_K_XL"@ || q == "UD-Q4_K_L"@ || q == "UD-Q4_K_M"@ || q == "UD-Q4_K_S"@ {
        58u32
    } else if q == "UD-Q5_K_XL"@ || q == "UD-Q5_K_L"@ || q == "UD-Q5_K_M"@ || q == "UD-Q5_K_S"@ {
        68u32
    } else if q == "UD-Q6_K_XL"@ || q == "UD-Q6_K_L"@ || q == "UD-Q6_K_M"@ || q == "UD-Q6_K_S"@ {
        80u32
    } else if q == "UD-Q8_K_XL"@ || q == "UD-Q8_K_L"@ || q == "UD-Q8_K_M"@ || q == "UD-Q8_K_S"@ {
        105u32
    } else if q == "mlx-4bit"@ {
        55u32
    } else if q == "mlx-8bit"@ {
        100u32
    } else if q == "AWQ-4bit"@ {
        50u32
    } else if q == "AWQ-8bit"@ {
        100u32
    } else if q == "GPTQ-Int4"@ {
        50u32
    } else if q == "GPTQ-Int8"@ {
        100u32
    } else {
        58u32
    }
}

/// Bytes per parameter for each quantization level, in hundredths of a byte
/// (e.g. 105 for Q8_0's 1.05); unknown names give the Q4_K_M value.
pub fn quant_bpp(quant: &str) -> (r: u32)
    ensures
        r == quant_bpp_of(quant@),
{
    let qv = chars_of(quant);
    if eq_str(&qv, "F32") {
        return 400u32;
    }
    if eq_str(&qv, "F16") || eq_str(&qv, "BF16") {
        return 200u32;
    }
    if eq_str(&qv, "Q8_0") {
        return 105u32;
    }
    if eq_str(&qv, "Q6_K") {
        return 80u32;
    }
    if eq_str(&qv, "Q5_K_M") {
        return 68u32;
    }
    if eq_str(&qv, "Q4_K_M") || eq_str(&qv, "Q4_0") {
        return 58u32;
    }
    if eq_str(&qv, "Q3_K_M") {
        return 48u32;
    }
    if eq_str(&qv, "Q2_K") {
        return 37u32;
    }
    if eq_str(&qv, "UD-Q2_K_XL") || eq_str(&qv, "UD-Q2_K_L") || eq_str(&qv, "UD-Q2_K_M") || eq_str(&qv, "UD-Q2_K_S") {
        return 37u32;
    }
    if eq_str(&qv, "UD-Q3_K_XL") || eq_str(&qv, "UD-Q3_K_L") || eq_str(&qv, "UD-Q3_K_M") || eq_str(&qv, "UD-Q3_K_S") {
        return 48u32;
    }
    if eq_str(&qv, "UD-Q4_K_XL") || eq_str(&qv, "UD-Q4_K_L") || eq_str(&qv, "UD-Q4_K_M") || eq_str(&qv, "UD-Q4_K_S") {
        return 58u32;
    }
    if eq_str(&qv, "UD-Q5_K_XL") || eq_str(&qv, "UD-Q5_K_L") || eq_str(&qv, "UD-Q5_K_M") || eq_str(&qv, "UD-Q5_K_S") {
        return 68u32;
    }
    if eq_str(&qv, "UD-Q6_K_XL") || eq_str(&qv, "UD-Q6_K_L") || eq_str(&qv, "UD-Q6_K_M") || eq_str(&qv, "UD-Q6_K_S") {
        return 80u32;
    }
    if eq_str(&qv, "UD-Q8_K_XL") || eq_str(&qv, "UD-Q8_K_L") || eq_str(&qv, "UD-Q8_K_M") || eq_str(&qv, "UD-Q8_K_S") {
        return 105u32;
    }
    if eq_str(&qv, "mlx-4bit") {
        return 55u32;
    }
    if eq_str(&qv, "mlx-8bit") {
        return 100u32;
    }
    if eq_str(&qv, "AWQ-4bit") {
        return 50u32;
    }
    if eq_str(&qv, "AWQ-8bit") {
        return 100u32;
    }
    if eq_str(&qv, "GPTQ-Int4") {
        return 50u32;
    }
    if eq_str(&qv, "GPTQ-Int8") {
        return 100u32;
    }
    58
}
/// Speed multiplier, in hundredths, for each quantization name.
pub open spec fn quant_speed_multiplier_of(q: Seq<char>) -> u32 {
    if q == "F16"@ || q == "BF16"@ {
        60u32
    } else if q == "Q8_0"@ {
        80u32
    } else if q == "Q6_K"@ {
        95u32
    } else if q == "Q5_K_M"@ {
        100u32
    } else if q == "Q4_K_M"@ || q == "Q4_0"@ {
        115u32
    } else if q == "Q3_K_M"@ {
        125u32
    } else if q == "Q2_K"@ {
        135u32
    } else if q == "UD-Q2_K_XL"@ || q == "UD-Q2_K_L"@ || q == "UD-Q2_K_M"@ || q == "UD-Q2_K_S"@ {
        135u32
    } else if q == "UD-Q3_K_XL"@ || q == "UD-Q3_K_L"@ || q == "UD-Q3_K_M"@ || q == "UD-Q3_K_S"@ {
        125u32
    } else if q == "UD-Q4_K_XL"@ || q == "UD-Q4_K_L"@ || q == "UD-Q4_K_M"@ || q == "UD-Q4_K_S"@ {
        115u32
    } else if q == "UD-Q5_K_XL"@ || q == "UD-Q5_K_L"@ || q == "UD-Q5_K_M"@ || q == "UD-Q5_K_S"@ {
        100u32
    } else if q == "UD-Q6_K_XL"@ || q == "UD-Q6_K_L"@ || q == "UD-Q6_K_M"@ || q == "UD-Q6_K_S"@ {
        95u32
    } else if q == "UD-Q8_K_XL"@ || q == "UD-Q8_K_L"@ || q == "UD-Q8_K_M"@ || q == "UD-Q8_K_S"@ {
        80u32
    } else if q == "mlx-4bit"@ {
        115u32
    } else if q == "mlx-8bit"@ {
        85u32
    } else if q == "AWQ-4bit"@ || q == "GPTQ-Int4"@ || q == "AutoRound-4bit"@ {
        120u32
    } else if q == "AWQ-8bit"@ || q == "GPTQ-Int8"@ || q == "AutoRound-8bit"@ {
        85u32
    } else {
        100u32
    }
}

/// Speed multiplier for a quantization (lower quant = faster inference), in
/// hundredths (e.g. 115 for 1.15); unknown names give 100.
pub fn quant_speed_multiplier(quant: &str) -> (r: u32)
    ensures
        r == quant_speed_multiplier_of(quant@),
{
    let qv = chars_of(quant);
    if eq_str(&qv, "F16") || eq_str(&qv, "BF16") {
        return 60u32;
    }
    if eq_str(&qv, "Q8_0") {
        return 80u32;
    }
    if eq_str(&qv, "Q6_K") {
        return 95u32;
    }
    if eq_str(&qv, "Q5_K_M") {
        return 100u32;
    }
    if eq_str(&qv, "Q4_K_M") || eq_str(&qv, "Q4_0") {
        return 115u32;
    }
    if eq_str(&qv, "Q3_K_M") {
        return 125u32;
    }
    if eq_str(&qv, "Q2_K") {
        return 135u32;
    }
    if eq_str(&qv, "UD-Q2_K_XL") || eq_str(&qv, "UD-Q2_K_L") || eq_str(&qv, "UD-Q2_K_M") || eq_str(&qv, "UD-Q2_K_S") {
        return 135u32;
    }
    if eq_str(&qv, "UD-Q3_K_XL") || eq_str(&qv, "UD-Q3_K_L") || eq_str(&qv, "UD-Q3_K_M") || eq_str(&qv, "UD-Q3_K_S") {
        return 125u32;
    }
    if eq_str(&qv, "UD-Q4_K_XL") || eq_str(&qv, "UD-Q4_K_L") || eq_str(&qv, "UD-Q4_K_M") || eq_str(&qv, "UD-Q4_K_S") {
        return 115u32;
    }
    if eq_str(&qv, "UD-Q5_K_XL") || eq_str(&qv, "UD-Q5_K_L") || eq_str(&qv, "UD-Q5_K_M") || eq_str(&qv, "UD-Q5_K_S") {
        return 100u32;
    }
    if eq_str(&qv, "UD-Q6_K_XL") || eq_str(&qv, "UD-Q6_K_L") || eq_str(&qv, "UD-Q6_K_M") || eq_str(&qv, "UD-Q6_K_S") {
        return 95u32;
    }
    if eq_str(&qv, "UD-Q8_K_XL") || eq_str(&qv, "UD-Q8_K_L") || eq_str(&qv, "UD-Q8_K_M") || eq_str(&qv, "UD-Q8_K_S") {
        return 80u32;
    }
    if eq_str(&qv, "mlx-4bit") {
        return 115u32;
    }
    if eq_str(&qv, "mlx-8bit") {
        return 85u32;
    }
    if eq_str(&qv, "AWQ-4bit") || eq_str(&qv, "GPTQ-Int4") || eq_str(&qv, "AutoRound-4bit") {
        return 120u32;
    }
    if eq_str(&qv, "AWQ-8bit") || eq_str(&qv, "GPTQ-Int8") || eq_str(&qv, "AutoRound-8bit") {
        return 85u32;
    }
    100
}
/// Bytes per parameter, in thousandths, for each quantization name.
pub open spec fn quant_bytes_per_param_of(q: Seq<char>) -> u32 {
    if q == "F16"@ || q == "BF16"@ {
        2000u32
    } else if q == "Q8_0"@ {
        1000u32
    } else if q == "Q6_K"@ {
        750u32
    } else if q == "Q5_K_M"@ {
        625u32
    } else if q == "Q4_K_M"@ || q == "Q4_0"@ {
        500u32
    } else if q == "Q3_K_M"@ {
        375u32
    } else if q == "Q2_K"@ {
        250u32
    } else if q == "UD-Q2_K_XL"@ || q == "UD-Q2_K_L"@ || q == "UD-Q2_K_M"@ || q == "UD-Q2_K_S"@ {
        250u32
    } else if q == "UD-Q3_K_XL"@ || q == "UD-Q3_K_L"@ || q == "UD-Q3_K_M"@ || q == "UD-Q3_K_S"@ {
        375u32
    } else if q == "UD-Q4_K_XL"@ || q == "UD-Q4_K_L"@ || q == "UD-Q4_K_M"@ || q == "UD-Q4_K_S"@ {
        500u32
    } else if q == "UD-Q5_K_XL"@ || q == "UD-Q5_K_L"@ || q == "UD-Q5_K_M"@ || q == "UD-Q5_K_S"@ {
        625u32
    } else if q == "UD-Q6_K_XL"@ || q == "UD-Q6_K_L"@ || q == "UD-Q6_K_M"@ || q == "UD-Q6_K_S"@ {
        750u32
    } else if q == "UD-Q8_K_XL"@ || q == "UD-Q8_K_L"@ || q == "UD-Q8_K_M"@ || q == "UD-Q8_K_S"@ {
        1000u32
    } else if q == "mlx-4bit"@ {
        500u32
    } else if q == "mlx-8bit"@ {
        1000u32
    } else if q == "AWQ-4bit"@ || q == "GPTQ-Int4"@ || q == "AutoRound-4bit"@ {
        500u32
    } else if q == "AWQ-8bit"@ || q == "GPTQ-Int8"@ || q == "AutoRound-8bit"@ {
        1000u32
    } else {
        500u32
    }
}

/// Bytes per parameter used by the bandwidth-based speed estimator, in
/// thousandths of a byte (e.g. 625 for 0.625); unknown names give 500.
pub fn quant_bytes_per_param(quant: &str) -> (r: u32)
    ensures
        r == quant_bytes_per_param_of(quant@),
{
    let qv = chars_of(quant);
    if eq_str(&qv, "F16") || eq_str(&qv, "BF16") {
        return 2000u32;
    }
    if eq_str(&qv, "Q8_0") {
        return 1000u32;
    }
    if eq_str(&qv, "Q6_K") {
        return 750u32;
    }
    if eq_str(&qv, "Q5_K_M") {
        return 625u32;
    }
    if eq_str(&qv, "Q4_K_M") || eq_str(&qv, "Q4_0") {
        return 500u32;
    }
    if eq_str(&qv, "Q3_K_M") {
        return 375u32;
    }
    if eq_str(&qv, "Q2_K") {
        return 250u32;
    }
    if eq_str(&qv, "UD-Q2_K_XL") || eq_str(&qv, "UD-Q2_K_L") || eq_str(&qv, "UD-Q2_K_M") || eq_str(&qv, "UD-Q2_K_S") {
        return 250u32;
    }
    if eq_str(&qv, "UD-Q3_K_XL") || eq_str(&qv, "UD-Q3_K_L") || eq_str(&qv, "UD-Q3_K_M") || eq_str(&qv, "UD-Q3_K_S") {
        return 375u32;
    }
    if eq_str(&qv, "UD-Q4_K_XL") || eq_str(&qv, "UD-Q4_K_L") || eq_str(&qv, "UD-Q4_K_M") || eq_str(&qv, "UD-Q4_K_S") {
        return 500u32;
    }
    if eq_str(&qv, "UD-Q5_K_XL") || eq_str(&qv, "UD-Q5_K_L") || eq_str(&qv, "UD-Q5_K_M") || eq_str(&qv, "UD-Q5_K_S") {
        return 625u32;
    }
    if eq_str(&qv, "UD-Q6_K_XL") || eq_str(&qv, "UD-Q6_K_L") || eq_str(&qv, "UD-Q6_K_M") || eq_str(&qv, "UD-Q6_K_S") {
        return 750u32;
    }
    if eq_str(&qv, "UD-Q8_K_XL") || eq_str(&qv, "UD-Q8_K_L") || eq_str(&qv, "UD-Q8_K_M") || eq_str(&qv, "UD-Q8_K_S") {
        return 1000u32;
    }
    if eq_str(&qv, "mlx-4bit") {
        return 500u32;
    }
    if eq_str(&qv, "mlx-8bit") {
        return 1000u32;
    }
    if eq_str(&qv, "AWQ-4bit") || eq_str(&qv, "GPTQ-Int4") || eq_str(&qv, "AutoRound-4bit") {
        return 500u32;
    }
    if eq_str(&qv, "AWQ-8bit") || eq_str(&qv, "GPTQ-Int8") || eq_str(&qv, "AutoRound-8bit") {
        return 1000u32;
    }
    500
}
/// Quality penalty, in score points, for each quantization name.
pub open spec fn quant_quality_penalty_of(q: Seq<char>) -> i32 {
    if q == "F16"@ || q == "BF16"@ {
        0i32
    } else if q == "Q8_0"@ {
        0i32
    } else if q == "Q6_K"@ {
        -1i32
    } else if q == "Q5_K_M"@ {
        -2i32
    } else if q == "Q4_K_M"@ || q == "Q4_0"@ {
        -5i32
    } else if q == "Q3_K_M"@ {
        -8i32
    } else if q == "Q2_K"@ {
        -12i32
    } else if q == "UD-Q2_K_XL"@ || q == "UD-Q2_K_L"@ || q == "UD-Q2_K_M"@ || q == "UD-Q2_K_S"@ {
        -12i32
    } else if q == "UD-Q3_K_XL"@ || q == "UD-Q3_K_L"@ || q == "UD-Q3_K_M"@ || q == "UD-Q3_K_S"@ {
        -8i32
    } else if q == "UD-Q4_K_XL"@ || q == "UD-Q4_K_L"@ || q == "UD-Q4_K_M"@ || q == "UD-Q4_K_S"@ {
        -5i32
    } else if q == "UD-Q5_K_XL"@ || q == "UD-Q5_K_L"@ || q == "UD-Q5_K_M"@ || q == "UD-Q5_K_S"@ {
        -2i32
    } else if q == "UD-Q6_K_XL"@ || q == "UD-Q6_K_L"@ || q == "UD-Q6_K_M"@ || q == "UD-Q6_K_S"@ {
        -1i32
    } else if q == "UD-Q8_K_XL"@ || q == "UD-Q8_K_L"@ || q == "UD-Q8_K_M"@ || q == "UD-Q8_K_S"@ {
        0i32
    } else if q == "mlx-4bit"@ {
        -4i32
    } else if q == "mlx-8bit"@ {
        0i32
    } else if q == "AWQ-4bit"@ {
        -3i32
    } else if q == "AWQ-8bit"@ {
        0i32
    } else if q == "GPTQ-Int4"@ {
        -3i32
    } else if q == "GPTQ-Int8"@ {
        0i32
    } else if q == "AutoRound-4bit"@ {
        -3i32
    } else if q == "AutoRound-8bit"@ {
        0i32
    } else {
        -5i32
    }
}

/// Quality penalty for a quantization (lower quant = lower quality), in
/// score points (e.g. -5 for Q4_K_M); unknown names give -5.
pub fn quant_quality_penalty(quant: &str) -> (r: i32)
    ensures
        r == quant_quality_penalty_of(quant@),
{
    let qv = chars_of(quant);
    if eq_str(&qv, "F16") || eq_str(&qv, "BF16") {
        return 0i32;
    }
    if eq_str(&qv, "Q8_0") {
        return 0i32;
    }
    if eq_str(&qv, "Q6_K") {
        return -1i32;
    }
    if eq_str(&qv, "Q5_K_M") {
        return -2i32;
    }
    if eq_str(&qv, "Q4_K_M") || eq_str(&qv, "Q4_0") {
        return -5i32;
    }
    if eq_str(&qv, "Q3_K_M") {
        return -8i32;
    }
    if eq_str(&qv, "Q2_K") {
        return -12i32;
    }
    if eq_str(&qv, "UD-Q2_K_XL") || eq_str(&qv, "UD-Q2_K_L") || eq_str(&qv, "UD-Q2_K_M") || eq_str(&qv, "UD-Q2_K_S") {
        return -12i32;
    }
    if eq_str(&qv, "UD-Q3_K_XL") || eq_str(&qv, "UD-Q3_K_L") || eq_str(&qv, "UD-Q3_K_M") || eq_str(&qv, "UD-Q3_K_S") {
        return -8i32;
    }
    if eq_str(&qv, "UD-Q4_K_XL") || eq_str(&qv, "UD-Q4_K_L") || eq_str(&qv, "UD-Q4_K_M") || eq_str(&qv, "UD-Q4_K_S") {
        return -5i32;
    }
    if eq_str(&qv, "UD-Q5_K_XL") || eq_str(&qv, "UD-Q5_K_L") || eq_str(&qv, "UD-Q5_K_M") || eq_str(&qv, "UD-Q5_K_S") {
        return -2i32;
    }
    if eq_str(&qv, "UD-Q6_K_XL") || eq_str(&qv, "UD-Q6_K_L") || eq_str(&qv, "UD-Q6_K_M") || eq_str(&qv, "UD-Q6_K_S") {
        return -1i32;
    }
    if eq_str(&qv, "UD-Q8_K_XL") || eq_str(&qv, "UD-Q8_K_L") || eq_str(&qv, "UD-Q8_K_M") || eq_str(&qv, "UD-Q8_K_S") {
        return 0i32;
    }
    if eq_str(&qv, "mlx-4bit") {
        return -4i32;
    }
    if eq_str(&qv, "mlx-8bit") {
        return 0i32;
    }
    if eq_str(&qv, "AWQ-4bit") {
        return -3i32;
    }
    if eq_str(&qv, "AWQ-8bit") {
        return 0i32;
    }
    if eq_str(&qv, "GPTQ-Int4") {
        return -3i32;
    }
    if eq_str(&qv, "GPTQ-Int8") {
        return 0i32;
    }
    if eq_str(&qv, "AutoRound-4bit") {
        return -3i32;
    }
    if eq_str(&qv, "AutoRound-8bit") {
        return 0i32;
    }
    -5
}

/// The generation, in tenths, that a lower-cased architecture string
/// announces; `None` when the architecture says nothing (then the name is
/// consulted).
pub open spec fn generation_from_architecture(a: Seq<char>) -> Option<u32> {
    if has_prefix(a, "deepseek"@) {
        if has_substring(a, "v4"@) {
            Some(40u32)
        } else if has_substring(a, "v3"@) {
            Some(30u32)
        } else if has_substring(a, "v2"@) {
            Some(20u32)
        } else {
            Some(10u32)
        }
    } else if has_prefix(a, "qwen"@) {
        let s = a.subrange(4, a.len() as int);
        if has_prefix(s, "3_5"@) || has_prefix(s, "3.5"@) {
            Some(35u32)
        } else if has_prefix(s, "3_next"@) || has_prefix(s, "3next"@) {
            Some(38u32)
        } else if has_prefix(s, "3"@) {
            Some(30u32)
        } else if has_prefix(s, "2"@) {
            Some(20u32)
        } else {
            Some(10u32)
        }
    } else if has_prefix(a, "llama"@) {
        if has_prefix(a.subrange(5, a.len() as int), "4"@) {
            Some(40u32)
        } else {
            None
        }
    } else if has_prefix(a, "gemma"@) {
        let s = a.subrange(5, a.len() as int);
        if has_prefix(s, "4"@) {
            Some(40u32)
        } else if has_prefix(s, "3"@) {
            Some(30u32)
        } else if has_prefix(s, "2"@) {
            Some(20u32)
        } else {
            Some(10u32)
        }
    } else if has_prefix(a, "phi"@) {
        let s = a.subrange(3, a.len() as int);
        if has_prefix(s, "4"@) {
            Some(40u32)
        } else if has_prefix(s, "3"@) || has_prefix(s, "moe"@) {
            Some(30u32)
        } else if has_prefix(s, "2"@) {
            Some(20u32)
        } else {
            Some(10u32)
        }
    } else if has_prefix(a, "mistral"@) || has_prefix(a, "mixtral"@) {
        Some(10u32)
    } else if has_prefix(a, "cohere"@) {
        if has_prefix(a.subrange(6, a.len() as int), "2"@) {
            Some(20u32)
        } else {
            Some(10u32)
        }
    } else if has_prefix(a, "falcon"@) {
        if has_prefix(a.subrange(6, a.len() as int), "3"@) {
            Some(30u32)
        } else {
            Some(10u32)
        }
    } else if has_prefix(a, "granite"@) {
        if has_prefix(a.subrange(7, a.len() as int), "4"@) {
            Some(40u32)
        } else {
            Some(10u32)
        }
    } else {
        None
    }
}

/// The generation, in tenths, that a lower-cased model name announces.
pub open spec fn generation_from_name(n: Seq<char>) -> Option<u32> {
    if has_substring(n, "qwen3.6"@) || has_substring(n, "qwen3_6"@) {
        Some(36u32)
    } else if has_substring(n, "qwen3.5"@) || has_substring(n, "qwen3_5"@) {
        Some(35u32)
    } else if has_substring(n, "qwen3"@) {
        Some(30u32)
    } else if has_substring(n, "qwen2.5"@) || has_substring(n, "qwen2_5"@) {
        Some(25u32)
    } else if has_substring(n, "qwen2"@) {
        Some(20u32)
    } else if has_substring(n, "llama-4"@) || has_substring(n, "llama4"@) {
        Some(40u32)
    } else if has_substring(n, "llama-3.3"@) || has_substring(n, "llama3.3"@) {
        Some(33u32)
    } else if has_substring(n, "llama-3.2"@) || has_substring(n, "llama3.2"@) {
        Some(32u32)
    } else if has_substring(n, "llama-3.1"@) || has_substring(n, "llama3.1"@) {
        Some(31u32)
    } else if has_substring(n, "llama-3"@) || has_substring(n, "llama3"@) {
        Some(30u32)
    } else if has_substring(n, "llama-2"@) || has_substring(n, "llama2"@) {
        Some(20u32)
    } else if has_substring(n, "gemma-4"@) || has_substring(n, "gemma4"@) {
        Some(40u32)
    } else if has_substring(n, "gemma-3"@) || has_substring(n, "gemma3"@) {
        Some(30u32)
    } else if has_substring(n, "gemma-2"@) || has_substring(n, "gemma2"@) {
        Some(20u32)
    } else if has_substring(n, "deepseek-v4"@) || has_substring(n, "deepseekv4"@) {
        Some(40u32)
    } else if has_substring(n, "deepseek-v3"@) || has_substring(n, "deepseekv3"@) {
        Some(30u32)
    } else if has_substring(n, "deepseek-v2"@) || has_substring(n, "deepseekv2"@) {
        Some(20u32)
    } else if has_substring(n, "phi-4"@) || has_substring(n, "phi4"@) {
        Some(40u32)
    } else if has_substring(n, "phi-3"@) || has_substring(n, "phi3"@) {
        Some(30u32)
    } else {
        None
    }
}

/// The generation, in tenths: from the architecture string when it tells,
/// else from the name.
pub open spec fn generation_of(architecture: Option<Seq<char>>, name: Seq<char>) -> Option<u32> {
    match architecture {
        Some(a) => match generation_from_architecture(str_lowercase(a)) {
            Some(g) => Some(g),
            None => generation_from_name(str_lowercase(name)),
        },
        None => generation_from_name(str_lowercase(name)),
    }
}

/// The view of an optional string slice.
pub open spec fn opt_str_view(s: Option<&str>) -> Option<Seq<char>> {
    match s {
        Some(x) => Some(x@),
        None => None,
    }
}

/// Generation from a lower-cased architecture string.
fn architecture_generation(a: &Vec<char>) -> (r: Option<u32>)
    ensures
        r == generation_from_architecture(a@),
{
    let n = a.len();
    if starts_with_str(a, "deepseek") {
        if contains_str(a, "v4") {
            return Some(40);
        } else if contains_str(a, "v3") {
            return Some(30);
        } else if contains_str(a, "v2") {
            return Some(20);
        }
        return Some(10);
    }
    if starts_with_str(a, "qwen") {
        proof {
            reveal_strlit("qwen");
        }
        let s = slice_of(a, 4, n);
        if starts_with_str(&s, "3_5") || starts_with_str(&s, "3.5") {
            return Some(35);
        }
        if starts_with_str(&s, "3_next") || starts_with_str(&s, "3next") {
            return Some(38);
        }
        if starts_with_str(&s, "3") {
            return Some(30);
        }
        if starts_with_str(&s, "2") {
            return Some(20);
        }
        return Some(10);
    }
    if starts_with_str(a, "llama") {
        proof {
            reveal_strlit("llama");
        }
        let s = slice_of(a, 5, n);
        if starts_with_str(&s, "4") {
            return Some(40);
        }
        return None;
    }
    if starts_with_str(a, "gemma") {
        proof {
            reveal_strlit("gemma");
        }
        let s = slice_of(a, 5, n);
        if starts_with_str(&s, "4") {
            return Some(40);
        }
        if starts_with_str(&s, "3") {
            return Some(30);
        }
        if starts_with_str(&s, "2") {
            return Some(20);
        }
        return Some(10);
    }
    if starts_with_str(a, "phi") {
        proof {
            reveal_strlit("phi");
        }
        let s = slice_of(a, 3, n);
        if starts_with_str(&s, "4") {
            return Some(40);
        }
        if starts_with_str(&s, "3") || starts_with_str(&s, "moe") {
            return Some(30);
        }
        if starts_with_str(&s, "2") {
            return Some(20);
        }
        return Some(10);
    }
    if starts_with_str(a, "mistral") || starts_with_str(a, "mixtral") {
        return Some(10);
    }
    if starts_with_str(a, "cohere") {
        proof {
            reveal_strlit("cohere");
        }
        let s = slice_of(a, 6, n);
        if starts_with_str(&s, "2") {
            return Some(20);
        }
        return Some(10);
    }
    if starts_with_str(a, "falcon") {
        proof {
            reveal_strlit("falcon");
        }
        let s = slice_of(a, 6, n);
        if starts_with_str(&s, "3") {
            return Some(30);
        }
        return Some(10);
    }
    if starts_with_str(a, "granite") {
        proof {
            reveal_strlit("granite");
        }
        let s = slice_of(a, 7, n);
        if starts_with_str(&s, "4") {
            return Some(40);
        }
        return Some(10);
    }
    None
}

/// Generation from a lower-cased model name.
fn name_generation(n: &Vec<char>) -> (r: Option<u32>)
    ensures
        r == generation_from_name(n@),
{
    if contains_str(n, "qwen3.6") || contains_str(n, "qwen3_6") {
        return Some(36);
    }
    if contains_str(n, "qwen3.5") || contains_str(n, "qwen3_5") {
        return Some(35);
    }
    if contains_str(n, "qwen3") {
        return Some(30);
    }
    if contains_str(n, "qwen2.5") || contains_str(n, "qwen2_5") {
        return Some(25);
    }
    if contains_str(n, "qwen2") {
        return Some(20);
    }
    if contains_str(n, "llama-4") || contains_str(n, "llama4") {
        return Some(40);
    }
    if contains_str(n, "llama-3.3") || contains_str(n, "llama3.3") {
        return Some(33);
    }
    if contains_str(n, "llama-3.2") || contains_str(n, "llama3.2") {
        return Some(32);
    }
    if contains_str(n, "llama-3.1") || contains_str(n, "llama3.1") {
        return Some(31);
    }
    if contains_str(n, "llama-3") || contains_str(n, "llama3") {
        return Some(30);
    }
    if contains_str(n, "llama-2") || contains_str(n, "llama2") {
        return Some(20);
    }
    if contains_str(n, "gemma-4") || contains_str(n, "gemma4") {
        return Some(40);
    }
    if contains_str(n, "gemma-3") || contains_str(n, "gemma3") {
        return Some(30);
    }
    if contains_str(n, "gemma-2") || contains_str(n, "gemma2") {
        return Some(20);
    }
    if contains_str(n, "deepseek-v4") || contains_str(n, "deepseekv4") {
        return Some(40);
    }
    if contains_str(n, "deepseek-v3") || contains_str(n, "deepseekv3") {
        return Some(30);
    }
    if contains_str(n, "deepseek-v2") || contains_str(n, "deepseekv2") {
        return Some(20);
    }
    if contains_str(n, "phi-4") || contains_str(n, "phi4") {
        return Some(40);
    }
    if contains_str(n, "phi-3") || contains_str(n, "phi3") {
        return Some(30);
    }
    None
}

/// Parse the model generation from the architecture string (most reliable)
/// and, failing that, the model name. The generation is returned in tenths:
/// 20 for "qwen2", 35 for "qwen3_5_moe", 40 for "llama4". `None` when the
/// generation cannot be determined.
pub fn parse_generation(architecture: Option<&str>, name: &str) -> (r: Option<u32>)
    ensures
        r == generation_of(opt_str_view(architecture), name@),
{
    if let Some(arch) = architecture {
        let a = lower_str(arch);
        if let Some(g) = architecture_generation(&a) {
            return Some(g);
        }
    }
    let n = lower_str(name);
    name_generation(&n)
}


/// Model capability flags (orthogonal to `UseCase`).
#[derive(Debug, Clone, Copy, PartialEq, Eq, Hash, Structural)]
pub enum Capability {
    Vision,
    ToolUse,
    Audio,
}

/// The display label of each capability.
pub open spec fn capability_label(c: Capability) -> Seq<char> {
    match c {
        Capability::Vision => "Vision"@,
        Capability::ToolUse => "Tool Use"@,
        Capability::Audio => "Audio"@,
    }
}

/// No element occurs twice.
pub open spec fn no_duplicates<T>(s: Seq<T>) -> bool {
    forall|i: int, j: int| 0 <= i < j < s.len() ==> s[i] != s[j]
}

/// Does `caps` hold `c`?
pub(crate) fn has_capability(caps: &Vec<Capability>, c: Capability) -> (r: bool)
    ensures
        r == caps@.contains(c),
{
    let mut i: usize = 0;
    while i < caps.len()
        invariant
            i <= caps@.len(),
            forall|k: int| 0 <= k < i ==> caps@[k] != c,
        decreases caps@.len() - i,
    {
        if caps[i] == c {
            return true;
        }
        i += 1;
    }
    false
}

/// The name (lower-cased) announces vision support.
pub open spec fn suggests_vision(name: Seq<char>, use_case: Seq<char>) -> bool {
    has_substring(name, "vision"@) || has_substring(name, "-vl-"@) || has_suffix(name, "-vl"@)
        || has_substring(name, "llava"@) || has_substring(name, "onevision"@) || has_substring(
        name,
        "pixtral"@,
    ) || has_substring(use_case, "vision"@) || has_substring(use_case, "multimodal"@)
}

/// The name or use case (lower-cased) announces tool use (known families).
pub open spec fn suggests_tool_use(name: Seq<char>, use_case: Seq<char>) -> bool {
    has_substring(use_case, "tool"@) || has_substring(use_case, "function call"@)
        || has_substring(name, "qwen3"@) || has_substring(name, "qwen2.5"@) || has_substring(
        name,
        "command-r"@,
    ) || (has_substring(name, "llama-3"@) && has_substring(name, "instruct"@)) || (
    has_substring(name, "mistral"@) && has_substring(name, "instruct"@)) || has_substring(
        name,
        "hermes"@,
    ) || (has_substring(name, "gemma-3"@) && has_suffix(name, "-it"@)) || (has_substring(
        name,
        "gemma-4"@,
    ) && has_suffix(name, "-it"@))
}

/// The architecture, name or use case (lower-cased) announces speech to
/// text (Whisper family).
pub open spec fn suggests_audio(arch: Seq<char>, name: Seq<char>, use_case: Seq<char>) -> bool {
    has_substring(arch, "whisper"@) || has_substring(name, "whisper"@) || has_substring(
        use_case,
        "transcription"@,
    ) || has_substring(use_case, "speech"@) || has_substring(use_case, "audio"@)
}

/// `c` appended to `caps` unless it is there already or `wanted` is false.
pub open spec fn add_capability(caps: Seq<Capability>, c: Capability, wanted: bool) -> Seq<
    Capability,
> {
    if !caps.contains(c) && wanted {
        caps.push(c)
    } else {
        caps
    }
}

/// The explicit capabilities with the inferred ones appended: vision, then
/// tool use, then audio, each only when absent and suggested.
pub open spec fn inferred_capabilities(
    caps: Seq<Capability>,
    name: Seq<char>,
    use_case: Seq<char>,
    arch: Seq<char>,
) -> Seq<Capability> {
    let c1 = add_capability(caps, Capability::Vision, suggests_vision(name, use_case));
    let c2 = add_capability(c1, Capability::ToolUse, suggests_tool_use(name, use_case));
    add_capability(c2, Capability::Audio, suggests_audio(arch, name, use_case))
}

/// Appending an absent element keeps a sequence free of duplicates, and the
/// old elements stay in front.
proof fn lemma_add_capability(caps: Seq<Capability>, c: Capability, wanted: bool)
    ensures
        add_capability(caps, c, wanted).len() >= caps.len(),
        add_capability(caps, c, wanted).subrange(0, caps.len() as int) == caps,
        no_duplicates(caps) ==> no_duplicates(add_capability(caps, c, wanted)),
{
    let r = add_capability(caps, c, wanted);
    assert(r.subrange(0, caps.len() as int) =~= caps);
    if no_duplicates(caps) && !caps.contains(c) && wanted {
        assert forall|i: int, j: int| 0 <= i < j < r.len() implies r[i] != r[j] by {
            if j == caps.len() {
                assert(caps[i] != c) by {
                    if caps[i] == c {
                        assert(caps.contains(c));
                    }
                }
            }
        }
    }
}

impl Capability {
    pub fn label(&self) -> (r: &'static str)
        ensures
            r@ == capability_label(*self),
    {
        match self {
            Capability::Vision => "Vision",
            Capability::ToolUse => "Tool Use",
            Capability::Audio => "Audio",
        }
    }

    /// Every capability, in display order.
    pub fn all() -> (r: &'static [Capability])
        ensures
            r@ == seq![Capability::Vision, Capability::ToolUse, Capability::Audio],
    {
        &[Capability::Vision, Capability::ToolUse, Capability::Audio]
    }

    /// Infer capabilities from model metadata when not explicitly set: the
    /// explicit ones are kept in front, and vision, tool use and audio are
    /// appended (once each) when the name, use case or architecture suggests
    /// them.
    pub fn infer(model: &LlmModel) -> (r: Vec<Capability>)
        ensures
            r@ == inferred_capabilities(
                model.capabilities@,
                str_lowercase(model.name@),
                str_lowercase(model.use_case@),
                str_lowercase(opt_string_view(model.architecture)),
            ),
            r@.len() >= model.capabilities@.len(),
            r@.subrange(0, model.capabilities@.len() as int) == model.capabilities@,
            no_duplicates(model.capabilities@) ==> no_duplicates(r@),
    {
        let mut caps = model.capabilities.clone();
        let nv = chars_of(model.name.as_str());
        let name = to_lowercase(&nv);
        let uv = chars_of(model.use_case.as_str());
        let use_case = to_lowercase(&uv);
        let av = match &model.architecture {
            Some(a) => chars_of(a.as_str()),
            None => Vec::new(),
        };
        let architecture = to_lowercase(&av);
        let ghost c0 = caps@;
        proof {
            lemma_add_capability(c0, Capability::Vision, suggests_vision(name@, use_case@));
        }
        if !has_capability(&caps, Capability::Vision) && (contains_str(&name, "vision")
            || contains_str(&name, "-vl-") || ends_with_str(&name, "-vl") || contains_str(
            &name,
            "llava",
        ) || contains_str(&name, "onevision") || contains_str(&name, "pixtral")
            || contains_str(&use_case, "vision") || contains_str(&use_case, "multimodal")) {
            caps.push(Capability::Vision);
        }
        let ghost c1 = caps@;
        proof {
            lemma_add_capability(c1, Capability::ToolUse, suggests_tool_use(name@, use_case@));
        }
        if !has_capability(&caps, Capability::ToolUse) && (contains_str(&use_case, "tool")
            || contains_str(&use_case, "function call") || contains_str(&name, "qwen3")
            || contains_str(&name, "qwen2.5") || contains_str(&name, "command-r") || (
        contains_str(&name, "llama-3") && contains_str(&name, "instruct")) || (contains_str(
            &name,
            "mistral",
        ) && contains_str(&name, "instruct")) || contains_str(&name, "hermes") || (
        contains_str(&name, "gemma-3") && ends_with_str(&name, "-it")) || (contains_str(
            &name,
            "gemma-4",
        ) && ends_with_str(&name, "-it"))) {
            caps.push(Capability::ToolUse);
        }
        let ghost c2 = caps@;
        proof {
            lemma_add_capability(
                c2,
                Capability::Audio,
                suggests_audio(architecture@, name@, use_case@),
            );
        }
        if !has_capability(&caps, Capability::Audio) && (contains_str(&architecture, "whisper")
            || contains_str(&name, "whisper") || contains_str(&use_case, "transcription")
            || contains_str(&use_case, "speech") || contains_str(&use_case, "audio")) {
            caps.push(Capability::Audio);
        }
        proof {
            assert(c0.len() <= c1.len() <= c2.len());
            assert(c2.subrange(0, c0.len() as int) =~= c1.subrange(0, c0.len() as int));
            assert(caps@.subrange(0, c0.len() as int) =~= c2.subrange(0, c0.len() as int));
        }
        caps
    }
}

/// The view of an optional owned string (empty when absent).
pub open spec fn opt_string_view(s: Option<String>) -> Seq<char> {
    match s {
        Some(x) => x@,
        None => Seq::empty(),
    }
}

/// Model weight format: determines which inference runtime to use.
#[derive(Debug, Clone, Copy, PartialEq, Eq, Hash, Structural)]
pub enum ModelFormat {
    Gguf,
    Awq,
    Gptq,
    Autoround,
    Mlx,
    Safetensors,
}

impl Default for ModelFormat {
    fn default() -> (r: Self)
        ensures
            r == ModelFormat::Gguf,
    {
        ModelFormat::Gguf
    }
}

impl ModelFormat {
    /// True for formats that are pre-quantized at a fixed bit width and
    /// cannot be dynamically re-quantized (AWQ, GPTQ, AutoRound).
    pub fn is_prequantized(&self) -> (r: bool)
        ensures
            r == (*self == ModelFormat::Awq || *self == ModelFormat::Gptq || *self
                == ModelFormat::Autoround),
    {
        match self {
            ModelFormat::Awq | ModelFormat::Gptq | ModelFormat::Autoround => true,
            _ => false,
        }
    }
}

/// Use-case category for scoring weights.
#[derive(Debug, Clone, Copy, PartialEq, Eq, Structural)]
pub enum UseCase {
    General,
    Coding,
    Reasoning,
    Chat,
    Multimodal,
    Embedding,
}

/// The display label of each use case.
pub open spec fn use_case_label(u: UseCase) -> Seq<char> {
    match u {
        UseCase::General => "General"@,
        UseCase::Coding => "Coding"@,
        UseCase::Reasoning => "Reasoning"@,
        UseCase::Chat => "Chat"@,
        UseCase::Multimodal => "Multimodal"@,
        UseCase::Embedding => "Embedding"@,
    }
}

/// The use case that a lower-cased name and use-case text indicate.
pub open spec fn use_case_of(name: Seq<char>, use_case: Seq<char>) -> UseCase {
    if has_substring(use_case, "embedding"@) || has_substring(name, "embed"@) || has_substring(
        name,
        "bge"@,
    ) {
        UseCase::Embedding
    } else if has_substring(name, "code"@) || has_substring(use_case, "code"@) {
        UseCase::Coding
    } else if has_substring(use_case, "vision"@) || has_substring(use_case, "multimodal"@) {
        UseCase::Multimodal
    } else if has_substring(use_case, "reason"@) || has_substring(use_case, "chain-of-thought"@)
        || has_substring(name, "deepseek-r1"@) {
        UseCase::Reasoning
    } else if has_substring(use_case, "chat"@) || has_substring(use_case, "instruction"@) {
        UseCase::Chat
    } else {
        UseCase::General
    }
}

impl UseCase {
    pub fn label(&self) -> (r: &'static str)
        ensures
            r@ == use_case_label(*self),
    {
        match self {
            UseCase::General => "General",
            UseCase::Coding => "Coding",
            UseCase::Reasoning => "Reasoning",
            UseCase::Chat => "Chat",
            UseCase::Multimodal => "Multimodal",
            UseCase::Embedding => "Embedding",
        }
    }

    /// Infer the use case from the model's use-case text and name.
    pub fn from_model(model: &LlmModel) -> (r: UseCase)
        ensures
            r == use_case_of(str_lowercase(model.name@), str_lowercase(model.use_case@)),
    {
        let nv = chars_of(model.name.as_str());
        let name = to_lowercase(&nv);
        let uv = chars_of(model.use_case.as_str());
        let use_case = to_lowercase(&uv);
        if contains_str(&use_case, "embedding") || contains_str(&name, "embed") || contains_str(
            &name,
            "bge",
        ) {
            UseCase::Embedding
        } else if contains_str(&name, "code") || contains_str(&use_case, "code") {
            UseCase::Coding
        } else if contains_str(&use_case, "vision") || contains_str(&use_case, "multimodal") {
            UseCase::Multimodal
        } else if contains_str(&use_case, "reason") || contains_str(&use_case, "chain-of-thought")
            || contains_str(&name, "deepseek-r1") {
            UseCase::Reasoning
        } else if contains_str(&use_case, "chat") || contains_str(&use_case, "instruction") {
            UseCase::Chat
        } else {
            UseCase::General
        }
    }
}

/// A known GGUF download source for a model on HuggingFace.
#[derive(Debug, Clone)]
pub struct GgufSource {
    /// HuggingFace repo ID (e.g. "unsloth/Llama-3.1-8B-Instruct-GGUF").
    pub repo: String,
    /// Provider who published the GGUF (e.g. "unsloth", "bartowski").
    pub provider: String,
}

/// Composition of attention layers in a hybrid model: full self-attention
/// layers (compressible by KV quantization) and linear / state-space layers.
#[derive(Debug, Clone, Copy, PartialEq, Eq, Structural)]
pub struct AttentionLayout {
    /// Number of full self attention layers (compressible).
    pub full: u32,
    /// Number of linear / state space layers (not compressible by KV quant).
    pub linear: u32,
}

impl AttentionLayout {
    pub fn total(&self) -> (r: u32)
        requires
            self.full + self.linear <= u32::MAX,
        ensures
            r == self.full + self.linear,
    {
        self.full + self.linear
    }
}

/// A catalogue model, as far as the library's logic reads it: identity,
/// size, format and architecture metadata. (The memory requirements, which
/// the catalogue gives as fractional gigabytes, stay with the caller.)
#[derive(Debug, Clone)]
pub struct LlmModel {
    pub name: String,
    pub provider: String,
    pub parameter_count: String,
    pub parameters_raw: Option<u64>,
    pub quantization: String,
    pub context_length: u32,
    pub use_case: String,
    pub is_moe: bool,
    pub num_experts: Option<u32>,
    pub active_experts: Option<u32>,
    pub active_parameters: Option<u64>,
    pub release_date: Option<String>,
    /// Known GGUF download sources (e.g. unsloth, bartowski repos).
    pub gguf_sources: Vec<GgufSource>,
    /// Model capabilities (vision, tool use, etc.).
    pub capabilities: Vec<Capability>,
    /// Model weight format (gguf, awq, gptq, mlx, safetensors).
    pub format: ModelFormat,
    /// Number of attention heads (for tensor-parallelism checks).
    pub num_attention_heads: Option<u32>,
    /// Number of key-value heads for GQA.
    pub num_key_value_heads: Option<u32>,
    /// Total number of transformer layers.
    pub num_hidden_layers: Option<u32>,
    /// Per-head dimension.
    pub head_dim: Option<u32>,
    /// Attention layer composition for hybrid models; `None` means all
    /// layers are full attention.
    pub attention_layout: Option<AttentionLayout>,
    /// Model license (e.g. "apache-2.0", "mit").
    pub license: Option<String>,
    /// Hidden dimension size (d_model).
    pub hidden_size: Option<u32>,
    /// Per-expert FFN intermediate size.
    pub moe_intermediate_size: Option<u32>,
    /// Vocabulary size.
    pub vocab_size: Option<u32>,
    /// Shared expert FFN intermediate size.
    pub shared_expert_intermediate_size: Option<u32>,
    /// Architecture string from the HuggingFace config (e.g. "qwen2").
    pub architecture: Option<String>,
}

/// The attention layout known for a lower-cased model name.
pub open spec fn attention_layout_of(l: Seq<char>) -> Option<AttentionLayout> {
    if has_substring(l, "qwen3-next"@) || has_substring(l, "qwen3.5-next"@) {
        Some(AttentionLayout { full: 10, linear: 30 })
    } else if has_substring(l, "qwen3.5-"@) || has_substring(l, "qwen3.6-"@) {
        if has_substring(l, "-a3b"@) || has_substring(l, "-a10b"@) || has_substring(l, "-a17b"@) {
            Some(AttentionLayout { full: 10, linear: 30 })
        } else {
            Some(AttentionLayout { full: 16, linear: 48 })
        }
    } else if has_substring(l, "jamba"@) {
        Some(AttentionLayout { full: 4, linear: 28 })
    } else if has_substring(l, "zamba"@) {
        Some(AttentionLayout { full: 2, linear: 54 })
    } else if has_substring(l, "mamba"@) || has_substring(l, "rwkv"@) {
        Some(AttentionLayout { full: 0, linear: 1 })
    } else {
        None
    }
}

/// Infer an attention layout from the model name for known hybrid families
/// (Qwen3-Next, Qwen3.5/3.6, Jamba, Zamba, pure SSMs). `None` for plain dense
/// transformers.
pub fn infer_attention_layout_from_name(name: &str) -> (r: Option<AttentionLayout>)
    ensures
        r == attention_layout_of(str_lowercase(name@)),
{
    let lower = lower_str(name);
    if contains_str(&lower, "qwen3-next") || contains_str(&lower, "qwen3.5-next") {
        return Some(AttentionLayout { full: 10, linear: 30 });
    }
    if contains_str(&lower, "qwen3.5-") || contains_str(&lower, "qwen3.6-") {
        if contains_str(&lower, "-a3b") || contains_str(&lower, "-a10b") || contains_str(
            &lower,
            "-a17b",
        ) {
            return Some(AttentionLayout { full: 10, linear: 30 });
        }
        return Some(AttentionLayout { full: 16, linear: 48 });
    }
    if contains_str(&lower, "jamba") {
        return Some(AttentionLayout { full: 4, linear: 28 });
    }
    if contains_str(&lower, "zamba") {
        return Some(AttentionLayout { full: 2, linear: 54 });
    }
    if contains_str(&lower, "mamba") || contains_str(&lower, "rwkv") {
        return Some(AttentionLayout { full: 0, linear: 1 });
    }
    None
}

impl LlmModel {
    /// MLX models are Apple-only; they carry the `-MLX-` marker (or end in
    /// `-MLX`) in their name.
    pub fn is_mlx_model(&self) -> (r: bool)
        ensures
            r == (has_substring(str_lowercase(self.name@), "-mlx-"@) || has_suffix(
                str_lowercase(self.name@),
                "-mlx"@,
            )),
    {
        let nv = chars_of(self.name.as_str());
        let lower = to_lowercase(&nv);
        contains_str(&lower, "-mlx-") || ends_with_str(&lower, "-mlx")
    }

    /// The model uses a pre-quantized format (AWQ/GPTQ/AutoRound).
    pub fn is_prequantized(&self) -> (r: bool)
        ensures
            r == (self.format == ModelFormat::Awq || self.format == ModelFormat::Gptq
                || self.format == ModelFormat::Autoround),
    {
        self.format.is_prequantized()
    }

    /// The explicit attention layout when present, otherwise the one the
    /// name suggests.
    pub fn effective_attention_layout(&self) -> (r: Option<AttentionLayout>)
        ensures
            r == match self.attention_layout {
                Some(l) => Some(l),
                None => attention_layout_of(str_lowercase(self.name@)),
            },
    {
        match self.attention_layout {
            Some(l) => Some(l),
            None => infer_attention_layout_from_name(self.name.as_str()),
        }
    }

    /// MLX-specific (Apple Silicon only): "-MLX" in the upper-cased name.
    pub fn is_mlx_only(&self) -> (r: bool)
        ensures
            r == has_substring(str_uppercase(self.name@), "-MLX"@),
            all_ascii(self.name@) ==> r == has_substring(ascii_uppered(self.name@), "-MLX"@),
    {
        let nv = chars_of(self.name.as_str());
        let upper = to_uppercase(&nv);
        contains_str(&upper, "-MLX")
    }
}


/// Attention and key-value head counts guessed from a lower-cased model
/// name and the parameter count in billions rounded up to a whole number
/// (so that "more than T billion" reads `p > T`).
pub open spec fn heads_from_name(l: Seq<char>, p: u64) -> (u32, u32) {
    if has_substring(l, "qwen"@) {
        if p > 100 {
            (128, 16)
        } else if p > 50 {
            (64, 8)
        } else if p > 25 {
            (40, 8)
        } else if p > 10 {
            (40, 8)
        } else if p > 5 {
            (32, 8)
        } else {
            (16, 4)
        }
    } else if has_substring(l, "llama"@) {
        if has_substring(l, "scout"@) || has_substring(l, "maverick"@) {
            (64, 8)
        } else if p > 60 {
            (64, 8)
        } else if p > 20 {
            (48, 8)
        } else if p > 5 {
            (32, 8)
        } else {
            (16, 8)
        }
    } else if has_substring(l, "deepseek"@) {
        if p > 200 {
            (128, 16)
        } else if p > 50 {
            (64, 8)
        } else if p > 25 {
            (40, 8)
        } else if p > 10 {
            (40, 8)
        } else {
            (32, 8)
        }
    } else if has_substring(l, "mistral"@) || has_substring(l, "mixtral"@) {
        if p > 100 {
            (96, 8)
        } else {
            (32, 8)
        }
    } else if has_substring(l, "gemma"@) {
        if p > 20 {
            (32, 16)
        } else if p > 5 {
            (16, 8)
        } else {
            (8, 4)
        }
    } else if has_substring(l, "phi"@) {
        if p > 10 {
            (40, 10)
        } else {
            (32, 8)
        }
    } else if has_substring(l, "minimax"@) {
        (48, 8)
    } else if p > 100 {
        (128, 16)
    } else if p > 50 {
        (64, 8)
    } else if p > 5 {
        (32, 8)
    } else {
        (16, 4)
    }
}

/// Infers attention and KV head counts from the model name and its
/// parameter count in billions rounded up to a whole number (0 for a count
/// that is not positive). Used when the metadata gives no head counts.
pub fn infer_heads_from_name(name: &str, params_b_ceil: u64) -> (r: (u32, u32))
    ensures
        r == heads_from_name(str_lowercase(name@), params_b_ceil),
{
    let nv = chars_of(name);
    let l = to_lowercase(&nv);
    let p = params_b_ceil;
    if contains_str(&l, "qwen") {
        return if p > 100 {
            (128, 16)
        } else if p > 50 {
            (64, 8)
        } else if p > 25 {
            (40, 8)
        } else if p > 10 {
            (40, 8)
        } else if p > 5 {
            (32, 8)
        } else {
            (16, 4)
        };
    }
    if contains_str(&l, "llama") {
        return if contains_str(&l, "scout") || contains_str(&l, "maverick") {
            (64, 8)
        } else if p > 60 {
            (64, 8)
        } else if p > 20 {
            (48, 8)
        } else if p > 5 {
            (32, 8)
        } else {
            (16, 8)
        };
    }
    if contains_str(&l, "deepseek") {
        return if p > 200 {
            (128, 16)
        } else if p > 50 {
            (64, 8)
        } else if p > 25 {
            (40, 8)
        } else if p > 10 {
            (40, 8)
        } else {
            (32, 8)
        };
    }
    if contains_str(&l, "mistral") || contains_str(&l, "mixtral") {
        return if p > 100 {
            (96, 8)
        } else if p > 20 {
            (32, 8)
        } else {
            (32, 8)
        };
    }
    if contains_str(&l, "gemma") {
        return if p > 20 {
            (32, 16)
        } else if p > 5 {
            (16, 8)
        } else {
            (8, 4)
        };
    }
    if contains_str(&l, "phi") {
        return if p > 10 {
            (40, 10)
        } else {
            (32, 8)
        };
    }
    if contains_str(&l, "minimax") {
        return (48, 8);
    }
    if p > 100 {
        (128, 16)
    } else if p > 50 {
        (64, 8)
    } else if p > 20 {
        (32, 8)
    } else if p > 5 {
        (32, 8)
    } else {
        (16, 4)
    }
}

/// The head counts of a model: both from the metadata when given, the
/// attention count twice when only it is given, else guessed from the name.
pub open spec fn head_counts(m: LlmModel, p: u64) -> (u32, u32) {
    match (m.num_attention_heads, m.num_key_value_heads) {
        (Some(a), Some(k)) => (a, k),
        (Some(a), None) => (a, a),
        _ => heads_from_name(str_lowercase(m.name@), p),
    }
}

/// A model can be split over `tp` devices when both head counts divide by
/// it; one device always works.
pub open spec fn tp_supported(m: LlmModel, p: u64, tp: u32) -> bool {
    tp <= 1 || ((head_counts(m, p).0 % tp) == 0 && (head_counts(m, p).1 % tp) == 0)
}

/// The degrees in `1..=n` that `tp_supported` accepts, in increasing order.
pub open spec fn tp_sizes_upto(m: LlmModel, p: u64, n: nat) -> Seq<u32>
    decreases n,
{
    if n == 0 {
        Seq::empty()
    } else if tp_supported(m, p, n as u32) {
        tp_sizes_upto(m, p, (n - 1) as nat).push(n as u32)
    } else {
        tp_sizes_upto(m, p, (n - 1) as nat)
    }
}

/// `tp_sizes_upto` holds exactly the accepted degrees up to `n`, increasing.
proof fn lemma_tp_sizes_upto(m: LlmModel, p: u64, n: nat)
    requires
        n <= 8,
    ensures
        forall|tp: u32| #[trigger]
            tp_sizes_upto(m, p, n).contains(tp) <==> (1 <= tp <= n && tp_supported(m, p, tp)),
        forall|a: int, b: int|
            0 <= a < b < tp_sizes_upto(m, p, n).len() ==> tp_sizes_upto(m, p, n)[a]
                < tp_sizes_upto(m, p, n)[b],
        forall|a: int|
            0 <= a < tp_sizes_upto(m, p, n).len() ==> tp_sizes_upto(m, p, n)[a] <= n,
    decreases n,
{
    if n > 0 {
        lemma_tp_sizes_upto(m, p, (n - 1) as nat);
        let prev = tp_sizes_upto(m, p, (n - 1) as nat);
        if tp_supported(m, p, n as u32) {
            assert forall|tp: u32| #[trigger]
                prev.push(n as u32).contains(tp) <==> (1 <= tp <= n && tp_supported(m, p, tp)) by {
                let pp = prev.push(n as u32);
                if pp.contains(tp) {
                    let i = choose|i: int| 0 <= i < pp.len() && #[trigger] pp[i] == tp;
                    if i < prev.len() {
                        assert(prev[i] == tp);
                        assert(prev.contains(tp));
                    }
                }
                if 1 <= tp <= n && tp_supported(m, p, tp) {
                    if tp < n {
                        assert(prev.contains(tp));
                        let i = choose|i: int| 0 <= i < prev.len() && #[trigger] prev[i] == tp;
                        assert(pp[i] == tp);
                    } else {
                        assert(pp[prev.len() as int] == tp);
                    }
                }
            }
        }
    }
}

impl LlmModel {
    /// Attention and KV head counts from the metadata, or from the name
    /// (with the parameter count in billions rounded up) when missing.
    pub fn infer_head_counts(&self, params_b_ceil: u64) -> (r: (u32, u32))
        ensures
            r == head_counts(*self, params_b_ceil),
    {
        match (self.num_attention_heads, self.num_key_value_heads) {
            (Some(a), Some(k)) => (a, k),
            (Some(a), None) => (a, a),
            _ => infer_heads_from_name(self.name.as_str(), params_b_ceil),
        }
    }

    /// Whether the attention and KV head counts divide evenly by `tp_size`,
    /// so that the model can be split across that many devices. TP=1 (and
    /// 0) is always accepted.
    pub fn supports_tp(&self, tp_size: u32, params_b_ceil: u64) -> (r: bool)
        ensures
            r == tp_supported(*self, params_b_ceil, tp_size),
            tp_size <= 1 ==> r,
    {
        if tp_size <= 1 {
            return true;
        }
        let (attn, kv) = self.infer_head_counts(params_b_ceil);
        attn % tp_size == 0 && kv % tp_size == 0
    }

    /// All TP degrees in `1..=8` that `supports_tp` accepts, in increasing
    /// order.
    pub fn valid_tp_sizes(&self, params_b_ceil: u64) -> (r: Vec<u32>)
        ensures
            r@ == tp_sizes_upto(*self, params_b_ceil, 8),
            forall|tp: u32| #[trigger]
                r@.contains(tp) <==> (1 <= tp <= 8 && tp_supported(*self, params_b_ceil, tp)),
            forall|a: int, b: int| 0 <= a < b < r@.len() ==> r@[a] < r@[b],
    {
        let mut r: Vec<u32> = Vec::new();
        let mut tp: u32 = 1;
        while tp <= 8
            invariant
                1 <= tp <= 9,
                r@ == tp_sizes_upto(*self, params_b_ceil, (tp - 1) as nat),
            decreases 9 - tp,
        {
            if self.supports_tp(tp, params_b_ceil) {
                r.push(tp);
            }
            tp += 1;
        }
        proof {
            lemma_tp_sizes_upto(*self, params_b_ceil, 8);
        }
        r
    }
}

/// KV cache element representation.
#[derive(Debug, Clone, Copy, PartialEq, Eq, Structural)]
pub enum KvQuant {
    /// fp16 / bf16, the inference default for most runtimes.
    Fp16,
    /// fp8 KV cache.
    Fp8,
    /// 8 bit integer KV cache (llama.cpp `q8_0`, vLLM int8).
    Q8_0,
    /// 4 bit integer KV cache (llama.cpp `q4_0`, vLLM int4).
    Q4_0,
    /// TurboQuant (3 bit keys + 2 bit values); compresses only full
    /// attention layers.
    TurboQuant,
}

impl Default for KvQuant {
    fn default() -> (r: Self)
        ensures
            r == KvQuant::Fp16,
    {
        KvQuant::Fp16
    }
}

/// The label of each KV quantization.
pub open spec fn kv_label(k: KvQuant) -> Seq<char> {
    match k {
        KvQuant::Fp16 => "fp16"@,
        KvQuant::Fp8 => "fp8"@,
        KvQuant::Q8_0 => "q8_0"@,
        KvQuant::Q4_0 => "q4_0"@,
        KvQuant::TurboQuant => "tq"@,
    }
}

/// The KV quantization named by a trimmed, lower-cased text.
pub open spec fn kv_quant_named(t: Seq<char>) -> Option<KvQuant> {
    if t == "fp16"@ || t == "f16"@ || t == "bf16"@ || t == "default"@ {
        Some(KvQuant::Fp16)
    } else if t == "fp8"@ || t == "f8"@ {
        Some(KvQuant::Fp8)
    } else if t == "q8"@ || t == "q8_0"@ || t == "int8"@ {
        Some(KvQuant::Q8_0)
    } else if t == "q4"@ || t == "q4_0"@ || t == "int4"@ {
        Some(KvQuant::Q4_0)
    } else if t == "tq"@ || t == "turboquant"@ {
        Some(KvQuant::TurboQuant)
    } else {
        None
    }
}

/// Bytes per KV element, in hundredths of a byte.
pub open spec fn kv_bytes_per_element(k: KvQuant) -> u32 {
    match k {
        KvQuant::Fp16 => 200,
        KvQuant::Fp8 => 100,
        KvQuant::Q8_0 => 100,
        KvQuant::Q4_0 => 50,
        KvQuant::TurboQuant => 34,
    }
}

/// Every label is ASCII, lower case and free of white space, so trimming
/// and lower-casing leave it unchanged.
proof fn lemma_label_normal(k: KvQuant)
    ensures
        all_ascii(kv_label(k)),
        trimmed(kv_label(k)) == kv_label(k),
        ascii_lowered(kv_label(k)) == kv_label(k),
{
    reveal_strlit("fp16");
    reveal_strlit("fp8");
    reveal_strlit("q8_0");
    reveal_strlit("q4_0");
    reveal_strlit("tq");
    let l = kv_label(k);
    assert(crate::text::trim_start(l) == l);
    assert(crate::text::trim_end(l) == l);
    assert(ascii_lowered(l) =~= l);
}

/// Each label names its own variant.
proof fn lemma_kv_label_named(k: KvQuant)
    ensures
        kv_quant_named(kv_label(k)) == Some(k),
{
    reveal_strlit("fp16");
    reveal_strlit("fp8");
    reveal_strlit("q8_0");
    reveal_strlit("q4_0");
    reveal_strlit("tq");
    reveal_strlit("f16");
    reveal_strlit("bf16");
    reveal_strlit("default");
    reveal_strlit("f8");
    reveal_strlit("q8");
    reveal_strlit("int8");
    reveal_strlit("q4");
    reveal_strlit("int4");
    reveal_strlit("turboquant");
    let l = kv_label(k);
    match k {
        KvQuant::Fp16 => {
            assert(l == "fp16"@);
            assert(kv_quant_named(l) == Some(KvQuant::Fp16));
        },
        KvQuant::Fp8 => {
            assert(l[1] != "f16"@[1]);
            assert(l.len() == 3);
            assert(l != "fp16"@);
            assert(l != "f16"@);
            assert(l != "bf16"@);
            assert(l != "default"@);
            assert(l == "fp8"@);
            assert(kv_quant_named(l) == Some(k));
        },
        KvQuant::Q8_0 => {
            assert(l[0] != "fp16"@[0]);
            assert(l[0] != "bf16"@[0]);
            assert(kv_quant_named(l) == Some(k));
        },
        KvQuant::Q4_0 => {
            assert(l[0] != "fp16"@[0]);
            assert(l[0] != "bf16"@[0]);
            assert(l[1] != "q8_0"@[1]);
            assert(l[0] != "int8"@[0]);
            assert(kv_quant_named(l) == Some(k));
        },
        KvQuant::TurboQuant => {
            assert(l[0] != "f8"@[0]);
            assert(l[0] != "q8"@[0]);
            assert(l[0] != "q4"@[0]);
            assert(kv_quant_named(l) == Some(k));
        },
    }
}

impl KvQuant {
    pub fn label(&self) -> (r: &'static str)
        ensures
            r@ == kv_label(*self),
    {
        match self {
            KvQuant::Fp16 => "fp16",
            KvQuant::Fp8 => "fp8",
            KvQuant::Q8_0 => "q8_0",
            KvQuant::Q4_0 => "q4_0",
            KvQuant::TurboQuant => "tq",
        }
    }

    /// Bytes per KV element, in hundredths of a byte (200 for fp16, 34 for
    /// TurboQuant's ~2.7 bits on the compressible slice).
    pub fn bytes_per_element(&self) -> (r: u32)
        ensures
            r == kv_bytes_per_element(*self),
    {
        match self {
            KvQuant::Fp16 => 200,
            KvQuant::Fp8 => 100,
            KvQuant::Q8_0 => 100,
            KvQuant::Q4_0 => 50,
            KvQuant::TurboQuant => 34,
        }
    }

    /// Parses a KV quantization name, ignoring surrounding white space and
    /// case. Every label parses back to its own variant.
    pub fn parse(s: &str) -> (r: Option<KvQuant>)
        ensures
            r == kv_quant_named(str_lowercase(trimmed(s@))),
            forall|k: KvQuant| s@ == kv_label(k) ==> r == Some(k),
    {
        let v = chars_of(s);
        let t = trim(&v);
        let l = to_lowercase(&t);
        proof {
            reveal_strlit("fp16");
            reveal_strlit("fp8");
            reveal_strlit("q8_0");
            reveal_strlit("q4_0");
            reveal_strlit("tq");
            reveal_strlit("f16");
            reveal_strlit("bf16");
            reveal_strlit("default");
            reveal_strlit("f8");
            reveal_strlit("q8");
            reveal_strlit("int8");
            reveal_strlit("q4");
            reveal_strlit("int4");
            reveal_strlit("turboquant");
            assert forall|k: KvQuant| s@ == kv_label(k) implies kv_quant_named(
                str_lowercase(trimmed(s@)),
            ) == Some(k) by {
                lemma_label_normal(k);
                assert(str_lowercase(trimmed(s@)) == kv_label(k));
                lemma_kv_label_named(k);
            }
        }
        if eq_str(&l, "fp16") || eq_str(&l, "f16") || eq_str(&l, "bf16") || eq_str(&l, "default") {
            Some(KvQuant::Fp16)
        } else if eq_str(&l, "fp8") || eq_str(&l, "f8") {
            Some(KvQuant::Fp8)
        } else if eq_str(&l, "q8") || eq_str(&l, "q8_0") || eq_str(&l, "int8") {
            Some(KvQuant::Q8_0)
        } else if eq_str(&l, "q4") || eq_str(&l, "q4_0") || eq_str(&l, "int4") {
            Some(KvQuant::Q4_0)
        } else if eq_str(&l, "tq") || eq_str(&l, "turboquant") {
            Some(KvQuant::TurboQuant)
        } else {
            None
        }
    }

    /// All KV quant options, best quality (fp16) to most compressed.
    pub fn all() -> (r: &'static [KvQuant])
        ensures
            r@ == seq![
                KvQuant::Fp16,
                KvQuant::Fp8,
                KvQuant::Q8_0,
                KvQuant::Q4_0,
                KvQuant::TurboQuant,
            ],
    {
        &[KvQuant::Fp16, KvQuant::Fp8, KvQuant::Q8_0, KvQuant::Q4_0, KvQuant::TurboQuant]
    }
}


/// The license names a comma-separated filter allows: each piece trimmed and
/// lower-cased.
pub open spec fn allowed_licenses(filter: Seq<char>) -> Seq<Seq<char>> {
    split(filter, ',').map_values(|p: Seq<char>| str_lowercase(trimmed(p)))
}

/// Returns true if a model's license matches any in the comma-separated
/// filter string (ignoring case and surrounding white space). Models without
/// a license never match.
pub fn matches_license_filter(license: &Option<String>, filter: &str) -> (r: bool)
    ensures
        r == match license {
            Some(l) => allowed_licenses(filter@).contains(str_lowercase(l@)),
            None => false,
        },
        license is None ==> !r,
{
    let fv = chars_of(filter);
    let pieces = split_char(&fv, ',');
    let mut allowed: Vec<Vec<char>> = Vec::new();
    let mut i: usize = 0;
    while i < pieces.len()
        invariant
            i <= pieces@.len(),
            views(pieces@) == split(fv@, ','),
            fv@ == filter@,
            views(allowed@) == views(pieces@).subrange(0, i as int).map_values(
                |p: Seq<char>| str_lowercase(trimmed(p)),
            ),
        decreases pieces@.len() - i,
    {
        let t = trim(&pieces[i]);
        let l = to_lowercase(&t);
        let ghost before = allowed@;
        allowed.push(l);
        assert(views(allowed@) =~= views(pieces@).subrange(0, i + 1).map_values(
            |p: Seq<char>| str_lowercase(trimmed(p)),
        )) by {
            assert(views(allowed@) =~= views(before).push(l@));
        }
        i += 1;
    }
    assert(views(pieces@).subrange(0, i as int) =~= views(pieces@));
    match license {
        None => false,
        Some(lic) => {
            let lv = chars_of(lic.as_str());
            let ll = to_lowercase(&lv);
            let mut j: usize = 0;
            while j < allowed.len()
                invariant
                    j <= allowed@.len(),
                    views(allowed@) == allowed_licenses(filter@),
                    ll@ == str_lowercase(lic@),
                    *license == Some(*lic),
                    forall|k: int| 0 <= k < j ==> views(allowed@)[k] != ll@,
                decreases allowed@.len() - j,
            {
                if eq_chars(&allowed[j], &ll) {
                    assert(allowed_licenses(filter@)[j as int] == ll@);
                    assert(allowed_licenses(filter@).contains(str_lowercase(lic@)));
                    return true;
                }
                j += 1;
            }
            false
        },
    }
}

/// The canonical slug of a model name: the part after the last `/`,
/// lower-cased, with `-`, `_` and `.` removed.
pub open spec fn slug_of(name: Seq<char>) -> Seq<char> {
    without_separators(str_lowercase(after_last(name, '/')))
}

/// Normalize a model name/ID to a canonical slug for deduplication, so that
/// `meta-llama/Llama-3.1-8B` and `meta-llama/llama-3.1-8b` compare equal.
pub fn canonical_slug(name: &str) -> (r: String)
    ensures
        r@ == slug_of(name@),
{
    let v = chars_of(name);
    let last = after_last_char(&v, '/');
    let lower = to_lowercase(&last);
    let slug = remove_separators(&lower);
    string_of(&slug)
}

} // verus!
