//! Laws of the quantization tables: each listed quantization's figures,
//! the order along the K-quant hierarchy, the Unsloth dynamic variants and
//! aliases that share a level's figures, the defaults for other names, and
//! the GGUF formats' freedom from any compute-capability requirement.
use vstd::prelude::*;
use crate::hardware::min_capability_of;
use crate::models::{
    quant_bpp_of, quant_bytes_per_param_of, quant_quality_penalty_of, quant_speed_multiplier_of,
};

verus! {

/// The quantizations the tables list, with their figures: bytes per
/// parameter (hundredths), speed multiplier (hundredths), bytes per
/// parameter on disk (thousandths) and quality penalty.
pub open spec fn quant_row(i: int) -> (Seq<char>, u32, u32, u32, i32) {
    if i == 0 {
        ("F32"@, 400u32, 100u32, 500u32, -5i32)
    } else if i == 1 {
        ("F16"@, 200u32, 60u32, 2000u32, 0i32)
    } else if i == 2 {
        ("BF16"@, 200u32, 60u32, 2000u32, 0i32)
    } else if i == 3 {
        ("Q8_0"@, 105u32, 80u32, 1000u32, 0i32)
    } else if i == 4 {
        ("Q6_K"@, 80u32, 95u32, 750u32, -1i32)
    } else if i == 5 {
        ("Q5_K_M"@, 68u32, 100u32, 625u32, -2i32)
    } else if i == 6 {
        ("Q4_K_M"@, 58u32, 115u32, 500u32, -5i32)
    } else if i == 7 {
        ("Q4_0"@, 58u32, 115u32, 500u32, -5i32)
    } else if i == 8 {
        ("Q3_K_M"@, 48u32, 125u32, 375u32, -8i32)
    } else if i == 9 {
        ("Q2_K"@, 37u32, 135u32, 250u32, -12i32)
    } else if i == 10 {
        ("UD-Q2_K_XL"@, 37u32, 135u32, 250u32, -12i32)
    } else if i == 11 {
        ("UD-Q2_K_L"@, 37u32, 135u32, 250u32, -12i32)
    } else if i == 12 {
        ("UD-Q2_K_M"@, 37u32, 135u32, 250u32, -12i32)
    } else if i == 13 {
        ("UD-Q2_K_S"@, 37u32, 135u32, 250u32, -12i32)
    } else if i == 14 {
        ("UD-Q3_K_XL"@, 48u32, 125u32, 375u32, -8i32)
    } else if i == 15 {
        ("UD-Q3_K_L"@, 48u32, 125u32, 375u32, -8i32)
    } else if i == 16 {
        ("UD-Q3_K_M"@, 48u32, 125u32, 375u32, -8i32)
    } else if i == 17 {
        ("UD-Q3_K_S"@, 48u32, 125u32, 375u32, -8i32)
    } else if i == 18 {
        ("UD-Q4_K_XL"@, 58u32, 115u32, 500u32, -5i32)
    } else if i == 19 {
        ("UD-Q4_K_L"@, 58u32, 115u32, 500u32, -5i32)
    } else if i == 20 {
        ("UD-Q4_K_M"@, 58u32, 115u32, 500u32, -5i32)
    } else if i == 21 {
        ("UD-Q4_K_S"@, 58u32, 115u32, 500u32, -5i32)
    } else if i == 22 {
        ("UD-Q5_K_XL"@, 68u32, 100u32, 625u32, -2i32)
    } else if i == 23 {
        ("UD-Q5_K_L"@, 68u32, 100u32, 625u32, -2i32)
    } else if i == 24 {
        ("UD-Q5_K_M"@, 68u32, 100u32, 625u32, -2i32)
    } else if i == 25 {
        ("UD-Q5_K_S"@, 68u32, 100u32, 625u32, -2i32)
    } else if i == 26 {
        ("UD-Q6_K_XL"@, 80u32, 95u32, 750u32, -1i32)
    } else if i == 27 {
        ("UD-Q6_K_L"@, 80u32, 95u32, 750u32, -1i32)
    } else if i == 28 {
        ("UD-Q6_K_M"@, 80u32, 95u32, 750u32, -1i32)
    } else if i == 29 {
        ("UD-Q6_K_S"@, 80u32, 95u32, 750u32, -1i32)
    } else if i == 30 {
        ("UD-Q8_K_XL"@, 105u32, 80u32, 1000u32, 0i32)
    } else if i == 31 {
        ("UD-Q8_K_L"@, 105u32, 80u32, 1000u32, 0i32)
    } else if i == 32 {
        ("UD-Q8_K_M"@, 105u32, 80u32, 1000u32, 0i32)
    } else if i == 33 {
        ("UD-Q8_K_S"@, 105u32, 80u32, 1000u32, 0i32)
    } else if i == 34 {
        ("mlx-4bit"@, 55u32, 115u32, 500u32, -4i32)
    } else if i == 35 {
        ("mlx-8bit"@, 100u32, 85u32, 1000u32, 0i32)
    } else if i == 36 {
        ("AWQ-4bit"@, 50u32, 120u32, 500u32, -3i32)
    } else if i == 37 {
        ("AWQ-8bit"@, 100u32, 85u32, 1000u32, 0i32)
    } else if i == 38 {
        ("GPTQ-Int4"@, 50u32, 120u32, 500u32, -3i32)
    } else if i == 39 {
        ("GPTQ-Int8"@, 100u32, 85u32, 1000u32, 0i32)
    } else if i == 40 {
        ("AutoRound-4bit"@, 58u32, 120u32, 500u32, -3i32)
    } else if i == 41 {
        ("AutoRound-8bit"@, 58u32, 85u32, 1000u32, 0i32)
    } else {
        (Seq::empty(), 0u32, 0u32, 0u32, 0i32)
    }
}

/// How many quantizations the tables list.
pub open spec fn quant_row_count() -> int {
    42
}

/// Every listed quantization has its listed figures in all four tables.
#[verifier::spinoff_prover]
#[verifier::rlimit(100)]
pub proof fn lemma_quant_figures(i: int)
    requires
        0 <= i < quant_row_count(),
    ensures
        quant_bpp_of(quant_row(i).0) == quant_row(i).1,
        quant_speed_multiplier_of(quant_row(i).0) == quant_row(i).2,
        quant_bytes_per_param_of(quant_row(i).0) == quant_row(i).3,
        quant_quality_penalty_of(quant_row(i).0) == quant_row(i).4,
{
    reveal_strlit("F32");
    reveal_strlit("F16");
    reveal_strlit("BF16");
    reveal_strlit("Q8_0");
    reveal_strlit("Q6_K");
    reveal_strlit("Q5_K_M");
    reveal_strlit("Q4_K_M");
    reveal_strlit("Q4_0");
    reveal_strlit("Q3_K_M");
    reveal_strlit("Q2_K");
    reveal_strlit("UD-Q2_K_XL");
    reveal_strlit("UD-Q2_K_L");
    reveal_strlit("UD-Q2_K_M");
    reveal_strlit("UD-Q2_K_S");
    reveal_strlit("UD-Q3_K_XL");
    reveal_strlit("UD-Q3_K_L");
    reveal_strlit("UD-Q3_K_M");
    reveal_strlit("UD-Q3_K_S");
    reveal_strlit("UD-Q4_K_XL");
    reveal_strlit("UD-Q4_K_L");
    reveal_strlit("UD-Q4_K_M");
    reveal_strlit("UD-Q4_K_S");
    reveal_strlit("UD-Q5_K_XL");
    reveal_strlit("UD-Q5_K_L");
    reveal_strlit("UD-Q5_K_M");
    reveal_strlit("UD-Q5_K_S");
    reveal_strlit("UD-Q6_K_XL");
    reveal_strlit("UD-Q6_K_L");
    reveal_strlit("UD-Q6_K_M");
    reveal_strlit("UD-Q6_K_S");
    reveal_strlit("UD-Q8_K_XL");
    reveal_strlit("UD-Q8_K_L");
    reveal_strlit("UD-Q8_K_M");
    reveal_strlit("UD-Q8_K_S");
    reveal_strlit("mlx-4bit");
    reveal_strlit("mlx-8bit");
    reveal_strlit("AWQ-4bit");
    reveal_strlit("AWQ-8bit");
    reveal_strlit("GPTQ-Int4");
    reveal_strlit("GPTQ-Int8");
    reveal_strlit("AutoRound-4bit");
    reveal_strlit("AutoRound-8bit");
    assert("F32"@.len() == 3);
    assert("F16"@.len() == 3);
    assert("BF16"@.len() == 4);
    assert("Q8_0"@.len() == 4);
    assert("Q6_K"@.len() == 4);
    assert("Q5_K_M"@.len() == 6);
    assert("Q4_K_M"@.len() == 6);
    assert("Q4_0"@.len() == 4);
    assert("Q3_K_M"@.len() == 6);
    assert("Q2_K"@.len() == 4);
    assert("UD-Q2_K_XL"@.len() == 10);
    assert("UD-Q2_K_L"@.len() == 9);
    assert("UD-Q2_K_M"@.len() == 9);
    assert("UD-Q2_K_S"@.len() == 9);
    assert("UD-Q3_K_XL"@.len() == 10);
    assert("UD-Q3_K_L"@.len() == 9);
    assert("UD-Q3_K_M"@.len() == 9);
    assert("UD-Q3_K_S"@.len() == 9);
    assert("UD-Q4_K_XL"@.len() == 10);
    assert("UD-Q4_K_L"@.len() == 9);
    assert("UD-Q4_K_M"@.len() == 9);
    assert("UD-Q4_K_S"@.len() == 9);
    assert("UD-Q5_K_XL"@.len() == 10);
    assert("UD-Q5_K_L"@.len() == 9);
    assert("UD-Q5_K_M"@.len() == 9);
    assert("UD-Q5_K_S"@.len() == 9);
    assert("UD-Q6_K_XL"@.len() == 10);
    assert("UD-Q6_K_L"@.len() == 9);
    assert("UD-Q6_K_M"@.len() == 9);
    assert("UD-Q6_K_S"@.len() == 9);
    assert("UD-Q8_K_XL"@.len() == 10);
    assert("UD-Q8_K_L"@.len() == 9);
    assert("UD-Q8_K_M"@.len() == 9);
    assert("UD-Q8_K_S"@.len() == 9);
    assert("mlx-4bit"@.len() == 8);
    assert("mlx-8bit"@.len() == 8);
    assert("AWQ-4bit"@.len() == 8);
    assert("AWQ-8bit"@.len() == 8);
    assert("GPTQ-Int4"@.len() == 9);
    assert("GPTQ-Int8"@.len() == 9);
    assert("AutoRound-4bit"@.len() == 14);
    assert("AutoRound-8bit"@.len() == 14);
    assert("F32"@[1] != "F16"@[1]);
    assert("BF16"@[0] != "Q8_0"@[0]);
    assert("BF16"@[0] != "Q6_K"@[0]);
    assert("BF16"@[0] != "Q4_0"@[0]);
    assert("BF16"@[0] != "Q2_K"@[0]);
    assert("Q8_0"@[1] != "Q6_K"@[1]);
    assert("Q8_0"@[1] != "Q4_0"@[1]);
    assert("Q8_0"@[1] != "Q2_K"@[1]);
    assert("Q6_K"@[1] != "Q4_0"@[1]);
    assert("Q6_K"@[1] != "Q2_K"@[1]);
    assert("Q5_K_M"@[1] != "Q4_K_M"@[1]);
    assert("Q5_K_M"@[1] != "Q3_K_M"@[1]);
    assert("Q4_K_M"@[1] != "Q3_K_M"@[1]);
    assert("Q4_0"@[1] != "Q2_K"@[1]);
    assert("UD-Q2_K_XL"@[4] != "UD-Q3_K_XL"@[4]);
    assert("UD-Q2_K_XL"@[4] != "UD-Q4_K_XL"@[4]);
    assert("UD-Q2_K_XL"@[4] != "UD-Q5_K_XL"@[4]);
    assert("UD-Q2_K_XL"@[4] != "UD-Q6_K_XL"@[4]);
    assert("UD-Q2_K_XL"@[4] != "UD-Q8_K_XL"@[4]);
    assert("UD-Q2_K_L"@[8] != "UD-Q2_K_M"@[8]);
    assert("UD-Q2_K_L"@[8] != "UD-Q2_K_S"@[8]);
    assert("UD-Q2_K_L"@[4] != "UD-Q3_K_L"@[4]);
    assert("UD-Q2_K_L"@[4] != "UD-Q3_K_M"@[4]);
    assert("UD-Q2_K_L"@[4] != "UD-Q3_K_S"@[4]);
    assert("UD-Q2_K_L"@[4] != "UD-Q4_K_L"@[4]);
    assert("UD-Q2_K_L"@[4] != "UD-Q4_K_M"@[4]);
    assert("UD-Q2_K_L"@[4] != "UD-Q4_K_S"@[4]);
    assert("UD-Q2_K_L"@[4] != "UD-Q5_K_L"@[4]);
    assert("UD-Q2_K_L"@[4] != "UD-Q5_K_M"@[4]);
    assert("UD-Q2_K_L"@[4] != "UD-Q5_K_S"@[4]);
    assert("UD-Q2_K_L"@[4] != "UD-Q6_K_L"@[4]);
    assert("UD-Q2_K_L"@[4] != "UD-Q6_K_M"@[4]);
    assert("UD-Q2_K_L"@[4] != "UD-Q6_K_S"@[4]);
    assert("UD-Q2_K_L"@[4] != "UD-Q8_K_L"@[4]);
    assert("UD-Q2_K_L"@[4] != "UD-Q8_K_M"@[4]);
    assert("UD-Q2_K_L"@[4] != "UD-Q8_K_S"@[4]);
    assert("UD-Q2_K_L"@[0] != "GPTQ-Int4"@[0]);
    assert("UD-Q2_K_L"@[0] != "GPTQ-Int8"@[0]);
    assert("UD-Q2_K_M"@[8] != "UD-Q2_K_S"@[8]);
    assert("UD-Q2_K_M"@[4] != "UD-Q3_K_L"@[4]);
    assert("UD-Q2_K_M"@[4] != "UD-Q3_K_M"@[4]);
    assert("UD-Q2_K_M"@[4] != "UD-Q3_K_S"@[4]);
    assert("UD-Q2_K_M"@[4] != "UD-Q4_K_L"@[4]);
    assert("UD-Q2_K_M"@[4] != "UD-Q4_K_M"@[4]);
    assert("UD-Q2_K_M"@[4] != "UD-Q4_K_S"@[4]);
    assert("UD-Q2_K_M"@[4] != "UD-Q5_K_L"@[4]);
    assert("UD-Q2_K_M"@[4] != "UD-Q5_K_M"@[4]);
    assert("UD-Q2_K_M"@[4] != "UD-Q5_K_S"@[4]);
    assert("UD-Q2_K_M"@[4] != "UD-Q6_K_L"@[4]);
    assert("UD-Q2_K_M"@[4] != "UD-Q6_K_M"@[4]);
    assert("UD-Q2_K_M"@[4] != "UD-Q6_K_S"@[4]);
    assert("UD-Q2_K_M"@[4] != "UD-Q8_K_L"@[4]);
    assert("UD-Q2_K_M"@[4] != "UD-Q8_K_M"@[4]);
    assert("UD-Q2_K_M"@[4] != "UD-Q8_K_S"@[4]);
    assert("UD-Q2_K_M"@[0] != "GPTQ-Int4"@[0]);
    assert("UD-Q2_K_M"@[0] != "GPTQ-Int8"@[0]);
    assert("UD-Q2_K_S"@[4] != "UD-Q3_K_L"@[4]);
    assert("UD-Q2_K_S"@[4] != "UD-Q3_K_M"@[4]);
    assert("UD-Q2_K_S"@[4] != "UD-Q3_K_S"@[4]);
    assert("UD-Q2_K_S"@[4] != "UD-Q4_K_L"@[4]);
    assert("UD-Q2_K_S"@[4] != "UD-Q4_K_M"@[4]);
    assert("UD-Q2_K_S"@[4] != "UD-Q4_K_S"@[4]);
    assert("UD-Q2_K_S"@[4] != "UD-Q5_K_L"@[4]);
    assert("UD-Q2_K_S"@[4] != "UD-Q5_K_M"@[4]);
    assert("UD-Q2_K_S"@[4] != "UD-Q5_K_S"@[4]);
    assert("UD-Q2_K_S"@[4] != "UD-Q6_K_L"@[4]);
    assert("UD-Q2_K_S"@[4] != "UD-Q6_K_M"@[4]);
    assert("UD-Q2_K_S"@[4] != "UD-Q6_K_S"@[4]);
    assert("UD-Q2_K_S"@[4] != "UD-Q8_K_L"@[4]);
    assert("UD-Q2_K_S"@[4] != "UD-Q8_K_M"@[4]);
    assert("UD-Q2_K_S"@[4] != "UD-Q8_K_S"@[4]);
    assert("UD-Q2_K_S"@[0] != "GPTQ-Int4"@[0]);
    assert("UD-Q2_K_S"@[0] != "GPTQ-Int8"@[0]);
    assert("UD-Q3_K_XL"@[4] != "UD-Q4_K_XL"@[4]);
    assert("UD-Q3_K_XL"@[4] != "UD-Q5_K_XL"@[4]);
    assert("UD-Q3_K_XL"@[4] != "UD-Q6_K_XL"@[4]);
    assert("UD-Q3_K_XL"@[4] != "UD-Q8_K_XL"@[4]);
    assert("UD-Q3_K_L"@[8] != "UD-Q3_K_M"@[8]);
    assert("UD-Q3_K_L"@[8] != "UD-Q3_K_S"@[8]);
    assert("UD-Q3_K_L"@[4] != "UD-Q4_K_L"@[4]);
    assert("UD-Q3_K_L"@[4] != "UD-Q4_K_M"@[4]);
    assert("UD-Q3_K_L"@[4] != "UD-Q4_K_S"@[4]);
    assert("UD-Q3_K_L"@[4] != "UD-Q5_K_L"@[4]);
    assert("UD-Q3_K_L"@[4] != "UD-Q5_K_M"@[4]);
    assert("UD-Q3_K_L"@[4] != "UD-Q5_K_S"@[4]);
    assert("UD-Q3_K_L"@[4] != "UD-Q6_K_L"@[4]);
    assert("UD-Q3_K_L"@[4] != "UD-Q6_K_M"@[4]);
    assert("UD-Q3_K_L"@[4] != "UD-Q6_K_S"@[4]);
    assert("UD-Q3_K_L"@[4] != "UD-Q8_K_L"@[4]);
    assert("UD-Q3_K_L"@[4] != "UD-Q8_K_M"@[4]);
    assert("UD-Q3_K_L"@[4] != "UD-Q8_K_S"@[4]);
    assert("UD-Q3_K_L"@[0] != "GPTQ-Int4"@[0]);
    assert("UD-Q3_K_L"@[0] != "GPTQ-Int8"@[0]);
    assert("UD-Q3_K_M"@[8] != "UD-Q3_K_S"@[8]);
    assert("UD-Q3_K_M"@[4] != "UD-Q4_K_L"@[4]);
    assert("UD-Q3_K_M"@[4] != "UD-Q4_K_M"@[4]);
    assert("UD-Q3_K_M"@[4] != "UD-Q4_K_S"@[4]);
    assert("UD-Q3_K_M"@[4] != "UD-Q5_K_L"@[4]);
    assert("UD-Q3_K_M"@[4] != "UD-Q5_K_M"@[4]);
    assert("UD-Q3_K_M"@[4] != "UD-Q5_K_S"@[4]);
    assert("UD-Q3_K_M"@[4] != "UD-Q6_K_L"@[4]);
    assert("UD-Q3_K_M"@[4] != "UD-Q6_K_M"@[4]);
    assert("UD-Q3_K_M"@[4] != "UD-Q6_K_S"@[4]);
    assert("UD-Q3_K_M"@[4] != "UD-Q8_K_L"@[4]);
    assert("UD-Q3_K_M"@[4] != "UD-Q8_K_M"@[4]);
    assert("UD-Q3_K_M"@[4] != "UD-Q8_K_S"@[4]);
    assert("UD-Q3_K_M"@[0] != "GPTQ-Int4"@[0]);
    assert("UD-Q3_K_M"@[0] != "GPTQ-Int8"@[0]);
    assert("UD-Q3_K_S"@[4] != "UD-Q4_K_L"@[4]);
    assert("UD-Q3_K_S"@[4] != "UD-Q4_K_M"@[4]);
    assert("UD-Q3_K_S"@[4] != "UD-Q4_K_S"@[4]);
    assert("UD-Q3_K_S"@[4] != "UD-Q5_K_L"@[4]);
    assert("UD-Q3_K_S"@[4] != "UD-Q5_K_M"@[4]);
    assert("UD-Q3_K_S"@[4] != "UD-Q5_K_S"@[4]);
    assert("UD-Q3_K_S"@[4] != "UD-Q6_K_L"@[4]);
    assert("UD-Q3_K_S"@[4] != "UD-Q6_K_M"@[4]);
    assert("UD-Q3_K_S"@[4] != "UD-Q6_K_S"@[4]);
    assert("UD-Q3_K_S"@[4] != "UD-Q8_K_L"@[4]);
    assert("UD-Q3_K_S"@[4] != "UD-Q8_K_M"@[4]);
    assert("UD-Q3_K_S"@[4] != "UD-Q8_K_S"@[4]);
    assert("UD-Q3_K_S"@[0] != "GPTQ-Int4"@[0]);
    assert("UD-Q3_K_S"@[0] != "GPTQ-Int8"@[0]);
    assert("UD-Q4_K_XL"@[4] != "UD-Q5_K_XL"@[4]);
    assert("UD-Q4_K_XL"@[4] != "UD-Q6_K_XL"@[4]);
    assert("UD-Q4_K_XL"@[4] != "UD-Q8_K_XL"@[4]);
    assert("UD-Q4_K_L"@[8] != "UD-Q4_K_M"@[8]);
    assert("UD-Q4_K_L"@[8] != "UD-Q4_K_S"@[8]);
    assert("UD-Q4_K_L"@[4] != "UD-Q5_K_L"@[4]);
    assert("UD-Q4_K_L"@[4] != "UD-Q5_K_M"@[4]);
    assert("UD-Q4_K_L"@[4] != "UD-Q5_K_S"@[4]);
    assert("UD-Q4_K_L"@[4] != "UD-Q6_K_L"@[4]);
    assert("UD-Q4_K_L"@[4] != "UD-Q6_K_M"@[4]);
    assert("UD-Q4_K_L"@[4] != "UD-Q6_K_S"@[4]);
    assert("UD-Q4_K_L"@[4] != "UD-Q8_K_L"@[4]);
    assert("UD-Q4_K_L"@[4] != "UD-Q8_K_M"@[4]);
    assert("UD-Q4_K_L"@[4] != "UD-Q8_K_S"@[4]);
    assert("UD-Q4_K_L"@[0] != "GPTQ-Int4"@[0]);
    assert("UD-Q4_K_L"@[0] != "GPTQ-Int8"@[0]);
    assert("UD-Q4_K_M"@[8] != "UD-Q4_K_S"@[8]);
    assert("UD-Q4_K_M"@[4] != "UD-Q5_K_L"@[4]);
    assert("UD-Q4_K_M"@[4] != "UD-Q5_K_M"@[4]);
    assert("UD-Q4_K_M"@[4] != "UD-Q5_K_S"@[4]);
    assert("UD-Q4_K_M"@[4] != "UD-Q6_K_L"@[4]);
    assert("UD-Q4_K_M"@[4] != "UD-Q6_K_M"@[4]);
    assert("UD-Q4_K_M"@[4] != "UD-Q6_K_S"@[4]);
    assert("UD-Q4_K_M"@[4] != "UD-Q8_K_L"@[4]);
    assert("UD-Q4_K_M"@[4] != "UD-Q8_K_M"@[4]);
    assert("UD-Q4_K_M"@[4] != "UD-Q8_K_S"@[4]);
    assert("UD-Q4_K_M"@[0] != "GPTQ-Int4"@[0]);
    assert("UD-Q4_K_M"@[0] != "GPTQ-Int8"@[0]);
    assert("UD-Q4_K_S"@[4] != "UD-Q5_K_L"@[4]);
    assert("UD-Q4_K_S"@[4] != "UD-Q5_K_M"@[4]);
    assert("UD-Q4_K_S"@[4] != "UD-Q5_K_S"@[4]);
    assert("UD-Q4_K_S"@[4] != "UD-Q6_K_L"@[4]);
    assert("UD-Q4_K_S"@[4] != "UD-Q6_K_M"@[4]);
    assert("UD-Q4_K_S"@[4] != "UD-Q6_K_S"@[4]);
    assert("UD-Q4_K_S"@[4] != "UD-Q8_K_L"@[4]);
    assert("UD-Q4_K_S"@[4] != "UD-Q8_K_M"@[4]);
    assert("UD-Q4_K_S"@[4] != "UD-Q8_K_S"@[4]);
    assert("UD-Q4_K_S"@[0] != "GPTQ-Int4"@[0]);
    assert("UD-Q4_K_S"@[0] != "GPTQ-Int8"@[0]);
    assert("UD-Q5_K_XL"@[4] != "UD-Q6_K_XL"@[4]);
    assert("UD-Q5_K_XL"@[4] != "UD-Q8_K_XL"@[4]);
    assert("UD-Q5_K_L"@[8] != "UD-Q5_K_M"@[8]);
    assert("UD-Q5_K_L"@[8] != "UD-Q5_K_S"@[8]);
    assert("UD-Q5_K_L"@[4] != "UD-Q6_K_L"@[4]);
    assert("UD-Q5_K_L"@[4] != "UD-Q6_K_M"@[4]);
    assert("UD-Q5_K_L"@[4] != "UD-Q6_K_S"@[4]);
    assert("UD-Q5_K_L"@[4] != "UD-Q8_K_L"@[4]);
    assert("UD-Q5_K_L"@[4] != "UD-Q8_K_M"@[4]);
    assert("UD-Q5_K_L"@[4] != "UD-Q8_K_S"@[4]);
    assert("UD-Q5_K_L"@[0] != "GPTQ-Int4"@[0]);
    assert("UD-Q5_K_L"@[0] != "GPTQ-Int8"@[0]);
    assert("UD-Q5_K_M"@[8] != "UD-Q5_K_S"@[8]);
    assert("UD-Q5_K_M"@[4] != "UD-Q6_K_L"@[4]);
    assert("UD-Q5_K_M"@[4] != "UD-Q6_K_M"@[4]);
    assert("UD-Q5_K_M"@[4] != "UD-Q6_K_S"@[4]);
    assert("UD-Q5_K_M"@[4] != "UD-Q8_K_L"@[4]);
    assert("UD-Q5_K_M"@[4] != "UD-Q8_K_M"@[4]);
    assert("UD-Q5_K_M"@[4] != "UD-Q8_K_S"@[4]);
    assert("UD-Q5_K_M"@[0] != "GPTQ-Int4"@[0]);
    assert("UD-Q5_K_M"@[0] != "GPTQ-Int8"@[0]);
    assert("UD-Q5_K_S"@[4] != "UD-Q6_K_L"@[4]);
    assert("UD-Q5_K_S"@[4] != "UD-Q6_K_M"@[4]);
    assert("UD-Q5_K_S"@[4] != "UD-Q6_K_S"@[4]);
    assert("UD-Q5_K_S"@[4] != "UD-Q8_K_L"@[4]);
    assert("UD-Q5_K_S"@[4] != "UD-Q8_K_M"@[4]);
    assert("UD-Q5_K_S"@[4] != "UD-Q8_K_S"@[4]);
    assert("UD-Q5_K_S"@[0] != "GPTQ-Int4"@[0]);
    assert("UD-Q5_K_S"@[0] != "GPTQ-Int8"@[0]);
    assert("UD-Q6_K_XL"@[4] != "UD-Q8_K_XL"@[4]);
    assert("UD-Q6_K_L"@[8] != "UD-Q6_K_M"@[8]);
    assert("UD-Q6_K_L"@[8] != "UD-Q6_K_S"@[8]);
    assert("UD-Q6_K_L"@[4] != "UD-Q8_K_L"@[4]);
    assert("UD-Q6_K_L"@[4] != "UD-Q8_K_M"@[4]);
    assert("UD-Q6_K_L"@[4] != "UD-Q8_K_S"@[4]);
    assert("UD-Q6_K_L"@[0] != "GPTQ-Int4"@[0]);
    assert("UD-Q6_K_L"@[0] != "GPTQ-Int8"@[0]);
    assert("UD-Q6_K_M"@[8] != "UD-Q6_K_S"@[8]);
    assert("UD-Q6_K_M"@[4] != "UD-Q8_K_L"@[4]);
    assert("UD-Q6_K_M"@[4] != "UD-Q8_K_M"@[4]);
    assert("UD-Q6_K_M"@[4] != "UD-Q8_K_S"@[4]);
    assert("UD-Q6_K_M"@[0] != "GPTQ-Int4"@[0]);
    assert("UD-Q6_K_M"@[0] != "GPTQ-Int8"@[0]);
    assert("UD-Q6_K_S"@[4] != "UD-Q8_K_L"@[4]);
    assert("UD-Q6_K_S"@[4] != "UD-Q8_K_M"@[4]);
    assert("UD-Q6_K_S"@[4] != "UD-Q8_K_S"@[4]);
    assert("UD-Q6_K_S"@[0] != "GPTQ-Int4"@[0]);
    assert("UD-Q6_K_S"@[0] != "GPTQ-Int8"@[0]);
    assert("UD-Q8_K_L"@[8] != "UD-Q8_K_M"@[8]);
    assert("UD-Q8_K_L"@[8] != "UD-Q8_K_S"@[8]);
    assert("UD-Q8_K_L"@[0] != "GPTQ-Int4"@[0]);
    assert("UD-Q8_K_L"@[0] != "GPTQ-Int8"@[0]);
    assert("UD-Q8_K_M"@[8] != "UD-Q8_K_S"@[8]);
    assert("UD-Q8_K_M"@[0] != "GPTQ-Int4"@[0]);
    assert("UD-Q8_K_M"@[0] != "GPTQ-Int8"@[0]);
    assert("UD-Q8_K_S"@[0] != "GPTQ-Int4"@[0]);
    assert("UD-Q8_K_S"@[0] != "GPTQ-Int8"@[0]);
    assert("mlx-4bit"@[4] != "mlx-8bit"@[4]);
    assert("mlx-4bit"@[0] != "AWQ-4bit"@[0]);
    assert("mlx-4bit"@[0] != "AWQ-8bit"@[0]);
    assert("mlx-8bit"@[0] != "AWQ-4bit"@[0]);
    assert("mlx-8bit"@[0] != "AWQ-8bit"@[0]);
    assert("AWQ-4bit"@[4] != "AWQ-8bit"@[4]);
    assert("GPTQ-Int4"@[8] != "GPTQ-Int8"@[8]);
    assert("AutoRound-4bit"@[10] != "AutoRound-8bit"@[10]);
    if i == 0 {
    } else if i == 1 {
    } else if i == 2 {
    } else if i == 3 {
    } else if i == 4 {
    } else if i == 5 {
    } else if i == 6 {
    } else if i == 7 {
    } else if i == 8 {
    } else if i == 9 {
    } else if i == 10 {
    } else if i == 11 {
    } else if i == 12 {
    } else if i == 13 {
    } else if i == 14 {
    } else if i == 15 {
    } else if i == 16 {
    } else if i == 17 {
    } else if i == 18 {
    } else if i == 19 {
    } else if i == 20 {
    } else if i == 21 {
    } else if i == 22 {
    } else if i == 23 {
    } else if i == 24 {
    } else if i == 25 {
    } else if i == 26 {
    } else if i == 27 {
    } else if i == 28 {
    } else if i == 29 {
    } else if i == 30 {
    } else if i == 31 {
    } else if i == 32 {
    } else if i == 33 {
    } else if i == 34 {
    } else if i == 35 {
    } else if i == 36 {
    } else if i == 37 {
    } else if i == 38 {
    } else if i == 39 {
    } else if i == 40 {
    } else if i == 41 {
    }
}
/// The K-quant hierarchy, from best quality (`k` = 0) to most compressed
/// (`k` = 5).
pub open spec fn k_quant_level(k: int) -> Seq<char> {
    if k == 0 {
        "Q8_0"@
    } else if k == 1 {
        "Q6_K"@
    } else if k == 2 {
        "Q5_K_M"@
    } else if k == 3 {
        "Q4_K_M"@
    } else if k == 4 {
        "Q3_K_M"@
    } else {
        "Q2_K"@
    }
}

/// The Unsloth dynamic variants of hierarchy level `k`: suffix `s` = 0..3
/// stands for XL, L, M and S.
pub open spec fn dynamic_quant_name(k: int, s: int) -> Seq<char> {
    if k == 0 && s == 0 {
        "UD-Q8_K_XL"@
    } else if k == 0 && s == 1 {
        "UD-Q8_K_L"@
    } else if k == 0 && s == 2 {
        "UD-Q8_K_M"@
    } else if k == 0 && s == 3 {
        "UD-Q8_K_S"@
    } else if k == 1 && s == 0 {
        "UD-Q6_K_XL"@
    } else if k == 1 && s == 1 {
        "UD-Q6_K_L"@
    } else if k == 1 && s == 2 {
        "UD-Q6_K_M"@
    } else if k == 1 && s == 3 {
        "UD-Q6_K_S"@
    } else if k == 2 && s == 0 {
        "UD-Q5_K_XL"@
    } else if k == 2 && s == 1 {
        "UD-Q5_K_L"@
    } else if k == 2 && s == 2 {
        "UD-Q5_K_M"@
    } else if k == 2 && s == 3 {
        "UD-Q5_K_S"@
    } else if k == 3 && s == 0 {
        "UD-Q4_K_XL"@
    } else if k == 3 && s == 1 {
        "UD-Q4_K_L"@
    } else if k == 3 && s == 2 {
        "UD-Q4_K_M"@
    } else if k == 3 && s == 3 {
        "UD-Q4_K_S"@
    } else if k == 4 && s == 0 {
        "UD-Q3_K_XL"@
    } else if k == 4 && s == 1 {
        "UD-Q3_K_L"@
    } else if k == 4 && s == 2 {
        "UD-Q3_K_M"@
    } else if k == 4 && s == 3 {
        "UD-Q3_K_S"@
    } else if k == 5 && s == 0 {
        "UD-Q2_K_XL"@
    } else if k == 5 && s == 1 {
        "UD-Q2_K_L"@
    } else if k == 5 && s == 2 {
        "UD-Q2_K_M"@
    } else {
        "UD-Q2_K_S"@
    }
}

/// Down the K-quant hierarchy each level is smaller in memory and on disk,
/// faster, and pays a larger quality penalty than the one before.
pub proof fn lemma_k_quant_hierarchy_order(a: int, b: int)
    requires
        0 <= a < b < 6,
    ensures
        quant_bpp_of(k_quant_level(a)) > quant_bpp_of(k_quant_level(b)),
        quant_speed_multiplier_of(k_quant_level(a)) < quant_speed_multiplier_of(k_quant_level(b)),
        quant_bytes_per_param_of(k_quant_level(a)) > quant_bytes_per_param_of(k_quant_level(b)),
        quant_quality_penalty_of(k_quant_level(a)) > quant_quality_penalty_of(k_quant_level(b)),
{
    lemma_quant_figures(3);
    lemma_quant_figures(4);
    lemma_quant_figures(5);
    lemma_quant_figures(6);
    lemma_quant_figures(8);
    lemma_quant_figures(9);
}

/// Every Unsloth dynamic variant (XL, L, M or S) of a hierarchy level has
/// that level's figures in all four tables.
pub proof fn lemma_dynamic_quant_matches_level(k: int, s: int)
    requires
        0 <= k < 6,
        0 <= s < 4,
    ensures
        quant_bpp_of(dynamic_quant_name(k, s)) == quant_bpp_of(k_quant_level(k)),
        quant_speed_multiplier_of(dynamic_quant_name(k, s)) == quant_speed_multiplier_of(
            k_quant_level(k),
        ),
        quant_bytes_per_param_of(dynamic_quant_name(k, s)) == quant_bytes_per_param_of(
            k_quant_level(k),
        ),
        quant_quality_penalty_of(dynamic_quant_name(k, s)) == quant_quality_penalty_of(
            k_quant_level(k),
        ),
{
    lemma_quant_figures(3);
    lemma_quant_figures(4);
    lemma_quant_figures(5);
    lemma_quant_figures(6);
    lemma_quant_figures(8);
    lemma_quant_figures(9);
    lemma_quant_figures(30);
    lemma_quant_figures(31);
    lemma_quant_figures(32);
    lemma_quant_figures(33);
    lemma_quant_figures(26);
    lemma_quant_figures(27);
    lemma_quant_figures(28);
    lemma_quant_figures(29);
    lemma_quant_figures(22);
    lemma_quant_figures(23);
    lemma_quant_figures(24);
    lemma_quant_figures(25);
    lemma_quant_figures(18);
    lemma_quant_figures(19);
    lemma_quant_figures(20);
    lemma_quant_figures(21);
    lemma_quant_figures(14);
    lemma_quant_figures(15);
    lemma_quant_figures(16);
    lemma_quant_figures(17);
    lemma_quant_figures(10);
    lemma_quant_figures(11);
    lemma_quant_figures(12);
    lemma_quant_figures(13);
}

/// `Q4_0` is treated as `Q4_K_M`, and `BF16` as `F16`, in all four tables.
pub proof fn lemma_quant_aliases()
    ensures
        quant_bpp_of("Q4_0"@) == quant_bpp_of("Q4_K_M"@),
        quant_speed_multiplier_of("Q4_0"@) == quant_speed_multiplier_of("Q4_K_M"@),
        quant_bytes_per_param_of("Q4_0"@) == quant_bytes_per_param_of("Q4_K_M"@),
        quant_quality_penalty_of("Q4_0"@) == quant_quality_penalty_of("Q4_K_M"@),
        quant_bpp_of("BF16"@) == quant_bpp_of("F16"@),
        quant_speed_multiplier_of("BF16"@) == quant_speed_multiplier_of("F16"@),
        quant_bytes_per_param_of("BF16"@) == quant_bytes_per_param_of("F16"@),
        quant_quality_penalty_of("BF16"@) == quant_quality_penalty_of("F16"@),
{
    lemma_quant_figures(7);
    lemma_quant_figures(6);
    lemma_quant_figures(2);
    lemma_quant_figures(1);
}

/// For the MLX, AWQ, GPTQ and AutoRound formats the 4-bit variant is
/// smaller on disk, faster and pays a larger quality penalty than the 8-bit
/// one; it is also smaller in memory, except for AutoRound, which the memory
/// table does not list.
pub proof fn lemma_four_bit_below_eight_bit()
    ensures
        quant_bpp_of("mlx-4bit"@) < quant_bpp_of("mlx-8bit"@),
        quant_speed_multiplier_of("mlx-4bit"@) > quant_speed_multiplier_of("mlx-8bit"@),
        quant_bytes_per_param_of("mlx-4bit"@) < quant_bytes_per_param_of("mlx-8bit"@),
        quant_quality_penalty_of("mlx-4bit"@) < quant_quality_penalty_of("mlx-8bit"@),
        quant_bpp_of("AWQ-4bit"@) < quant_bpp_of("AWQ-8bit"@),
        quant_speed_multiplier_of("AWQ-4bit"@) > quant_speed_multiplier_of("AWQ-8bit"@),
        quant_bytes_per_param_of("AWQ-4bit"@) < quant_bytes_per_param_of("AWQ-8bit"@),
        quant_quality_penalty_of("AWQ-4bit"@) < quant_quality_penalty_of("AWQ-8bit"@),
        quant_bpp_of("GPTQ-Int4"@) < quant_bpp_of("GPTQ-Int8"@),
        quant_speed_multiplier_of("GPTQ-Int4"@) > quant_speed_multiplier_of("GPTQ-Int8"@),
        quant_bytes_per_param_of("GPTQ-Int4"@) < quant_bytes_per_param_of("GPTQ-Int8"@),
        quant_quality_penalty_of("GPTQ-Int4"@) < quant_quality_penalty_of("GPTQ-Int8"@),
        quant_speed_multiplier_of("AutoRound-4bit"@) > quant_speed_multiplier_of("AutoRound-8bit"@),
        quant_bytes_per_param_of("AutoRound-4bit"@) < quant_bytes_per_param_of("AutoRound-8bit"@),
        quant_quality_penalty_of("AutoRound-4bit"@) < quant_quality_penalty_of("AutoRound-8bit"@),
{
    lemma_quant_figures(34);
    lemma_quant_figures(35);
    lemma_quant_figures(36);
    lemma_quant_figures(37);
    lemma_quant_figures(38);
    lemma_quant_figures(39);
    lemma_quant_figures(40);
    lemma_quant_figures(41);
}

/// Full precision: `F32` takes twice the memory of `F16`, `F16` twice the
/// disk space of `Q8_0`, and neither `F16` nor `Q8_0` pays a quality
/// penalty.
pub proof fn lemma_full_precision_figures()
    ensures
        quant_bpp_of("F32"@) == 2 * quant_bpp_of("F16"@),
        quant_bytes_per_param_of("F16"@) == 2 * quant_bytes_per_param_of("Q8_0"@),
        quant_quality_penalty_of("F16"@) == 0,
        quant_quality_penalty_of("Q8_0"@) == 0,
{
    lemma_quant_figures(0);
    lemma_quant_figures(1);
    lemma_quant_figures(3);
}

/// A quantization name no table lists is treated as `Q4_K_M` for memory,
/// disk size and quality, and runs at the neutral speed multiplier 1.00.
pub proof fn lemma_unlisted_quant_defaults(q: Seq<char>)
    requires
        forall|i: int| 0 <= i < quant_row_count() ==> q != #[trigger] quant_row(i).0,
    ensures
        quant_bpp_of(q) == quant_bpp_of("Q4_K_M"@),
        quant_speed_multiplier_of(q) == 100,
        quant_bytes_per_param_of(q) == quant_bytes_per_param_of("Q4_K_M"@),
        quant_quality_penalty_of(q) == quant_quality_penalty_of("Q4_K_M"@),
{
    lemma_quant_figures(6);
    assert(q != quant_row(0).0);
    assert(q != quant_row(1).0);
    assert(q != quant_row(2).0);
    assert(q != quant_row(3).0);
    assert(q != quant_row(4).0);
    assert(q != quant_row(5).0);
    assert(q != quant_row(6).0);
    assert(q != quant_row(7).0);
    assert(q != quant_row(8).0);
    assert(q != quant_row(9).0);
    assert(q != quant_row(10).0);
    assert(q != quant_row(11).0);
    assert(q != quant_row(12).0);
    assert(q != quant_row(13).0);
    assert(q != quant_row(14).0);
    assert(q != quant_row(15).0);
    assert(q != quant_row(16).0);
    assert(q != quant_row(17).0);
    assert(q != quant_row(18).0);
    assert(q != quant_row(19).0);
    assert(q != quant_row(20).0);
    assert(q != quant_row(21).0);
    assert(q != quant_row(22).0);
    assert(q != quant_row(23).0);
    assert(q != quant_row(24).0);
    assert(q != quant_row(25).0);
    assert(q != quant_row(26).0);
    assert(q != quant_row(27).0);
    assert(q != quant_row(28).0);
    assert(q != quant_row(29).0);
    assert(q != quant_row(30).0);
    assert(q != quant_row(31).0);
    assert(q != quant_row(32).0);
    assert(q != quant_row(33).0);
    assert(q != quant_row(34).0);
    assert(q != quant_row(35).0);
    assert(q != quant_row(36).0);
    assert(q != quant_row(37).0);
    assert(q != quant_row(38).0);
    assert(q != quant_row(39).0);
    assert(q != quant_row(40).0);
    assert(q != quant_row(41).0);
}
/// The GGUF K-quants and their Unsloth dynamic variants run on any GPU:
/// no compute capability is required for them.
pub proof fn lemma_gguf_quants_need_no_capability(k: int, s: int)
    requires
        0 <= k < 6,
        0 <= s < 4,
    ensures
        min_capability_of(k_quant_level(k)) == None::<(u8, u8)>,
        min_capability_of(dynamic_quant_name(k, s)) == None::<(u8, u8)>,
{
    reveal_strlit("Q8_0");
    reveal_strlit("Q6_K");
    reveal_strlit("Q5_K_M");
    reveal_strlit("Q4_K_M");
    reveal_strlit("Q3_K_M");
    reveal_strlit("Q2_K");
    reveal_strlit("UD-Q2_K_XL");
    reveal_strlit("UD-Q2_K_L");
    reveal_strlit("UD-Q2_K_M");
    reveal_strlit("UD-Q2_K_S");
    reveal_strlit("UD-Q3_K_XL");
    reveal_strlit("UD-Q3_K_L");
    reveal_strlit("UD-Q3_K_M");
    reveal_strlit("UD-Q3_K_S");
    reveal_strlit("UD-Q4_K_XL");
    reveal_strlit("UD-Q4_K_L");
    reveal_strlit("UD-Q4_K_M");
    reveal_strlit("UD-Q4_K_S");
    reveal_strlit("UD-Q5_K_XL");
    reveal_strlit("UD-Q5_K_L");
    reveal_strlit("UD-Q5_K_M");
    reveal_strlit("UD-Q5_K_S");
    reveal_strlit("UD-Q6_K_XL");
    reveal_strlit("UD-Q6_K_L");
    reveal_strlit("UD-Q6_K_M");
    reveal_strlit("UD-Q6_K_S");
    reveal_strlit("UD-Q8_K_XL");
    reveal_strlit("UD-Q8_K_L");
    reveal_strlit("UD-Q8_K_M");
    reveal_strlit("UD-Q8_K_S");
    reveal_strlit("AWQ-4bit");
    reveal_strlit("AWQ-8bit");
    reveal_strlit("GPTQ-Int4");
    reveal_strlit("GPTQ-Int8");
    assert("Q8_0"@.len() == 4);
    assert("Q6_K"@.len() == 4);
    assert("Q5_K_M"@.len() == 6);
    assert("Q4_K_M"@.len() == 6);
    assert("Q3_K_M"@.len() == 6);
    assert("Q2_K"@.len() == 4);
    assert("UD-Q2_K_XL"@.len() == 10);
    assert("UD-Q2_K_L"@.len() == 9);
    assert("UD-Q2_K_M"@.len() == 9);
    assert("UD-Q2_K_S"@.len() == 9);
    assert("UD-Q3_K_XL"@.len() == 10);
    assert("UD-Q3_K_L"@.len() == 9);
    assert("UD-Q3_K_M"@.len() == 9);
    assert("UD-Q3_K_S"@.len() == 9);
    assert("UD-Q4_K_XL"@.len() == 10);
    assert("UD-Q4_K_L"@.len() == 9);
    assert("UD-Q4_K_M"@.len() == 9);
    assert("UD-Q4_K_S"@.len() == 9);
    assert("UD-Q5_K_XL"@.len() == 10);
    assert("UD-Q5_K_L"@.len() == 9);
    assert("UD-Q5_K_M"@.len() == 9);
    assert("UD-Q5_K_S"@.len() == 9);
    assert("UD-Q6_K_XL"@.len() == 10);
    assert("UD-Q6_K_L"@.len() == 9);
    assert("UD-Q6_K_M"@.len() == 9);
    assert("UD-Q6_K_S"@.len() == 9);
    assert("UD-Q8_K_XL"@.len() == 10);
    assert("UD-Q8_K_L"@.len() == 9);
    assert("UD-Q8_K_M"@.len() == 9);
    assert("UD-Q8_K_S"@.len() == 9);
    assert("AWQ-4bit"@.len() == 8);
    assert("AWQ-8bit"@.len() == 8);
    assert("GPTQ-Int4"@.len() == 9);
    assert("GPTQ-Int8"@.len() == 9);
    assert("UD-Q2_K_L"@[0] != "GPTQ-Int4"@[0]);
    assert("UD-Q2_K_L"@[0] != "GPTQ-Int8"@[0]);
    assert("UD-Q2_K_M"@[0] != "GPTQ-Int4"@[0]);
    assert("UD-Q2_K_M"@[0] != "GPTQ-Int8"@[0]);
    assert("UD-Q2_K_S"@[0] != "GPTQ-Int4"@[0]);
    assert("UD-Q2_K_S"@[0] != "GPTQ-Int8"@[0]);
    assert("UD-Q3_K_L"@[0] != "GPTQ-Int4"@[0]);
    assert("UD-Q3_K_L"@[0] != "GPTQ-Int8"@[0]);
    assert("UD-Q3_K_M"@[0] != "GPTQ-Int4"@[0]);
    assert("UD-Q3_K_M"@[0] != "GPTQ-Int8"@[0]);
    assert("UD-Q3_K_S"@[0] != "GPTQ-Int4"@[0]);
    assert("UD-Q3_K_S"@[0] != "GPTQ-Int8"@[0]);
    assert("UD-Q4_K_L"@[0] != "GPTQ-Int4"@[0]);
    assert("UD-Q4_K_L"@[0] != "GPTQ-Int8"@[0]);
    assert("UD-Q4_K_M"@[0] != "GPTQ-Int4"@[0]);
    assert("UD-Q4_K_M"@[0] != "GPTQ-Int8"@[0]);
    assert("UD-Q4_K_S"@[0] != "GPTQ-Int4"@[0]);
    assert("UD-Q4_K_S"@[0] != "GPTQ-Int8"@[0]);
    assert("UD-Q5_K_L"@[0] != "GPTQ-Int4"@[0]);
    assert("UD-Q5_K_L"@[0] != "GPTQ-Int8"@[0]);
    assert("UD-Q5_K_M"@[0] != "GPTQ-Int4"@[0]);
    assert("UD-Q5_K_M"@[0] != "GPTQ-Int8"@[0]);
    assert("UD-Q5_K_S"@[0] != "GPTQ-Int4"@[0]);
    assert("UD-Q5_K_S"@[0] != "GPTQ-Int8"@[0]);
    assert("UD-Q6_K_L"@[0] != "GPTQ-Int4"@[0]);
    assert("UD-Q6_K_L"@[0] != "GPTQ-Int8"@[0]);
    assert("UD-Q6_K_M"@[0] != "GPTQ-Int4"@[0]);
    assert("UD-Q6_K_M"@[0] != "GPTQ-Int8"@[0]);
    assert("UD-Q6_K_S"@[0] != "GPTQ-Int4"@[0]);
    assert("UD-Q6_K_S"@[0] != "GPTQ-Int8"@[0]);
    assert("UD-Q8_K_L"@[0] != "GPTQ-Int4"@[0]);
    assert("UD-Q8_K_L"@[0] != "GPTQ-Int8"@[0]);
    assert("UD-Q8_K_M"@[0] != "GPTQ-Int4"@[0]);
    assert("UD-Q8_K_M"@[0] != "GPTQ-Int8"@[0]);
    assert("UD-Q8_K_S"@[0] != "GPTQ-Int4"@[0]);
    assert("UD-Q8_K_S"@[0] != "GPTQ-Int8"@[0]);
}

} // verus!
