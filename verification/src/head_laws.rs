//! Laws of the head counts guessed from a model's name and size: the counts
//! of each family by size bracket, that they never shrink as the model
//! grows, and that the key-value heads always divide the attention heads.
use vstd::prelude::*;
use crate::models::heads_from_name;
use crate::text::has_substring;

verus! {

/// Qwen models (any name that mentions "qwen"): 16/4 heads up to 5B,
/// 32/8 up to 10B, 40/8 up to 50B, 64/8 up to 100B, 128/16 beyond.
pub proof fn lemma_qwen_heads(l: Seq<char>, p: u64)
    requires
        has_substring(l, "qwen"@),
    ensures
        p <= 5 ==> heads_from_name(l, p) == (16u32, 4u32),
        5 < p <= 10 ==> heads_from_name(l, p) == (32u32, 8u32),
        10 < p <= 50 ==> heads_from_name(l, p) == (40u32, 8u32),
        50 < p <= 100 ==> heads_from_name(l, p) == (64u32, 8u32),
        100 < p ==> heads_from_name(l, p) == (128u32, 16u32),
{
}

/// Llama models that are not Qwen: Llama 4 Scout and Maverick have 64/8
/// heads; other Llamas 16/8 up to 5B, 32/8 up to 20B, 48/8 up to 60B,
/// 64/8 beyond.
pub proof fn lemma_llama_heads(l: Seq<char>, p: u64)
    requires
        !has_substring(l, "qwen"@),
        has_substring(l, "llama"@),
    ensures
        has_substring(l, "scout"@) || has_substring(l, "maverick"@) ==> heads_from_name(l, p) == (
            64u32,
            8u32,
        ),
        !has_substring(l, "scout"@) && !has_substring(l, "maverick"@) ==> {
            &&& p <= 5 ==> heads_from_name(l, p) == (16u32, 8u32)
            &&& 5 < p <= 20 ==> heads_from_name(l, p) == (32u32, 8u32)
            &&& 20 < p <= 60 ==> heads_from_name(l, p) == (48u32, 8u32)
            &&& 60 < p ==> heads_from_name(l, p) == (64u32, 8u32)
        },
{
}

/// DeepSeek models (not Qwen or Llama distills): 32/8 heads up to 10B,
/// 40/8 up to 50B, 64/8 up to 200B, 128/16 beyond.
pub proof fn lemma_deepseek_heads(l: Seq<char>, p: u64)
    requires
        !has_substring(l, "qwen"@),
        !has_substring(l, "llama"@),
        has_substring(l, "deepseek"@),
    ensures
        p <= 10 ==> heads_from_name(l, p) == (32u32, 8u32),
        10 < p <= 50 ==> heads_from_name(l, p) == (40u32, 8u32),
        50 < p <= 200 ==> heads_from_name(l, p) == (64u32, 8u32),
        200 < p ==> heads_from_name(l, p) == (128u32, 16u32),
{
}

/// The Mistral family, Gemma, Phi and MiniMax (names of none of the
/// families before them): Mistral and Mixtral 32/8 up to 100B and 96/8
/// beyond; Gemma 8/4 up to 5B, 16/8 up to 20B, 32/16 beyond; Phi 32/8 up
/// to 10B, 40/10 beyond; MiniMax 48/8 at any size.
pub proof fn lemma_other_family_heads(l: Seq<char>, p: u64)
    requires
        !has_substring(l, "qwen"@),
        !has_substring(l, "llama"@),
        !has_substring(l, "deepseek"@),
    ensures
        has_substring(l, "mistral"@) || has_substring(l, "mixtral"@) ==> heads_from_name(l, p) == (
            if p <= 100 {
                (32u32, 8u32)
            } else {
                (96u32, 8u32)
            }
        ),
        !has_substring(l, "mistral"@) && !has_substring(l, "mixtral"@) && has_substring(l, "gemma"@)
            ==> heads_from_name(l, p) == (if p <= 5 {
            (8u32, 4u32)
        } else if p <= 20 {
            (16u32, 8u32)
        } else {
            (32u32, 16u32)
        }),
        !has_substring(l, "mistral"@) && !has_substring(l, "mixtral"@) && !has_substring(l, "gemma"@)
            && has_substring(l, "phi"@) ==> heads_from_name(l, p) == (if p <= 10 {
            (32u32, 8u32)
        } else {
            (40u32, 10u32)
        }),
        !has_substring(l, "mistral"@) && !has_substring(l, "mixtral"@) && !has_substring(l, "gemma"@)
            && !has_substring(l, "phi"@) && has_substring(l, "minimax"@) ==> heads_from_name(l, p)
            == (48u32, 8u32),
{
}

/// A name of no known family: 16/4 heads up to 5B, 32/8 up to 50B, 64/8 up
/// to 100B, 128/16 beyond.
pub proof fn lemma_unknown_family_heads(l: Seq<char>, p: u64)
    requires
        !has_substring(l, "qwen"@),
        !has_substring(l, "llama"@),
        !has_substring(l, "deepseek"@),
        !has_substring(l, "mistral"@),
        !has_substring(l, "mixtral"@),
        !has_substring(l, "gemma"@),
        !has_substring(l, "phi"@),
        !has_substring(l, "minimax"@),
    ensures
        p <= 5 ==> heads_from_name(l, p) == (16u32, 4u32),
        5 < p <= 50 ==> heads_from_name(l, p) == (32u32, 8u32),
        50 < p <= 100 ==> heads_from_name(l, p) == (64u32, 8u32),
        100 < p ==> heads_from_name(l, p) == (128u32, 16u32),
{
}

/// For a given name, a larger model never gets fewer attention heads or
/// fewer key-value heads.
pub proof fn lemma_heads_grow_with_size(l: Seq<char>, p: u64, q: u64)
    requires
        p <= q,
    ensures
        heads_from_name(l, p).0 <= heads_from_name(l, q).0,
        heads_from_name(l, p).1 <= heads_from_name(l, q).1,
{
}

/// The guessed key-value heads are positive and divide the attention heads,
/// as grouped-query attention needs.
pub proof fn lemma_kv_heads_divide_heads(l: Seq<char>, p: u64)
    ensures
        heads_from_name(l, p).1 > 0,
        heads_from_name(l, p).0 % heads_from_name(l, p).1 == 0,
{
}

} // verus!
