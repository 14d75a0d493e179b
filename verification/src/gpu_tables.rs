//! The name-based GPU lookups as ordered lists of models, and the laws that
//! tie each lookup to its list: the first listed model whose marker a
//! lower-cased name mentions decides the answer.
use vstd::prelude::*;
use crate::hardware::{bandwidth_of, compute_capability_of, min_capability_of, vram_estimate_of};
use crate::text::has_substring;

verus! {

/// The NVIDIA models whose compute capability is known, in the order the
/// lookup tries them (newest architecture first): the marker a lower-cased
/// name must contain, and the capability (major, minor).
pub open spec fn capability_model(i: int) -> (Seq<char>, (u8, u8)) {
    if i == 0 {
        ("5090"@, (10u8, 0u8))
    } else if i == 1 {
        ("5080"@, (10u8, 0u8))
    } else if i == 2 {
        ("5070"@, (10u8, 0u8))
    } else if i == 3 {
        ("5060"@, (10u8, 0u8))
    } else if i == 4 {
        ("b200"@, (10u8, 0u8))
    } else if i == 5 {
        ("b100"@, (10u8, 0u8))
    } else if i == 6 {
        ("gb200"@, (10u8, 0u8))
    } else if i == 7 {
        ("gb100"@, (10u8, 0u8))
    } else if i == 8 {
        ("h100"@, (9u8, 0u8))
    } else if i == 9 {
        ("h200"@, (9u8, 0u8))
    } else if i == 10 {
        ("4090"@, (8u8, 9u8))
    } else if i == 11 {
        ("4080"@, (8u8, 9u8))
    } else if i == 12 {
        ("4070"@, (8u8, 9u8))
    } else if i == 13 {
        ("4060"@, (8u8, 9u8))
    } else if i == 14 {
        ("l40"@, (8u8, 9u8))
    } else if i == 15 {
        ("l4"@, (8u8, 9u8))
    } else if i == 16 {
        ("a100"@, (8u8, 0u8))
    } else if i == 17 {
        ("3090"@, (8u8, 6u8))
    } else if i == 18 {
        ("3080"@, (8u8, 6u8))
    } else if i == 19 {
        ("3070"@, (8u8, 6u8))
    } else if i == 20 {
        ("3060"@, (8u8, 6u8))
    } else if i == 21 {
        ("a10"@, (8u8, 6u8))
    } else if i == 22 {
        ("a6000"@, (8u8, 6u8))
    } else if i == 23 {
        ("a5000"@, (8u8, 6u8))
    } else if i == 24 {
        ("a4000"@, (8u8, 6u8))
    } else if i == 25 {
        ("a2000"@, (8u8, 6u8))
    } else if i == 26 {
        ("a16"@, (8u8, 6u8))
    } else if i == 27 {
        ("2080"@, (7u8, 5u8))
    } else if i == 28 {
        ("2070"@, (7u8, 5u8))
    } else if i == 29 {
        ("2060"@, (7u8, 5u8))
    } else if i == 30 {
        ("1660"@, (7u8, 5u8))
    } else if i == 31 {
        ("1650"@, (7u8, 5u8))
    } else if i == 32 {
        ("t4"@, (7u8, 5u8))
    } else if i == 33 {
        ("v100"@, (7u8, 0u8))
    } else if i == 34 {
        ("titan v"@, (7u8, 0u8))
    } else if i == 35 {
        ("p100"@, (6u8, 1u8))
    } else if i == 36 {
        ("1080"@, (6u8, 1u8))
    } else if i == 37 {
        ("1070"@, (6u8, 1u8))
    } else if i == 38 {
        ("1060"@, (6u8, 1u8))
    } else if i == 39 {
        ("1050"@, (6u8, 1u8))
    } else if i == 40 {
        ("p40"@, (6u8, 1u8))
    } else if i == 41 {
        ("p4"@, (6u8, 1u8))
    } else {
        (Seq::empty(), (0u8, 0u8))
    }
}

/// How many models the compute capability list holds.
pub open spec fn capability_model_count() -> int {
    42
}

/// The compute capability of the first model, from position `k` on, whose marker `l`
/// mentions.
pub open spec fn first_capability_from(l: Seq<char>, k: int) -> Option<(u8, u8)>
    decreases capability_model_count() - k,
{
    if k < 0 || k >= capability_model_count() {
        None
    } else if has_substring(l, capability_model(k).0) {
        Some(capability_model(k).1)
    } else {
        first_capability_from(l, k + 1)
    }
}

/// Reading the list from `k` finds model `i` when it is mentioned and no
/// model between `k` and `i` is.
proof fn lemma_first_capability_from(l: Seq<char>, k: int, i: int)
    requires
        0 <= k <= i < capability_model_count(),
        has_substring(l, capability_model(i).0),
        forall|j: int| k <= j < i ==> !has_substring(l, #[trigger] capability_model(j).0),
    ensures
        first_capability_from(l, k) == Some(capability_model(i).1),
    decreases i - k,
{
    if k < i {
        lemma_first_capability_from(l, k + 1, i);
    }
}

/// Reading the list from `k` finds nothing when no model from `k` on is
/// mentioned.
proof fn lemma_first_capability_none(l: Seq<char>, k: int)
    requires
        0 <= k <= capability_model_count(),
        forall|j: int|
            k <= j < capability_model_count() ==> !has_substring(l, #[trigger] capability_model(j).0),
    ensures
        first_capability_from(l, k) == None::<(u8, u8)>,
    decreases capability_model_count() - k,
{
    if k < capability_model_count() {
        lemma_first_capability_none(l, k + 1);
    }
}

/// Reading the list from `k` finds something when some model from `k` on
/// is mentioned.
proof fn lemma_first_capability_some(l: Seq<char>, k: int, i: int)
    requires
        0 <= k <= i < capability_model_count(),
        has_substring(l, capability_model(i).0),
    ensures
        first_capability_from(l, k) is Some,
    decreases i - k,
{
    if k < i && !has_substring(l, capability_model(k).0) {
        lemma_first_capability_some(l, k + 1, i);
    }
}


/// The capability lookup is the list read in order.
proof fn lemma_capability_is_first_listed(l: Seq<char>)
    ensures
        compute_capability_of(l) == first_capability_from(l, 0),
{
    reveal_with_fuel(first_capability_from, 44);
}

/// A lower-cased GPU name that mentions a listed model, and no model listed
/// before it, has that model's compute capability.
pub proof fn lemma_capability_of_listed_model(l: Seq<char>, i: int)
    requires
        0 <= i < capability_model_count(),
        has_substring(l, capability_model(i).0),
        forall|j: int| 0 <= j < i ==> !has_substring(l, #[trigger] capability_model(j).0),
    ensures
        compute_capability_of(l) == Some(capability_model(i).1),
{
    lemma_capability_is_first_listed(l);
    lemma_first_capability_from(l, 0, i);
}

/// A name that mentions no listed model has no known compute capability.
pub proof fn lemma_capability_of_unlisted(l: Seq<char>)
    requires
        forall|j: int|
            0 <= j < capability_model_count() ==> !has_substring(l, #[trigger] capability_model(j).0),
    ensures
        compute_capability_of(l) == None::<(u8, u8)>,
{
    lemma_capability_is_first_listed(l);
    lemma_first_capability_none(l, 0);
}

/// Every GeForce RTX 30-series card (a name with 3090, 3080, 3070 or 3060
/// and no marker of a newer architecture, that is of a model listed before
/// them) is Ampere: compute capability 8.6.
pub proof fn lemma_rtx_30_series_capability(l: Seq<char>)
    requires
        has_substring(l, "3090"@) || has_substring(l, "3080"@) || has_substring(l, "3070"@)
            || has_substring(l, "3060"@),
        forall|j: int| 0 <= j < 17 ==> !has_substring(l, #[trigger] capability_model(j).0),
    ensures
        compute_capability_of(l) == Some((8u8, 6u8)),
{
    let k: int = if has_substring(l, "3090"@) {
        17
    } else if has_substring(l, "3080"@) {
        18
    } else if has_substring(l, "3070"@) {
        19
    } else {
        20
    };
    assert forall|j: int| 0 <= j < k implies !has_substring(l, #[trigger] capability_model(j).0) by {
        if j >= 17 {
            assert(capability_model(17).0 == "3090"@);
            assert(capability_model(18).0 == "3080"@);
            assert(capability_model(19).0 == "3070"@);
        }
    }
    lemma_capability_of_listed_model(l, k);
}

/// Capability `c` meets requirement `m`: there is none, or `c` is at least
/// `m` (major first, then minor).
pub open spec fn capability_meets(c: (u8, u8), m: Option<(u8, u8)>) -> bool {
    match m {
        None => true,
        Some(r) => c.0 > r.0 || (c.0 == r.0 && c.1 >= r.1),
    }
}

/// A GPU of Turing (7.5) or a newer architecture meets the requirement of
/// every quantization format.
pub proof fn lemma_turing_and_newer_run_every_format(l: Seq<char>, q: Seq<char>)
    requires
        compute_capability_of(l) is Some,
        compute_capability_of(l).unwrap().0 > 7 || (compute_capability_of(l).unwrap().0 == 7
            && compute_capability_of(l).unwrap().1 >= 5),
    ensures
        capability_meets(compute_capability_of(l).unwrap(), min_capability_of(q)),
{
}

/// A GPU older than Turing (Pascal 6.1 or Volta 7.0) cannot run AWQ or GPTQ
/// quantizations, while every listed GPU meets the needs of the other
/// formats.
pub proof fn lemma_pre_turing_cannot_run_awq_or_gptq(l: Seq<char>, q: Seq<char>)
    requires
        compute_capability_of(l) is Some,
        compute_capability_of(l).unwrap().0 < 7 || (compute_capability_of(l).unwrap().0 == 7
            && compute_capability_of(l).unwrap().1 < 5),
    ensures
        q == "AWQ-4bit"@ || q == "AWQ-8bit"@ || q == "GPTQ-Int4"@ || q == "GPTQ-Int8"@
            ==> !capability_meets(compute_capability_of(l).unwrap(), min_capability_of(q)),
        !(q == "AWQ-4bit"@ || q == "AWQ-8bit"@ || q == "GPTQ-Int4"@ || q == "GPTQ-Int8"@)
            ==> capability_meets(compute_capability_of(l).unwrap(), min_capability_of(q)),
{
}

/// The models whose memory bandwidth is known, in the order the lookup tries
/// them (a more specific marker before any marker it contains): the marker a
/// lower-cased name must contain, and the bandwidth in tenths of GB/s.
pub open spec fn bandwidth_model(i: int) -> (Seq<char>, u32) {
    if i == 0 {
        ("5090"@, 17920u32)
    } else if i == 1 {
        ("5080"@, 9600u32)
    } else if i == 2 {
        ("5070 ti"@, 8960u32)
    } else if i == 3 {
        ("5070"@, 6720u32)
    } else if i == 4 {
        ("5060 ti"@, 4480u32)
    } else if i == 5 {
        ("5060"@, 2560u32)
    } else if i == 6 {
        ("4090"@, 10080u32)
    } else if i == 7 {
        ("4080 super"@, 7360u32)
    } else if i == 8 {
        ("4080"@, 7170u32)
    } else if i == 9 {
        ("4070 ti super"@, 6720u32)
    } else if i == 10 {
        ("4070 ti"@, 5040u32)
    } else if i == 11 {
        ("4070 super"@, 5040u32)
    } else if i == 12 {
        ("4070"@, 5040u32)
    } else if i == 13 {
        ("4060 ti"@, 2880u32)
    } else if i == 14 {
        ("4060"@, 2720u32)
    } else if i == 15 {
        ("3090 ti"@, 10080u32)
    } else if i == 16 {
        ("3090"@, 9360u32)
    } else if i == 17 {
        ("3080 ti"@, 9120u32)
    } else if i == 18 {
        ("3080"@, 7600u32)
    } else if i == 19 {
        ("3070 ti"@, 6080u32)
    } else if i == 20 {
        ("3070"@, 4480u32)
    } else if i == 21 {
        ("3060 ti"@, 4480u32)
    } else if i == 22 {
        ("3060"@, 3600u32)
    } else if i == 23 {
        ("2080 ti"@, 6160u32)
    } else if i == 24 {
        ("2080 super"@, 4960u32)
    } else if i == 25 {
        ("2080"@, 4480u32)
    } else if i == 26 {
        ("2070 super"@, 4480u32)
    } else if i == 27 {
        ("2070"@, 4480u32)
    } else if i == 28 {
        ("2060 super"@, 4480u32)
    } else if i == 29 {
        ("2060"@, 3360u32)
    } else if i == 30 {
        ("1660 ti"@, 2880u32)
    } else if i == 31 {
        ("1660 super"@, 3360u32)
    } else if i == 32 {
        ("1660"@, 1920u32)
    } else if i == 33 {
        ("1650 super"@, 1920u32)
    } else if i == 34 {
        ("1650"@, 1280u32)
    } else if i == 35 {
        ("h100 sxm"@, 33500u32)
    } else if i == 36 {
        ("h100"@, 20390u32)
    } else if i == 37 {
        ("h200"@, 48000u32)
    } else if i == 38 {
        ("a100 sxm"@, 20390u32)
    } else if i == 39 {
        ("a100"@, 15550u32)
    } else if i == 40 {
        ("l40s"@, 8640u32)
    } else if i == 41 {
        ("l40"@, 8640u32)
    } else if i == 42 {
        ("l4"@, 3000u32)
    } else if i == 43 {
        ("a10g"@, 6000u32)
    } else if i == 44 {
        ("a10"@, 6000u32)
    } else if i == 45 {
        ("t4"@, 3200u32)
    } else if i == 46 {
        ("v100 sxm"@, 9000u32)
    } else if i == 47 {
        ("v100"@, 8970u32)
    } else if i == 48 {
        ("a6000"@, 7680u32)
    } else if i == 49 {
        ("a5000"@, 7680u32)
    } else if i == 50 {
        ("a4000"@, 4480u32)
    } else if i == 51 {
        ("9070 xt"@, 6240u32)
    } else if i == 52 {
        ("9070"@, 4880u32)
    } else if i == 53 {
        ("7900 xtx"@, 9600u32)
    } else if i == 54 {
        ("7900 xt"@, 8000u32)
    } else if i == 55 {
        ("7900 gre"@, 5760u32)
    } else if i == 56 {
        ("7800 xt"@, 6240u32)
    } else if i == 57 {
        ("7700 xt"@, 4320u32)
    } else if i == 58 {
        ("7600"@, 2880u32)
    } else if i == 59 {
        ("6950 xt"@, 5760u32)
    } else if i == 60 {
        ("6900 xt"@, 5120u32)
    } else if i == 61 {
        ("6800 xt"@, 5120u32)
    } else if i == 62 {
        ("6800"@, 5120u32)
    } else if i == 63 {
        ("6700 xt"@, 3840u32)
    } else if i == 64 {
        ("6600 xt"@, 2560u32)
    } else if i == 65 {
        ("6600"@, 2240u32)
    } else if i == 66 {
        ("mi300x"@, 53000u32)
    } else if i == 67 {
        ("mi300"@, 53000u32)
    } else if i == 68 {
        ("mi250x"@, 32770u32)
    } else if i == 69 {
        ("mi250"@, 32770u32)
    } else if i == 70 {
        ("mi210"@, 16380u32)
    } else if i == 71 {
        ("mi100"@, 12290u32)
    } else if i == 72 {
        ("m5 max"@, 6140u32)
    } else if i == 73 {
        ("m5 pro"@, 3070u32)
    } else if i == 74 {
        ("m5"@, 1536u32)
    } else if i == 75 {
        ("m4 ultra"@, 8190u32)
    } else if i == 76 {
        ("m4 max"@, 5460u32)
    } else if i == 77 {
        ("m4 pro"@, 2730u32)
    } else if i == 78 {
        ("m4"@, 1200u32)
    } else if i == 79 {
        ("m3 ultra"@, 8000u32)
    } else if i == 80 {
        ("m3 max"@, 4000u32)
    } else if i == 81 {
        ("m3 pro"@, 1500u32)
    } else if i == 82 {
        ("m3"@, 1000u32)
    } else if i == 83 {
        ("m2 ultra"@, 8000u32)
    } else if i == 84 {
        ("m2 max"@, 4000u32)
    } else if i == 85 {
        ("m2 pro"@, 2000u32)
    } else if i == 86 {
        ("m2"@, 1000u32)
    } else if i == 87 {
        ("m1 ultra"@, 8000u32)
    } else if i == 88 {
        ("m1 max"@, 4000u32)
    } else if i == 89 {
        ("m1 pro"@, 2000u32)
    } else if i == 90 {
        ("m1"@, 680u32)
    } else {
        (Seq::empty(), 0u32)
    }
}

/// How many models the bandwidth list holds.
pub open spec fn bandwidth_model_count() -> int {
    91
}

/// The bandwidth of the first model, from position `k` on, whose marker `l`
/// mentions.
pub open spec fn first_bandwidth_from(l: Seq<char>, k: int) -> Option<u32>
    decreases bandwidth_model_count() - k,
{
    if k < 0 || k >= bandwidth_model_count() {
        None
    } else if has_substring(l, bandwidth_model(k).0) {
        Some(bandwidth_model(k).1)
    } else {
        first_bandwidth_from(l, k + 1)
    }
}

/// Reading the list from `k` finds model `i` when it is mentioned and no
/// model between `k` and `i` is.
proof fn lemma_first_bandwidth_from(l: Seq<char>, k: int, i: int)
    requires
        0 <= k <= i < bandwidth_model_count(),
        has_substring(l, bandwidth_model(i).0),
        forall|j: int| k <= j < i ==> !has_substring(l, #[trigger] bandwidth_model(j).0),
    ensures
        first_bandwidth_from(l, k) == Some(bandwidth_model(i).1),
    decreases i - k,
{
    if k < i {
        lemma_first_bandwidth_from(l, k + 1, i);
    }
}

/// Reading the list from `k` finds nothing when no model from `k` on is
/// mentioned.
proof fn lemma_first_bandwidth_none(l: Seq<char>, k: int)
    requires
        0 <= k <= bandwidth_model_count(),
        forall|j: int|
            k <= j < bandwidth_model_count() ==> !has_substring(l, #[trigger] bandwidth_model(j).0),
    ensures
        first_bandwidth_from(l, k) == None::<u32>,
    decreases bandwidth_model_count() - k,
{
    if k < bandwidth_model_count() {
        lemma_first_bandwidth_none(l, k + 1);
    }
}

/// Reading the list from `k` finds something when some model from `k` on
/// is mentioned.
proof fn lemma_first_bandwidth_some(l: Seq<char>, k: int, i: int)
    requires
        0 <= k <= i < bandwidth_model_count(),
        has_substring(l, bandwidth_model(i).0),
    ensures
        first_bandwidth_from(l, k) is Some,
    decreases i - k,
{
    if k < i && !has_substring(l, bandwidth_model(k).0) {
        lemma_first_bandwidth_some(l, k + 1, i);
    }
}


/// The bandwidth lookup is the list read in order.
proof fn lemma_bandwidth_is_first_listed(l: Seq<char>)
    ensures
        bandwidth_of(l) == first_bandwidth_from(l, 0),
{
    reveal_with_fuel(first_bandwidth_from, 93);
}

/// A lower-cased GPU name that mentions a listed model, and no model listed
/// before it, gets that model's bandwidth (so "rtx 3080" gives 760 GB/s,
/// while "rtx 3080 ti", listed first, gives its own figure).
pub proof fn lemma_bandwidth_of_listed_model(l: Seq<char>, i: int)
    requires
        0 <= i < bandwidth_model_count(),
        has_substring(l, bandwidth_model(i).0),
        forall|j: int| 0 <= j < i ==> !has_substring(l, #[trigger] bandwidth_model(j).0),
    ensures
        bandwidth_of(l) == Some(bandwidth_model(i).1),
{
    lemma_bandwidth_is_first_listed(l);
    lemma_first_bandwidth_from(l, 0, i);
}

/// A name that mentions no listed model has no known bandwidth.
pub proof fn lemma_bandwidth_of_unlisted(l: Seq<char>)
    requires
        forall|j: int|
            0 <= j < bandwidth_model_count() ==> !has_substring(l, #[trigger] bandwidth_model(j).0),
    ensures
        bandwidth_of(l) == None::<u32>,
{
    lemma_bandwidth_is_first_listed(l);
    lemma_first_bandwidth_none(l, 0);
}

/// Every GeForce model number of the RTX 50, 40, 30 and 20 series and the
/// GTX 16 series is recognised: such a name always has a bandwidth.
pub proof fn lemma_geforce_bandwidth_known(l: Seq<char>)
    requires
        has_substring(l, "5090"@) || has_substring(l, "5080"@) || has_substring(l, "5070"@)
            || has_substring(l, "5060"@) || has_substring(l, "4090"@) || has_substring(l, "4080"@)
            || has_substring(l, "4070"@) || has_substring(l, "4060"@) || has_substring(l, "3090"@)
            || has_substring(l, "3080"@) || has_substring(l, "3070"@) || has_substring(l, "3060"@)
            || has_substring(l, "2080"@) || has_substring(l, "2070"@) || has_substring(l, "2060"@)
            || has_substring(l, "1660"@) || has_substring(l, "1650"@),
    ensures
        bandwidth_of(l) is Some,
{
    lemma_bandwidth_is_first_listed(l);
    let i: int = if has_substring(l, "5090"@) {
        0
    } else if has_substring(l, "5080"@) {
        1
    } else if has_substring(l, "5070"@) {
        3
    } else if has_substring(l, "5060"@) {
        5
    } else if has_substring(l, "4090"@) {
        6
    } else if has_substring(l, "4080"@) {
        8
    } else if has_substring(l, "4070"@) {
        12
    } else if has_substring(l, "4060"@) {
        14
    } else if has_substring(l, "3090"@) {
        16
    } else if has_substring(l, "3080"@) {
        18
    } else if has_substring(l, "3070"@) {
        20
    } else if has_substring(l, "3060"@) {
        22
    } else if has_substring(l, "2080"@) {
        25
    } else if has_substring(l, "2070"@) {
        27
    } else if has_substring(l, "2060"@) {
        29
    } else if has_substring(l, "1660"@) {
        32
    } else {
        34
    };
    lemma_first_bandwidth_some(l, 0, i);
}

/// The models whose VRAM is known, in the order the estimate tries them (a
/// more specific marker before any marker it contains): the marker a
/// lower-cased name must contain, and the VRAM in MiB.
pub open spec fn vram_model(i: int) -> (Seq<char>, u32) {
    if i == 0 {
        ("5090"@, 32768u32)
    } else if i == 1 {
        ("5080"@, 16384u32)
    } else if i == 2 {
        ("5070 ti"@, 16384u32)
    } else if i == 3 {
        ("5070"@, 12288u32)
    } else if i == 4 {
        ("5060 ti"@, 16384u32)
    } else if i == 5 {
        ("5060"@, 8192u32)
    } else if i == 6 {
        ("4090"@, 24576u32)
    } else if i == 7 {
        ("4080"@, 16384u32)
    } else if i == 8 {
        ("4070 ti"@, 12288u32)
    } else if i == 9 {
        ("4070"@, 12288u32)
    } else if i == 10 {
        ("4060 ti"@, 16384u32)
    } else if i == 11 {
        ("4060"@, 8192u32)
    } else if i == 12 {
        ("3090"@, 24576u32)
    } else if i == 13 {
        ("3080 ti"@, 12288u32)
    } else if i == 14 {
        ("3080"@, 10240u32)
    } else if i == 15 {
        ("3070"@, 8192u32)
    } else if i == 16 {
        ("3060 ti"@, 8192u32)
    } else if i == 17 {
        ("3060"@, 12288u32)
    } else if i == 18 {
        ("h100"@, 81920u32)
    } else if i == 19 {
        ("a100"@, 81920u32)
    } else if i == 20 {
        ("l40"@, 49152u32)
    } else if i == 21 {
        ("a6000"@, 49152u32)
    } else if i == 22 {
        ("a5500"@, 24576u32)
    } else if i == 23 {
        ("a5000"@, 24576u32)
    } else if i == 24 {
        ("a4500"@, 20480u32)
    } else if i == 25 {
        ("a4000"@, 16384u32)
    } else if i == 26 {
        ("a2000"@, 12288u32)
    } else if i == 27 {
        ("a10"@, 24576u32)
    } else if i == 28 {
        ("t4"@, 16384u32)
    } else if i == 29 {
        ("gb10"@, 131072u32)
    } else if i == 30 {
        ("2e12"@, 131072u32)
    } else if i == 31 {
        ("gb20"@, 131072u32)
    } else if i == 32 {
        ("9070 xt"@, 16384u32)
    } else if i == 33 {
        ("9070"@, 12288u32)
    } else if i == 34 {
        ("9060 xt"@, 16384u32)
    } else if i == 35 {
        ("9060"@, 8192u32)
    } else if i == 36 {
        ("7900 xtx"@, 24576u32)
    } else if i == 37 {
        ("7900"@, 20480u32)
    } else if i == 38 {
        ("7800"@, 16384u32)
    } else if i == 39 {
        ("7700"@, 12288u32)
    } else if i == 40 {
        ("7600"@, 8192u32)
    } else if i == 41 {
        ("6950"@, 16384u32)
    } else if i == 42 {
        ("6900"@, 16384u32)
    } else if i == 43 {
        ("6800"@, 16384u32)
    } else if i == 44 {
        ("6750"@, 12288u32)
    } else if i == 45 {
        ("6700"@, 12288u32)
    } else if i == 46 {
        ("6650"@, 8192u32)
    } else if i == 47 {
        ("6600"@, 8192u32)
    } else if i == 48 {
        ("6500"@, 4096u32)
    } else if i == 49 {
        ("5700 xt"@, 8192u32)
    } else if i == 50 {
        ("5700"@, 8192u32)
    } else if i == 51 {
        ("5600"@, 6144u32)
    } else if i == 52 {
        ("5500"@, 4096u32)
    } else if i == 53 {
        ("8060s"@, 32768u32)
    } else if i == 54 {
        ("8050s"@, 24576u32)
    } else if i == 55 {
        ("8060"@, 16384u32)
    } else if i == 56 {
        ("8050"@, 12288u32)
    } else if i == 57 {
        ("890m"@, 16384u32)
    } else if i == 58 {
        ("880m"@, 12288u32)
    } else if i == 59 {
        ("870m"@, 8192u32)
    } else if i == 60 {
        ("860m"@, 8192u32)
    } else {
        (Seq::empty(), 0u32)
    }
}

/// How many models the VRAM list holds.
pub open spec fn vram_model_count() -> int {
    61
}

/// The VRAM of the first model, from position `k` on, whose marker `l`
/// mentions.
pub open spec fn first_vram_from(l: Seq<char>, k: int) -> Option<u32>
    decreases vram_model_count() - k,
{
    if k < 0 || k >= vram_model_count() {
        None
    } else if has_substring(l, vram_model(k).0) {
        Some(vram_model(k).1)
    } else {
        first_vram_from(l, k + 1)
    }
}

/// Reading the list from `k` finds model `i` when it is mentioned and no
/// model between `k` and `i` is.
proof fn lemma_first_vram_from(l: Seq<char>, k: int, i: int)
    requires
        0 <= k <= i < vram_model_count(),
        has_substring(l, vram_model(i).0),
        forall|j: int| k <= j < i ==> !has_substring(l, #[trigger] vram_model(j).0),
    ensures
        first_vram_from(l, k) == Some(vram_model(i).1),
    decreases i - k,
{
    if k < i {
        lemma_first_vram_from(l, k + 1, i);
    }
}

/// Reading the list from `k` finds nothing when no model from `k` on is
/// mentioned.
proof fn lemma_first_vram_none(l: Seq<char>, k: int)
    requires
        0 <= k <= vram_model_count(),
        forall|j: int|
            k <= j < vram_model_count() ==> !has_substring(l, #[trigger] vram_model(j).0),
    ensures
        first_vram_from(l, k) == None::<u32>,
    decreases vram_model_count() - k,
{
    if k < vram_model_count() {
        lemma_first_vram_none(l, k + 1);
    }
}

/// Reading the list from `k` finds something when some model from `k` on
/// is mentioned.
proof fn lemma_first_vram_some(l: Seq<char>, k: int, i: int)
    requires
        0 <= k <= i < vram_model_count(),
        has_substring(l, vram_model(i).0),
    ensures
        first_vram_from(l, k) is Some,
    decreases i - k,
{
    if k < i && !has_substring(l, vram_model(k).0) {
        lemma_first_vram_some(l, k + 1, i);
    }
}


/// A name that reads as AMD integrated graphics: Radeon or AMD, "graphics"
/// or "igpu", and no marker of a discrete card or of a Strix Halo part.
pub open spec fn names_integrated_radeon(l: Seq<char>) -> bool {
    (has_substring(l, "radeon"@) || has_substring(l, "amd"@)) && !has_substring(l, "rx "@) && !has_substring(l, "hd "@) && !has_substring(l, " r5 "@) && !has_substring(l, " r7 "@) && !has_substring(l, " r9 "@) && !has_substring(l, "8060"@) && !has_substring(l, "8050"@) && (has_substring(l, "graphics"@) || has_substring(l, "igpu"@))
}

/// The VRAM estimate is the list read in order, then the fallbacks.
proof fn lemma_vram_is_first_listed(l: Seq<char>)
    ensures
        match first_vram_from(l, 0) {
            Some(v) => vram_estimate_of(l) == v,
            None => (names_integrated_radeon(l) ==> vram_estimate_of(l) == 512)
                && (!names_integrated_radeon(l) && has_substring(l, "rtx"@) ==> vram_estimate_of(l) == 8192)
                && (!names_integrated_radeon(l) && !has_substring(l, "rtx"@) && has_substring(l, "gtx"@)
                    ==> vram_estimate_of(l) == 4096)
                && (!names_integrated_radeon(l) && !has_substring(l, "rtx"@) && !has_substring(l, "gtx"@)
                    && (has_substring(l, "rx "@) || has_substring(l, "radeon"@)) ==> vram_estimate_of(l) == 8192)
                && (!names_integrated_radeon(l) && !has_substring(l, "rtx"@) && !has_substring(l, "gtx"@)
                    && !has_substring(l, "rx "@) && !has_substring(l, "radeon"@) ==> vram_estimate_of(l) == 0),
        },
{
    reveal_with_fuel(first_vram_from, 63);
}

/// A lower-cased GPU name that mentions a listed model, and no model listed
/// before it, is estimated at that model's VRAM (so "rtx 4080" gets 16 GB,
/// never the generic RTX figure).
pub proof fn lemma_vram_of_listed_model(l: Seq<char>, i: int)
    requires
        0 <= i < vram_model_count(),
        has_substring(l, vram_model(i).0),
        forall|j: int| 0 <= j < i ==> !has_substring(l, #[trigger] vram_model(j).0),
    ensures
        vram_estimate_of(l) == vram_model(i).1,
{
    lemma_vram_is_first_listed(l);
    lemma_first_vram_from(l, 0, i);
}

/// A name that mentions no listed model falls back by family: 0.5 GB for
/// AMD integrated graphics, 8 GB for another RTX, 4 GB for a GTX, 8 GB for
/// another Radeon, and 0 (unknown) otherwise.
pub proof fn lemma_vram_of_unlisted(l: Seq<char>)
    requires
        forall|j: int| 0 <= j < vram_model_count() ==> !has_substring(l, #[trigger] vram_model(j).0),
    ensures
        names_integrated_radeon(l) ==> vram_estimate_of(l) == 512,
        !names_integrated_radeon(l) && has_substring(l, "rtx"@) ==> vram_estimate_of(l) == 8192,
        !names_integrated_radeon(l) && !has_substring(l, "rtx"@) && has_substring(l, "gtx"@)
            ==> vram_estimate_of(l) == 4096,
        !names_integrated_radeon(l) && !has_substring(l, "rtx"@) && !has_substring(l, "gtx"@)
            && (has_substring(l, "rx "@) || has_substring(l, "radeon"@)) ==> vram_estimate_of(l) == 8192,
        !names_integrated_radeon(l) && !has_substring(l, "rtx"@) && !has_substring(l, "gtx"@)
            && !has_substring(l, "rx "@) && !has_substring(l, "radeon"@) ==> vram_estimate_of(l) == 0,
{
    lemma_vram_is_first_listed(l);
    lemma_first_vram_none(l, 0);
}


} // verus!
