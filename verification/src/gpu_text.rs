//! Reading GPU names and the text that vendor tools print: name
//! normalisation and comparison, and the parsers for `vulkaninfo`,
//! `/proc/cpuinfo`, `lspci`, `vm_stat` and `rocm-smi` output.
use vstd::prelude::*;
use crate::hardware::{estimate_vram_from_name, vram_estimate_of, GpuBackend};
use crate::text::{
    all_ascii, ascii_alphanumeric, ascii_lower, ascii_lowered, all_digits, char_is_alphanumeric, char_lowercase, chars_of, contains_str, eq_ignore_ascii_case,
    eq_ignore_ascii_case_str, first_of, has_prefix, has_substring, is_alphanumeric, is_digit,
    last_of, lemma_first_of, lemma_last_of, lines, lines_of, lower_str, lowercase_char, rfind_char,
    slice_of, split_once, split_once_char, starts_with_str, str_lowercase, string_of, trim, trimmed,
    views, find_char_from, utf8_len, utf8_len_of, find_from, find_str_from, trim_end_dots,
    trim_end_dots_of, parse_u64, parse_u64_chars, split, split_char, to_lowercase,
};

verus! {

/// The string views of a sequence of strings.
pub open spec fn string_views(v: Seq<String>) -> Seq<Seq<char>> {
    v.map_values(|s: String| s@)
}

/// The name (lower-cased) is that of an integrated GPU: Intel UHD / HD /
/// Iris (not Arc), AMD "Radeon Graphics" without a discrete series tag, or
/// one explicitly marked "(integrated)".
pub open spec fn integrated_gpu_name(l: Seq<char>) -> bool {
    if has_substring(l, "(integrated)"@) {
        true
    } else if has_substring(l, "intel"@) {
        has_substring(l, "uhd"@) || has_substring(l, "hd graphics"@) || (has_substring(
            l,
            "iris"@,
        ) && !has_substring(l, "arc"@))
    } else if has_substring(l, "radeon"@) && has_substring(l, "graphics"@) {
        !(has_substring(l, "rx "@) || has_substring(l, "pro "@) || has_substring(l, "vega"@)
            || has_substring(l, " vii"@) || has_substring(l, " w"@))
    } else {
        false
    }
}

/// Heuristic: the GPU name matches known integrated GPU patterns.
pub fn is_integrated_gpu_name(name: &str) -> (r: bool)
    ensures
        r == integrated_gpu_name(str_lowercase(name@)),
{
    let lower = lower_str(name);
    if contains_str(&lower, "(integrated)") {
        return true;
    }
    if contains_str(&lower, "intel") {
        return contains_str(&lower, "uhd") || contains_str(&lower, "hd graphics") || (
        contains_str(&lower, "iris") && !contains_str(&lower, "arc"));
    }
    if contains_str(&lower, "radeon") && contains_str(&lower, "graphics") {
        let has_discrete_tag = contains_str(&lower, "rx ") || contains_str(&lower, "pro ")
            || contains_str(&lower, "vega") || contains_str(&lower, " vii") || contains_str(
            &lower,
            " w",
        );
        return !has_discrete_tag;
    }
    false
}

/// The positions of the GPUs to keep when discrete and integrated GPUs are
/// both present: the discrete ones. When no GPU is discrete, all are kept.
pub open spec fn discrete_preferred(names: Seq<Seq<char>>) -> Seq<int> {
    let discrete = Seq::new(names.len(), |i: int| i).filter(
        |i: int| !integrated_gpu_name(str_lowercase(names[i])),
    );
    if discrete.len() == 0 {
        Seq::new(names.len(), |i: int| i)
    } else {
        discrete
    }
}

/// When both discrete and integrated GPUs are detected, keep only the
/// discrete ones so that a discrete GPU becomes primary; if only integrated
/// GPUs are present, keep them all. Returns the positions of the GPUs kept,
/// in order.
pub fn prefer_discrete_gpus(names: &Vec<String>) -> (keep: Vec<usize>)
    ensures
        keep@.map_values(|i: usize| i as int) == discrete_preferred(string_views(names@)),
        names@.len() > 0 ==> keep@.len() > 0,
        forall|k: int| 0 <= k < keep@.len() ==> keep@[k] < names@.len(),
        (exists|i: int|
            0 <= i < names@.len() && !integrated_gpu_name(str_lowercase(#[trigger] names@[i]@)))
            ==> forall|k: int|
            0 <= k < keep@.len() ==> !integrated_gpu_name(str_lowercase(names@[keep@[k] as int]@)),
{
    let ghost nv = string_views(names@);
    let ghost all = Seq::new(nv.len(), |i: int| i);
    let ghost pred = |i: int| !integrated_gpu_name(str_lowercase(nv[i]));
    let mut discrete: Vec<usize> = Vec::new();
    let mut i: usize = 0;
    while i < names.len()
        invariant
            i <= names@.len(),
            nv == string_views(names@),
            all == Seq::new(nv.len(), |i: int| i),
            pred == (|i: int| !integrated_gpu_name(str_lowercase(nv[i]))),
            discrete@.map_values(|i: usize| i as int) == all.take(i as int).filter(pred),
            forall|k: int| 0 <= k < discrete@.len() ==> discrete@[k] < i,
        decreases names@.len() - i,
    {
        let d = !is_integrated_gpu_name(names[i].as_str());
        reveal_with_fuel(Seq::<_>::filter, 1);
        assert(all.take(i + 1).drop_last() =~= all.take(i as int));
        if d {
            discrete.push(i);
        }
        assert(discrete@.map_values(|i: usize| i as int) =~= all.take(i + 1).filter(pred));
        i += 1;
    }
    assert(all.take(i as int) =~= all);
    proof {
        broadcast use vstd::seq_lib::group_filter_ensures;
    }
    if discrete.len() == 0 {
        let mut keep: Vec<usize> = Vec::new();
        let mut j: usize = 0;
        while j < names.len()
            invariant
                j <= names@.len(),
                keep@.len() == j,
                forall|k: int| 0 <= k < j ==> keep@[k] == k,
            decreases names@.len() - j,
        {
            keep.push(j);
            j += 1;
        }
        assert(keep@.map_values(|i: usize| i as int) =~= Seq::new(names@.len(), |i: int| i));
        proof {
            if exists|i: int|
                0 <= i < names@.len() && !integrated_gpu_name(str_lowercase(#[trigger] names@[i]@)) {
                let w = choose|i: int|
                    0 <= i < names@.len() && !integrated_gpu_name(
                        str_lowercase(#[trigger] names@[i]@),
                    );
                assert(pred(all[w]));
                assert(all.filter(pred).contains(all[w]));
            }
        }
        keep
    } else {
        proof {
            assert forall|k: int| 0 <= k < discrete@.len() implies !integrated_gpu_name(
                str_lowercase(names@[discrete@[k] as int]@),
            ) by {
                assert(discrete@.map_values(|i: usize| i as int)[k] == discrete@[k] as int);
                assert(all.filter(pred).contains(discrete@[k] as int));
            }
        }
        discrete
    }
}

/// The most likely inference backend for a lower-cased GPU name.
pub open spec fn backend_for_name(l: Seq<char>) -> GpuBackend {
    if has_substring(l, "nvidia"@) || has_substring(l, "geforce"@) || has_substring(l, "quadro"@)
        || has_substring(l, "tesla"@) || has_substring(l, "rtx"@) {
        GpuBackend::Cuda
    } else if has_substring(l, "amd"@) || has_substring(l, "radeon"@) || has_substring(l, "ati"@) {
        GpuBackend::Vulkan
    } else if has_substring(l, "intel"@) || has_substring(l, "arc"@) {
        GpuBackend::Sycl
    } else {
        GpuBackend::Vulkan
    }
}

/// Infer the most likely inference backend from a GPU name string (on
/// Windows, Vulkan is the primary path for AMD GPUs).
pub fn infer_gpu_backend(name: &str) -> (r: GpuBackend)
    ensures
        r == backend_for_name(str_lowercase(name@)),
{
    let lower = lower_str(name);
    if contains_str(&lower, "nvidia") || contains_str(&lower, "geforce") || contains_str(
        &lower,
        "quadro",
    ) || contains_str(&lower, "tesla") || contains_str(&lower, "rtx") {
        GpuBackend::Cuda
    } else if contains_str(&lower, "amd") || contains_str(&lower, "radeon") || contains_str(
        &lower,
        "ati",
    ) {
        GpuBackend::Vulkan
    } else if contains_str(&lower, "intel") || contains_str(&lower, "arc") {
        GpuBackend::Sycl
    } else {
        GpuBackend::Vulkan
    }
}

/// The lower-cased name belongs to a software rasterizer or to a CPU
/// exposed as a Vulkan device.
pub open spec fn software_vulkan_name(l: Seq<char>) -> bool {
    has_substring(l, "llvmpipe"@) || has_substring(l, "lavapipe"@) || has_substring(
        l,
        "swiftshader"@,
    ) || has_substring(l, "software rasterizer"@) || has_substring(l, "core processor"@)
}

/// Software rasterizers (llvmpipe, lavapipe, SwiftShader) and CPUs exposed as
/// Vulkan devices are not inference GPUs.
pub fn is_software_vulkan_device(name: &str) -> (r: bool)
    ensures
        r == software_vulkan_name(str_lowercase(name@)),
{
    let lower = lower_str(name);
    if contains_str(&lower, "llvmpipe") || contains_str(&lower, "lavapipe") || contains_str(
        &lower,
        "swiftshader",
    ) || contains_str(&lower, "software rasterizer") {
        return true;
    }
    contains_str(&lower, "core processor")
}

/// The characters that `chars().flat_map(char::to_lowercase)` yields.
pub open spec fn lowered_chars(s: Seq<char>) -> Seq<char>
    decreases s.len(),
{
    if s.len() == 0 {
        Seq::empty()
    } else {
        lowered_chars(s.drop_last()) + char_lowercase(s.last())
    }
}

/// Copies alphanumeric characters and turns each run of other characters
/// into one space; the flag tells whether the last thing written (or the
/// start) is a separator.
pub open spec fn collapse_separators(s: Seq<char>) -> (Seq<char>, bool)
    decreases s.len(),
{
    if s.len() == 0 {
        (Seq::empty(), true)
    } else {
        let (out, sep) = collapse_separators(s.drop_last());
        let c = s.last();
        if char_is_alphanumeric(c) {
            (out.push(c), false)
        } else if !sep {
            (out.push(' '), true)
        } else {
            (out, sep)
        }
    }
}

/// `collapse_separators` with ASCII letters and digits as the alphanumeric
/// characters.
pub open spec fn collapse_ascii_separators(s: Seq<char>) -> (Seq<char>, bool)
    decreases s.len(),
{
    if s.len() == 0 {
        (Seq::empty(), true)
    } else {
        let (out, sep) = collapse_ascii_separators(s.drop_last());
        let c = s.last();
        if ascii_alphanumeric(c) {
            (out.push(c), false)
        } else if !sep {
            (out.push(' '), true)
        } else {
            (out, sep)
        }
    }
}

/// A GPU name normalised for deduplication: lower-cased, runs of
/// non-alphanumeric characters collapsed to one space, trimmed.
pub open spec fn normalized_gpu_name(name: Seq<char>) -> Seq<char> {
    trimmed(collapse_separators(lowered_chars(name)).0)
}

/// Normalise a GPU name for deduplication (e.g. " Adreno (TM) 740 " becomes
/// "adreno tm 740").
pub fn normalize_gpu_name_for_dedupe(name: &str) -> (r: String)
    ensures
        r@ == normalized_gpu_name(name@),
        all_ascii(name@) ==> r@ == trimmed(collapse_ascii_separators(ascii_lowered(name@)).0),
{
    let v = chars_of(name);
    let mut out: Vec<char> = Vec::new();
    let mut sep = true;
    let mut i: usize = 0;
    assert(v@.subrange(0, 0) =~= Seq::<char>::empty());
    assert(ascii_lowered(v@.subrange(0, 0)) =~= Seq::<char>::empty());
    while i < v.len()
        invariant
            i <= v@.len(),
            (out@, sep) == collapse_separators(lowered_chars(v@.subrange(0, i as int))),
            all_ascii(v@.subrange(0, i as int)) ==> (out@, sep) == collapse_ascii_separators(
                ascii_lowered(v@.subrange(0, i as int)),
            ),
        decreases v@.len() - i,
    {
        let lc = lowercase_char(v[i]);
        let ghost a = lowered_chars(v@.subrange(0, i as int));
        let ghost b = ascii_lowered(v@.subrange(0, i as int));
        let ghost ascii_ok = all_ascii(v@.subrange(0, i + 1));
        proof {
            if ascii_ok {
                assert(v@.subrange(0, i + 1)[i as int] == v@[i as int]);
                assert forall|k: int| 0 <= k < i implies (v@.subrange(0, i as int)[k] as u32) < 128 by {
                    assert(v@.subrange(0, i as int)[k] == v@.subrange(0, i + 1)[k]);
                }
                assert(ascii_lowered(v@.subrange(0, i + 1)) =~= b + lc@);
            }
        }
        let mut j: usize = 0;
        assert(a + lc@.subrange(0, 0) =~= a);
        assert(b + lc@.subrange(0, 0) =~= b);
        while j < lc.len()
            invariant
                j <= lc@.len(),
                (out@, sep) == collapse_separators(a + lc@.subrange(0, j as int)),
                ascii_ok ==> lc@ == seq![ascii_lower(v@[i as int])],
                ascii_ok ==> (v@[i as int] as u32) < 128,
                ascii_ok ==> (out@, sep) == collapse_ascii_separators(b + lc@.subrange(0, j as int)),
            decreases lc@.len() - j,
        {
            let c = lc[j];
            assert((a + lc@.subrange(0, j + 1)).drop_last() =~= a + lc@.subrange(0, j as int));
            assert((a + lc@.subrange(0, j + 1)).last() == c);
            assert((b + lc@.subrange(0, j + 1)).drop_last() =~= b + lc@.subrange(0, j as int));
            assert((b + lc@.subrange(0, j + 1)).last() == c);
            if is_alphanumeric(c) {
                out.push(c);
                sep = false;
            } else if !sep {
                out.push(' ');
                sep = true;
            }
            j += 1;
        }
        assert(a + lc@.subrange(0, j as int) =~= a + lc@);
        assert(b + lc@.subrange(0, j as int) =~= b + lc@);
        assert(v@.subrange(0, i + 1).drop_last() =~= v@.subrange(0, i as int));
        i += 1;
    }
    assert(v@.subrange(0, i as int) =~= v@);
    let t = trim(&out);
    string_of(&t)
}

/// Runs of ASCII digits: the finished runs of 3 to 5 digits, and the run in
/// progress.
pub open spec fn digit_runs(s: Seq<char>) -> (Seq<Seq<char>>, Seq<char>)
    decreases s.len(),
{
    if s.len() == 0 {
        (Seq::empty(), Seq::empty())
    } else {
        let (nums, cur) = digit_runs(s.drop_last());
        let c = s.last();
        if is_digit(c) {
            (nums, cur.push(c))
        } else if 3 <= cur.len() <= 5 {
            (nums.push(cur), Seq::empty())
        } else {
            (nums, Seq::empty())
        }
    }
}

/// The 3- to 5-digit numbers in a name, in order.
pub open spec fn model_numbers(s: Seq<char>) -> Seq<Seq<char>> {
    let (nums, cur) = digit_runs(s);
    if 3 <= cur.len() <= 5 {
        nums.push(cur)
    } else {
        nums
    }
}

/// The 3- to 5-digit numbers in a name, as character vectors.
fn model_number_chars(v: &Vec<char>) -> (r: Vec<Vec<char>>)
    ensures
        views(r@) == model_numbers(v@),
{
    let mut nums: Vec<Vec<char>> = Vec::new();
    let mut cur: Vec<char> = Vec::new();
    let mut i: usize = 0;
    assert(v@.subrange(0, 0) =~= Seq::<char>::empty());
    while i < v.len()
        invariant
            i <= v@.len(),
            (views(nums@), cur@) == digit_runs(v@.subrange(0, i as int)),
        decreases v@.len() - i,
    {
        let c = v[i];
        assert(v@.subrange(0, i + 1).drop_last() =~= v@.subrange(0, i as int));
        let ghost before = nums@;
        if '0' <= c && c <= '9' {
            cur.push(c);
        } else {
            if cur.len() >= 3 && cur.len() <= 5 {
                nums.push(cur);
                assert(views(nums@) =~= views(before).push(digit_runs(
                    v@.subrange(0, i as int),
                ).1));
            }
            cur = Vec::new();
        }
        i += 1;
    }
    assert(v@.subrange(0, i as int) =~= v@);
    if cur.len() >= 3 && cur.len() <= 5 {
        let ghost before = nums@;
        nums.push(cur);
        assert(views(nums@) =~= views(before).push(digit_runs(v@).1));
    }
    nums
}

/// Extract the 3- to 5-digit numeric tokens from a GPU name (e.g. "7600",
/// "6800"), in order.
pub fn extract_gpu_model_numbers(name: &str) -> (r: Vec<String>)
    ensures
        string_views(r@) == model_numbers(name@),
{
    let v = chars_of(name);
    let nums = model_number_chars(&v);
    let mut out: Vec<String> = Vec::new();
    let mut i: usize = 0;
    while i < nums.len()
        invariant
            i <= nums@.len(),
            string_views(out@) == views(nums@).subrange(0, i as int),
        decreases nums@.len() - i,
    {
        let s = string_of(&nums[i]);
        let ghost before = out@;
        out.push(s);
        assert(string_views(out@) =~= string_views(before).push(s@));
        assert(string_views(out@) =~= views(nums@).subrange(0, i + 1));
        i += 1;
    }
    assert(views(nums@).subrange(0, i as int) =~= views(nums@));
    out
}

/// The lower-cased name looks like an AMD GPU.
pub open spec fn looks_amd(l: Seq<char>) -> bool {
    has_substring(l, "radeon"@) || has_prefix(l, "amd "@) || has_substring(l, " amd "@)
}

/// `a` is non-empty and shares an element with `b`.
pub open spec fn shares_model_number(a: Seq<Seq<char>>, b: Seq<Seq<char>>) -> bool {
    a.len() > 0 && exists|i: int| 0 <= i < a.len() && b.contains(#[trigger] a[i])
}

/// Two GPU names denote the same device: equal after normalisation, or both
/// AMD names sharing a 3- to 5-digit model number (ROCm family names such as
/// "Radeon RX 7700S/7600/7600S" against RADV names such as "AMD Radeon RX
/// 7600 XT (RADV NAVI33)").
pub open spec fn same_gpu_name(e: Seq<char>, c: Seq<char>) -> bool {
    ||| normalized_gpu_name(e) == normalized_gpu_name(c)
    ||| {
        let el = str_lowercase(e);
        let cl = str_lowercase(c);
        looks_amd(el) && looks_amd(cl) && shares_model_number(
            model_numbers(el),
            model_numbers(cl),
        )
    }
}

/// Whether two GPU names denote the same device.
pub fn is_same_gpu_name(existing_name: &str, candidate_name: &str) -> (r: bool)
    ensures
        r == same_gpu_name(existing_name@, candidate_name@),
{
    let ne = normalize_gpu_name_for_dedupe(existing_name);
    let nc = normalize_gpu_name_for_dedupe(candidate_name);
    let nev = chars_of(ne.as_str());
    let ncv = chars_of(nc.as_str());
    if crate::text::eq_chars(&nev, &ncv) {
        return true;
    }
    let e_lower = lower_str(existing_name);
    let c_lower = lower_str(candidate_name);
    let e_amd = contains_str(&e_lower, "radeon") || starts_with_str(&e_lower, "amd ")
        || contains_str(&e_lower, " amd ");
    let c_amd = contains_str(&c_lower, "radeon") || starts_with_str(&c_lower, "amd ")
        || contains_str(&c_lower, " amd ");
    if e_amd && c_amd {
        let e_nums = model_number_chars(&e_lower);
        let c_nums = model_number_chars(&c_lower);
        if e_nums.len() > 0 {
            let mut i: usize = 0;
            while i < e_nums.len()
                invariant
                    i <= e_nums@.len(),
                    views(e_nums@) == model_numbers(str_lowercase(existing_name@)),
                    views(c_nums@) == model_numbers(str_lowercase(candidate_name@)),
                    looks_amd(str_lowercase(existing_name@)),
                    looks_amd(str_lowercase(candidate_name@)),
                    forall|k: int| 0 <= k < i ==> !views(c_nums@).contains(views(e_nums@)[k]),
                decreases e_nums@.len() - i,
            {
                let mut j: usize = 0;
                while j < c_nums.len()
                    invariant
                        i < e_nums@.len(),
                        j <= c_nums@.len(),
                        views(e_nums@) == model_numbers(str_lowercase(existing_name@)),
                        views(c_nums@) == model_numbers(str_lowercase(candidate_name@)),
                        looks_amd(str_lowercase(existing_name@)),
                        looks_amd(str_lowercase(candidate_name@)),
                        forall|k: int| 0 <= k < j ==> views(c_nums@)[k] != views(e_nums@)[i as int],
                    decreases c_nums@.len() - j,
                {
                    if crate::text::eq_chars(&e_nums[i], &c_nums[j]) {
                        assert(views(c_nums@)[j as int] == views(e_nums@)[i as int]);
                        assert(views(c_nums@).contains(views(e_nums@)[i as int]));
                        assert(shares_model_number(views(e_nums@), views(c_nums@)));
                        return true;
                    }
                    j += 1;
                }
                i += 1;
            }
        }
    }
    false
}

/// Being the same GPU does not depend on which name is the existing one.
pub proof fn lemma_same_gpu_name_symmetric(a: Seq<char>, b: Seq<char>)
    ensures
        same_gpu_name(a, b) == same_gpu_name(b, a),
{
    let na = model_numbers(str_lowercase(a));
    let nb = model_numbers(str_lowercase(b));
    if shares_model_number(na, nb) {
        let i = choose|i: int| 0 <= i < na.len() && nb.contains(#[trigger] na[i]);
        let j = choose|j: int| 0 <= j < nb.len() && nb[j] == na[i];
        assert(na.contains(nb[j]));
        assert(shares_model_number(nb, na));
    }
    if shares_model_number(nb, na) {
        let i = choose|i: int| 0 <= i < nb.len() && na.contains(#[trigger] nb[i]);
        let j = choose|j: int| 0 <= j < na.len() && na[j] == nb[i];
        assert(nb.contains(na[j]));
        assert(shares_model_number(na, nb));
    }
}

/// Every name denotes the same device as itself.
pub proof fn lemma_same_gpu_name_reflexive(a: Seq<char>)
    ensures
        same_gpu_name(a, a),
{
}


/// The device name that one line of `vulkaninfo` output announces, either
/// as `deviceName = ...` or as `GPU id = N (...)`.
pub open spec fn vulkan_line_name(line: Seq<char>) -> Option<Seq<char>> {
    let t = trimmed(line);
    if t.len() == 0 {
        None
    } else if split_once(t, '=') is Some && eq_ignore_ascii_case(
        trimmed(split_once(t, '=').unwrap().0),
        "deviceName"@,
    ) {
        let v = trimmed(split_once(t, '=').unwrap().1);
        if v.len() > 0 {
            Some(v)
        } else {
            None
        }
    } else if has_prefix(t, "GPU id"@) {
        let rest = t.subrange(6, t.len() as int);
        let start = first_of(rest, '(', 0);
        let end = last_of(rest, ')');
        if start < rest.len() && end > start + 1 {
            let name = trimmed(rest.subrange(start + 1, end));
            if name.len() > 0 {
                Some(name)
            } else {
                None
            }
        } else {
            None
        }
    } else {
        None
    }
}

/// The device names announced by a sequence of lines, in order.
pub open spec fn vulkan_names(ls: Seq<Seq<char>>) -> Seq<Seq<char>>
    decreases ls.len(),
{
    if ls.len() == 0 {
        Seq::empty()
    } else {
        match vulkan_line_name(ls.last()) {
            Some(n) => vulkan_names(ls.drop_last()).push(n),
            None => vulkan_names(ls.drop_last()),
        }
    }
}

/// The device name on one line of `vulkaninfo` output.
fn vulkan_device_name(line: &Vec<char>) -> (r: Option<Vec<char>>)
    ensures
        match r {
            Some(n) => vulkan_line_name(line@) == Some(n@),
            None => vulkan_line_name(line@) is None,
        },
{
    let t = trim(line);
    if t.len() == 0 {
        return None;
    }
    if let Some((key, value)) = split_once_char(&t, '=') {
        let k = trim(&key);
        if eq_ignore_ascii_case_str(&k, "deviceName") {
            let v = trim(&value);
            if v.len() > 0 {
                return Some(v);
            }
            return None;
        }
    }
    if starts_with_str(&t, "GPU id") {
        proof {
            reveal_strlit("GPU id");
        }
        let rest = slice_of(&t, 6, t.len());
        let start = find_char_from(&rest, '(', 0);
        proof {
            lemma_first_of(rest@, '(', 0);
            lemma_last_of(rest@, ')');
        }
        if start < rest.len() {
            if let Some(end) = rfind_char(&rest, ')') {
                if end > start + 1 {
                    let inner = slice_of(&rest, start + 1, end);
                    let name = trim(&inner);
                    if name.len() > 0 {
                        return Some(name);
                    }
                }
            }
        }
    }
    None
}

/// Device names from `vulkaninfo` output (`--summary` form with
/// `deviceName = ...` or the `GPU id = N (...)` form), in order.
pub fn parse_vulkan_device_names(text: &str) -> (r: Vec<String>)
    ensures
        string_views(r@) == vulkan_names(lines(text@)),
{
    let v = chars_of(text);
    let ls = lines_of(&v);
    let mut names: Vec<String> = Vec::new();
    let mut i: usize = 0;
    assert(views(ls@).subrange(0, 0) =~= Seq::<Seq<char>>::empty());
    while i < ls.len()
        invariant
            i <= ls@.len(),
            string_views(names@) == vulkan_names(views(ls@).subrange(0, i as int)),
        decreases ls@.len() - i,
    {
        assert(views(ls@).subrange(0, i + 1).drop_last() =~= views(ls@).subrange(0, i as int));
        assert(views(ls@).subrange(0, i + 1).last() == ls@[i as int]@);
        let ghost before = names@;
        match vulkan_device_name(&ls[i]) {
            Some(n) => {
                let s = string_of(&n);
                names.push(s);
                assert(string_views(names@) =~= string_views(before).push(s@));
            },
            None => {},
        }
        i += 1;
    }
    assert(views(ls@).subrange(0, i as int) =~= views(ls@));
    names
}

/// The value of a `key : value` line of `/proc/cpuinfo` when the key matches
/// (ignoring ASCII case) and the value is present and not "unknown".
pub open spec fn cpuinfo_value(line: Seq<char>, key: Seq<char>) -> Option<Seq<char>> {
    match split_once(line, ':') {
        Some((l, r)) => if eq_ignore_ascii_case(trimmed(l), key) && trimmed(r).len() > 0
            && !eq_ignore_ascii_case(trimmed(r), "unknown"@) {
            Some(trimmed(r))
        } else {
            None
        },
        None => None,
    }
}

/// The first line of `ls` that gives a value for `key`.
pub open spec fn first_cpuinfo_value(ls: Seq<Seq<char>>, key: Seq<char>) -> Option<Seq<char>>
    decreases ls.len(),
{
    if ls.len() == 0 {
        None
    } else {
        match cpuinfo_value(ls[0], key) {
            Some(v) => Some(v),
            None => first_cpuinfo_value(ls.drop_first(), key),
        }
    }
}

/// The CPU name in `/proc/cpuinfo` text: the value of the first of the keys
/// "model name", "hardware", "processor", "cpu model", "model" that has one.
pub open spec fn cpu_name_from_cpuinfo(text: Seq<char>) -> Option<Seq<char>> {
    let ls = lines(text);
    match first_cpuinfo_value(ls, "model name"@) {
        Some(v) => Some(v),
        None => match first_cpuinfo_value(ls, "hardware"@) {
            Some(v) => Some(v),
            None => match first_cpuinfo_value(ls, "processor"@) {
                Some(v) => Some(v),
                None => match first_cpuinfo_value(ls, "cpu model"@) {
                    Some(v) => Some(v),
                    None => first_cpuinfo_value(ls, "model"@),
                },
            },
        },
    }
}

/// The value for `key` in one line.
fn cpuinfo_line_value(line: &Vec<char>, key: &str) -> (r: Option<Vec<char>>)
    ensures
        match r {
            Some(v) => cpuinfo_value(line@, key@) == Some(v@),
            None => cpuinfo_value(line@, key@) is None,
        },
{
    match split_once_char(line, ':') {
        Some((lhs, rhs)) => {
            let l = trim(&lhs);
            if eq_ignore_ascii_case_str(&l, key) {
                let c = trim(&rhs);
                if c.len() > 0 && !eq_ignore_ascii_case_str(&c, "unknown") {
                    return Some(c);
                }
            }
            None
        },
        None => None,
    }
}

/// The first line that gives a value for `key`.
fn first_value_for(ls: &Vec<Vec<char>>, key: &str) -> (r: Option<Vec<char>>)
    ensures
        match r {
            Some(v) => first_cpuinfo_value(views(ls@), key@) == Some(v@),
            None => first_cpuinfo_value(views(ls@), key@) is None,
        },
{
    let mut i: usize = 0;
    assert(views(ls@).subrange(0, ls@.len() as int) =~= views(ls@));
    while i < ls.len()
        invariant
            i <= ls@.len(),
            first_cpuinfo_value(views(ls@), key@) == first_cpuinfo_value(
                views(ls@).subrange(i as int, ls@.len() as int),
                key@,
            ),
        decreases ls@.len() - i,
    {
        assert(views(ls@).subrange(i as int, ls@.len() as int).drop_first() =~= views(
            ls@,
        ).subrange(i + 1, ls@.len() as int));
        assert(views(ls@).subrange(i as int, ls@.len() as int)[0] == ls@[i as int]@);
        if let Some(v) = cpuinfo_line_value(&ls[i], key) {
            return Some(v);
        }
        i += 1;
    }
    None
}

/// The CPU name from `/proc/cpuinfo` text ("model name" first, then the
/// "Hardware" line that ARM devices use, and so on).
pub fn parse_cpu_name_from_cpuinfo(text: &str) -> (r: Option<String>)
    ensures
        match r {
            Some(s) => cpu_name_from_cpuinfo(text@) == Some(s@),
            None => cpu_name_from_cpuinfo(text@) is None,
        },
{
    let v = chars_of(text);
    let ls = lines_of(&v);
    if let Some(x) = first_value_for(&ls, "model name") {
        return Some(string_of(&x));
    }
    if let Some(x) = first_value_for(&ls, "hardware") {
        return Some(string_of(&x));
    }
    if let Some(x) = first_value_for(&ls, "processor") {
        return Some(string_of(&x));
    }
    if let Some(x) = first_value_for(&ls, "cpu model") {
        return Some(string_of(&x));
    }
    if let Some(x) = first_value_for(&ls, "model") {
        return Some(string_of(&x));
    }
    None
}


/// A bracketed token worth reporting: non-empty, no `:`, not all digits.
pub open spec fn usable_token(t: Seq<char>) -> bool {
    t.len() > 0 && !t.contains(':') && !all_digits(t)
}

/// The longest (in UTF-8 bytes; the first on ties) usable bracketed token
/// of `s` from position `pos` on, given the best one so far. Scanning stops
/// at a `[` without a closing `]`.
pub open spec fn bracket_scan(s: Seq<char>, pos: int, best: Option<Seq<char>>) -> Option<Seq<char>>
    decreases s.len() - pos,
{
    if pos < 0 || pos > s.len() {
        best
    } else {
        let open = first_of(s, '[', pos);
        if open < pos || open >= s.len() {
            best
        } else {
            let close = first_of(s, ']', open + 1);
            if close < open + 1 || close >= s.len() {
                best
            } else {
                let token = trimmed(s.subrange(open + 1, close));
                let better = match best {
                    Some(b) => utf8_len(token) > utf8_len(b),
                    None => true,
                };
                bracket_scan(
                    s,
                    close + 1,
                    if usable_token(token) && better {
                        Some(token)
                    } else {
                        best
                    },
                )
            }
        }
    }
}

/// The model name on an `lspci` line: the longest usable bracketed token
/// (e.g. "GeForce RTX 2060" in "... [GeForce RTX 2060] ..."), else the
/// non-empty trimmed text after the first ": ".
pub open spec fn lspci_model(line: Seq<char>) -> Option<Seq<char>> {
    match bracket_scan(line, 0, None) {
        Some(b) => Some(b),
        None => match find_from(line, ": "@, 0) {
            Some(k) => {
                let r = trimmed(line.subrange(k + 2, line.len() as int));
                if r.len() > 0 {
                    Some(r)
                } else {
                    None
                }
            },
            None => None,
        },
    }
}

/// Is the token usable?
fn is_usable_token(t: &Vec<char>) -> (r: bool)
    ensures
        r == usable_token(t@),
{
    if t.len() == 0 {
        return false;
    }
    let mut i: usize = 0;
    let mut digits = true;
    while i < t.len()
        invariant
            i <= t@.len(),
            forall|k: int| 0 <= k < i ==> t@[k] != ':',
            digits == (forall|k: int| 0 <= k < i ==> is_digit(#[trigger] t@[k])),
        decreases t@.len() - i,
    {
        if t[i] == ':' {
            assert(t@.contains(':'));
            return false;
        }
        if !('0' <= t[i] && t[i] <= '9') {
            digits = false;
        }
        i += 1;
    }
    !digits
}

/// Extract a likely model name from an `lspci` line, preferring the longest
/// human-readable bracketed token (e.g. "[GeForce RTX 2060]").
pub fn extract_model_from_lspci_line(line: &str) -> (r: Option<String>)
    ensures
        match r {
            Some(m) => lspci_model(line@) == Some(m@),
            None => lspci_model(line@) is None,
        },
{
    let s = chars_of(line);
    let n = s.len();
    let mut best: Option<Vec<char>> = None;
    let mut pos: usize = 0;
    loop
        invariant
            pos <= n == s@.len(),
            s@ == line@,
            bracket_scan(s@, 0, None) == bracket_scan(
                s@,
                pos as int,
                match best {
                    Some(b) => Some(b@),
                    None => None,
                },
            ),
        ensures
            s@ == line@,
            bracket_scan(s@, 0, None) == match best {
                Some(b) => Some(b@),
                None => None,
            },
        decreases n - pos,
    {
        let open = find_char_from(&s, '[', pos);
        proof {
            lemma_first_of(s@, '[', pos as int);
        }
        if open >= n {
            break;
        }
        let close = find_char_from(&s, ']', open + 1);
        proof {
            lemma_first_of(s@, ']', open + 1);
        }
        if close >= n {
            break;
        }
        let inner = slice_of(&s, open + 1, close);
        let token = trim(&inner);
        if is_usable_token(&token) {
            let better = match &best {
                Some(b) => utf8_len_of(&token) > utf8_len_of(b),
                None => true,
            };
            if better {
                best = Some(token);
            }
        }
        pos = close + 1;
    }
    match best {
        Some(b) => Some(string_of(&b)),
        None => {
            let sep = chars_of(": ");
            proof {
                reveal_strlit(": ");
            }
            match find_str_from(&s, &sep, 0) {
                Some(k) => {
                    let right = slice_of(&s, k + 2, n);
                    let t = trim(&right);
                    if t.len() > 0 {
                        Some(string_of(&t))
                    } else {
                        None
                    }
                },
                None => None,
            }
        },
    }
}

/// The number on a `vm_stat` line that starts with `key`: the text between
/// the first and second `:`, trimmed and without trailing dots, as a `u64`.
pub open spec fn vm_stat_value(line: Seq<char>, key: Seq<char>) -> Option<u64> {
    if !has_prefix(line, key) {
        None
    } else {
        let parts = split(line, ':');
        if parts.len() < 2 {
            None
        } else {
            parse_u64(trim_end_dots(trimmed(parts[1])))
        }
    }
}

/// Parse a single `vm_stat` line like "Pages free:    123456.".
pub fn parse_vm_stat_line(line: &str, key: &str) -> (r: Option<u64>)
    ensures
        r == vm_stat_value(line@, key@),
{
    let v = chars_of(line);
    if !starts_with_str(&v, key) {
        return None;
    }
    let parts = split_char(&v, ':');
    if parts.len() < 2 {
        return None;
    }
    let t = trim(&parts[1]);
    let d = trim_end_dots_of(&t);
    parse_u64_chars(&d)
}


/// Per-card VRAM as a tool reported it in bytes, or as estimated from the
/// GPU name in MiB.
#[derive(Debug, Clone, Copy, PartialEq, Eq, Structural)]
pub enum VramAmount {
    Bytes(u64),
    Mib(u32),
}

/// The VRAM kept for a WMI `AdapterRAM` value: the field is 32 bits wide
/// and so caps near 4 GiB. A value under 0.1 GiB, or one of at most 4.1 GiB
/// for a card the name says is larger, gives way to the name's estimate when
/// there is one; otherwise a positive value is kept as reported.
pub open spec fn wmi_vram(raw: u64, l: Seq<char>) -> Option<VramAmount> {
    let est = vram_estimate_of(l);
    if (raw <= 107374182 || (raw <= 4402341478 && est >= 4199)) && est > 0 {
        Some(VramAmount::Mib(est))
    } else if raw > 0 {
        Some(VramAmount::Bytes(raw))
    } else {
        None
    }
}

/// Resolves a WMI `AdapterRAM` byte count, which is capped at about 4 GB,
/// estimating from the GPU name when the reported value is suspiciously low.
pub fn resolve_wmi_vram(raw_bytes: u64, name: &str) -> (r: Option<VramAmount>)
    ensures
        r == wmi_vram(raw_bytes, str_lowercase(name@)),
{
    let est = estimate_vram_from_name(name);
    if (raw_bytes <= 107374182 || (raw_bytes <= 4402341478 && est >= 4199)) && est > 0 {
        Some(VramAmount::Mib(est))
    } else if raw_bytes > 0 {
        Some(VramAmount::Bytes(raw_bytes))
    } else {
        None
    }
}

/// A GPU listed by the Windows adapter query.
#[derive(Debug, Clone)]
pub struct WindowsGpu {
    pub name: String,
    pub backend: GpuBackend,
    pub vram: Option<VramAmount>,
}

/// The name and raw `AdapterRAM` of a `Name|AdapterRAM` line, or `None` for
/// a blank line or a virtual adapter (Microsoft, basic or virtual display
/// drivers, or no name). An `AdapterRAM` that does not parse counts as 0.
pub open spec fn windows_line_entry(line: Seq<char>) -> Option<(Seq<char>, u64)> {
    let t = trimmed(line);
    if t.len() == 0 {
        None
    } else {
        let name = match split_once(t, '|') {
            Some(p) => trimmed(p.0),
            None => trimmed(t),
        };
        let raw: u64 = match split_once(t, '|') {
            Some(p) => match parse_u64(trimmed(p.1)) {
                Some(v) => v,
                None => 0,
            },
            None => 0,
        };
        let l = str_lowercase(name);
        if has_substring(l, "microsoft"@) || has_substring(l, "basic"@) || has_substring(
            l,
            "virtual"@,
        ) || l.len() == 0 {
            None
        } else {
            Some((name, raw))
        }
    }
}

/// The adapters that the lines list, in order.
pub open spec fn windows_entries(ls: Seq<Seq<char>>) -> Seq<(Seq<char>, u64)>
    decreases ls.len(),
{
    if ls.len() == 0 {
        Seq::empty()
    } else {
        match windows_line_entry(ls.last()) {
            Some(e) => windows_entries(ls.drop_last()).push(e),
            None => windows_entries(ls.drop_last()),
        }
    }
}

/// A name that is no virtual or basic display adapter (and is not empty).
pub open spec fn physical_adapter_name(name: Seq<char>) -> bool {
    let l = str_lowercase(name);
    !has_substring(l, "microsoft"@) && !has_substring(l, "basic"@) && !has_substring(
        l,
        "virtual"@,
    ) && l.len() > 0
}

/// Every adapter the lines list has a physical adapter's name.
proof fn lemma_windows_entries_physical(ls: Seq<Seq<char>>)
    ensures
        forall|k: int|
            0 <= k < windows_entries(ls).len() ==> physical_adapter_name(
                (#[trigger] windows_entries(ls)[k]).0,
            ),
    decreases ls.len(),
{
    if ls.len() > 0 {
        lemma_windows_entries_physical(ls.drop_last());
        let prev = windows_entries(ls.drop_last());
        match windows_line_entry(ls.last()) {
            Some(e) => {
                assert forall|k: int| 0 <= k < prev.push(e).len() implies physical_adapter_name(
                    (#[trigger] prev.push(e)[k]).0,
                ) by {
                    if k < prev.len() {
                        assert(prev.push(e)[k] == prev[k]);
                    }
                }
            },
            None => {},
        }
    }
}

/// The adapter entry of one line, as `windows_line_entry` describes it.
fn windows_line(line: &Vec<char>) -> (r: Option<(Vec<char>, u64)>)
    ensures
        match r {
            Some((n, raw)) => windows_line_entry(line@) == Some((n@, raw)),
            None => windows_line_entry(line@) is None,
        },
{
    let t = trim(line);
    if t.len() == 0 {
        return None;
    }
    let (name, raw): (Vec<char>, u64) = match split_once_char(&t, '|') {
        Some((a, b)) => {
            let rest = trim(&b);
            let raw: u64 = match parse_u64_chars(&rest) {
                Some(v) => v,
                None => 0,
            };
            (trim(&a), raw)
        },
        None => (trim(&t), 0),
    };
    let lower = to_lowercase(&name);
    if contains_str(&lower, "microsoft") || contains_str(&lower, "basic") || contains_str(
        &lower,
        "virtual",
    ) || lower.len() == 0 {
        return None;
    }
    Some((name, raw))
}

/// Parse every GPU from the PowerShell adapter listing (`Name|AdapterRAM`
/// per line), skipping virtual and basic display adapters; each keeps its
/// inferred backend and resolved VRAM.
pub fn parse_windows_gpu_list(text: &str) -> (r: Vec<WindowsGpu>)
    ensures
        r@.len() == windows_entries(lines(text@)).len(),
        forall|i: int|
            0 <= i < r@.len() ==> {
                let e = #[trigger] windows_entries(lines(text@))[i];
                &&& r@[i].name@ == e.0
                &&& r@[i].backend == backend_for_name(str_lowercase(e.0))
                &&& r@[i].vram == wmi_vram(e.1, str_lowercase(e.0))
            },
        forall|i: int| 0 <= i < r@.len() ==> physical_adapter_name((#[trigger] r@[i]).name@),
{
    proof {
        lemma_windows_entries_physical(lines(text@));
    }
    let v = chars_of(text);
    let ls = lines_of(&v);
    let ghost lv = views(ls@);
    let mut out: Vec<WindowsGpu> = Vec::new();
    let mut i: usize = 0;
    assert(lv.subrange(0, 0) =~= Seq::<Seq<char>>::empty());
    while i < ls.len()
        invariant
            i <= ls@.len(),
            lv == views(ls@),
            lv == lines(text@),
            out@.len() == windows_entries(lv.subrange(0, i as int)).len(),
            forall|k: int|
                0 <= k < out@.len() ==> {
                    let e = #[trigger] windows_entries(lv.subrange(0, i as int))[k];
                    &&& out@[k].name@ == e.0
                    &&& out@[k].backend == backend_for_name(str_lowercase(e.0))
                    &&& out@[k].vram == wmi_vram(e.1, str_lowercase(e.0))
                },
        decreases ls@.len() - i,
    {
        let ghost prev = windows_entries(lv.subrange(0, i as int));
        assert(lv.subrange(0, i + 1).drop_last() =~= lv.subrange(0, i as int));
        assert(lv.subrange(0, i + 1).last() == ls@[i as int]@);
        match windows_line(&ls[i]) {
            Some((name, raw)) => {
                let name_str = string_of(&name);
                let backend = infer_gpu_backend(name_str.as_str());
                let vram = resolve_wmi_vram(raw, name_str.as_str());
                out.push(WindowsGpu { name: name_str, backend, vram });
                proof {
                    let cur = windows_entries(lv.subrange(0, i + 1));
                    assert(cur == prev.push((name@, raw)));
                    assert forall|k: int| 0 <= k < out@.len() implies {
                        let e = #[trigger] cur[k];
                        &&& out@[k].name@ == e.0
                        &&& out@[k].backend == backend_for_name(str_lowercase(e.0))
                        &&& out@[k].vram == wmi_vram(e.1, str_lowercase(e.0))
                    } by {
                        if k < prev.len() {
                            assert(cur[k] == prev[k]);
                        }
                    }
                }
            },
            None => {},
        }
        i += 1;
    }
    assert(lv.subrange(0, i as int) =~= lv);
    proof {
        assert forall|i: int| 0 <= i < out@.len() implies physical_adapter_name(
            (#[trigger] out@[i]).name@,
        ) by {
            assert(out@[i].name@ == windows_entries(lines(text@))[i].0);
        }
    }
    out
}

} // verus!
