//! What the detection probes print, read: GPU names from `lspci` by PCI
//! slot, sysfs `uevent` files, `npu-smi`, `vm_stat`, `/proc/meminfo`,
//! `system_profiler` and the WMI CSV listing.
use vstd::prelude::*;
use crate::gpu_text::{
    backend_for_name, extract_model_from_lspci_line, infer_gpu_backend,
    is_software_vulkan_device, lspci_model, parse_vulkan_device_names, parse_vm_stat_line,
    software_vulkan_name, vulkan_names, resolve_wmi_vram, string_views, vm_stat_value, wmi_vram, VramAmount,
    WindowsGpu,
};
use crate::hardware::{estimate_vram_from_name, vram_estimate_of};
use crate::text::{
    after_last, after_last_char, chars_of, contains_str, eq_ignore_ascii_case,
    eq_ignore_ascii_case_str, eq_str, find_char_from, find_from, find_str_from, first_of,
    has_prefix, has_substring, lemma_first_of, lemma_lex_irreflexive, lemma_lex_total,
    lemma_lex_transitive, lex_less, lex_lt, lines, lines_of, parse_u64, parse_u64_chars,
    slice_of, split_once, split_once_char, split_whitespace_of, starts_with_str, str_lowercase,
    string_of, to_lowercase, trim, trimmed, views, words,
};

verus! {

/// A lower-cased `lspci` line for a display controller: VGA or 3D, and,
/// where `with_display` holds, also "display".
pub open spec fn lspci_display_class(l: Seq<char>, with_display: bool) -> bool {
    has_substring(l, "vga"@) || has_substring(l, "3d"@) || (with_display && has_substring(
        l,
        "display"@,
    ))
}

/// A lower-cased `lspci` line of the vendor: AMD/ATI, or NVIDIA.
pub open spec fn lspci_vendor(l: Seq<char>, amd: bool) -> bool {
    if amd {
        has_substring(l, "amd"@) || has_substring(l, "ati"@)
    } else {
        has_substring(l, "nvidia"@)
    }
}

/// Does line `line` qualify: it starts with the slot (when one is given),
/// names a display controller of the vendor, and yields a model name?
pub open spec fn lspci_line_fits(
    line: Seq<char>,
    slot: Option<Seq<char>>,
    amd: bool,
    with_display: bool,
) -> bool {
    let l = str_lowercase(line);
    &&& match slot {
        Some(p) => has_prefix(line, p),
        None => true,
    }
    &&& lspci_display_class(l, with_display)
    &&& lspci_vendor(l, amd)
    &&& lspci_model(line) is Some
}

/// The model of the first line from `i` on that fits.
pub open spec fn first_lspci_model(
    ls: Seq<Seq<char>>,
    slot: Option<Seq<char>>,
    amd: bool,
    with_display: bool,
    i: int,
) -> Option<Seq<char>>
    decreases ls.len() - i,
{
    if i < 0 || i >= ls.len() {
        None
    } else if lspci_line_fits(ls[i], slot, amd, with_display) {
        lspci_model(ls[i])
    } else {
        first_lspci_model(ls, slot, amd, with_display, i + 1)
    }
}

/// The model found for the first slot hint, from `k` on, that has one.
pub open spec fn slot_lspci_model(
    ls: Seq<Seq<char>>,
    slots: Seq<Seq<char>>,
    amd: bool,
    k: int,
) -> Option<Seq<char>>
    decreases slots.len() - k,
{
    if k < 0 || k >= slots.len() {
        None
    } else {
        match first_lspci_model(ls, Some(slots[k]), amd, true, 0) {
            Some(m) => Some(m),
            None => slot_lspci_model(ls, slots, amd, k + 1),
        }
    }
}

/// The GPU model that `lspci` output names: first by the PCI slots that
/// sysfs reported, in order; else the first display controller of the
/// vendor (for AMD, a VGA or 3D controller).
pub open spec fn lspci_gpu_name(text: Seq<char>, slots: Seq<Seq<char>>, amd: bool) -> Option<Seq<char>> {
    match slot_lspci_model(lines(text), slots, amd, 0) {
        Some(m) => Some(m),
        None => first_lspci_model(lines(text), None, amd, !amd, 0),
    }
}

/// The first fitting line's model from `i` on.
fn first_model(
    ls: &Vec<Vec<char>>,
    slot: Option<&str>,
    amd: bool,
    with_display: bool,
) -> (r: Option<String>)
    ensures
        match r {
            Some(m) => first_lspci_model(
                views(ls@),
                match slot {
                    Some(s) => Some(s@),
                    None => None,
                },
                amd,
                with_display,
                0,
            ) == Some(m@),
            None => first_lspci_model(
                views(ls@),
                match slot {
                    Some(s) => Some(s@),
                    None => None,
                },
                amd,
                with_display,
                0,
            ) is None,
        },
{
    let ghost lv = views(ls@);
    let ghost sv = match slot {
        Some(s) => Some(s@),
        None => None::<Seq<char>>,
    };
    let mut i: usize = 0;
    while i < ls.len()
        invariant
            i <= ls@.len(),
            lv == views(ls@),
            sv == match slot {
                Some(s) => Some(s@),
                None => None,
            },
            first_lspci_model(lv, sv, amd, with_display, 0) == first_lspci_model(
                lv,
                sv,
                amd,
                with_display,
                i as int,
            ),
        decreases ls@.len() - i,
    {
        assert(lv[i as int] == ls@[i as int]@);
        let line = &ls[i];
        let l = to_lowercase(line);
        let prefix_ok = match slot {
            Some(s) => starts_with_str(line, s),
            None => true,
        };
        let class_ok = contains_str(&l, "vga") || contains_str(&l, "3d") || (with_display
            && contains_str(&l, "display"));
        let vendor_ok = if amd {
            contains_str(&l, "amd") || contains_str(&l, "ati")
        } else {
            contains_str(&l, "nvidia")
        };
        if prefix_ok && class_ok && vendor_ok {
            let line_s = string_of(line);
            let m = extract_model_from_lspci_line(line_s.as_str());
            if m.is_some() {
                return m;
            }
        }
        i += 1;
    }
    None
}

/// The GPU model that `lspci -nnD` output names for the vendor (`amd`, else
/// NVIDIA): first at the PCI slots that sysfs reported, in order; else at
/// the first display controller of the vendor.
pub fn gpu_name_from_lspci(text: &str, slot_hints: &Vec<String>, amd: bool) -> (r: Option<String>)
    ensures
        match r {
            Some(m) => lspci_gpu_name(text@, string_views(slot_hints@), amd) == Some(m@),
            None => lspci_gpu_name(text@, string_views(slot_hints@), amd) is None,
        },
{
    let ls = lines_of(&chars_of(text));
    let ghost lv = views(ls@);
    let ghost sl = string_views(slot_hints@);
    let mut k: usize = 0;
    while k < slot_hints.len()
        invariant
            k <= slot_hints@.len(),
            lv == views(ls@),
            lv == lines(text@),
            sl == string_views(slot_hints@),
            slot_lspci_model(lv, sl, amd, 0) == slot_lspci_model(lv, sl, amd, k as int),
        decreases slot_hints@.len() - k,
    {
        assert(sl[k as int] == slot_hints@[k as int]@);
        let m = first_model(&ls, Some(slot_hints[k].as_str()), amd, true);
        if m.is_some() {
            return m;
        }
        k += 1;
    }
    first_model(&ls, None, amd, !amd)
}


/// A line that names an Intel Arc GPU (lower-cased, it mentions both).
pub open spec fn intel_arc_line(line: Seq<char>) -> bool {
    has_substring(str_lowercase(line), "intel"@) && has_substring(str_lowercase(line), "arc"@)
}

/// Whether `lspci` output lists an Intel Arc GPU.
pub fn lspci_lists_intel_arc(text: &str) -> (r: bool)
    ensures
        r == exists|i: int| 0 <= i < lines(text@).len() && intel_arc_line(#[trigger] lines(text@)[i]),
{
    let ls = lines_of(&chars_of(text));
    let ghost lv = views(ls@);
    let mut i: usize = 0;
    while i < ls.len()
        invariant
            i <= ls@.len(),
            lv == views(ls@),
            lv == lines(text@),
            forall|j: int| 0 <= j < i ==> !intel_arc_line(#[trigger] lv[j]),
        decreases ls@.len() - i,
    {
        assert(lv[i as int] == ls@[i as int]@);
        let l = to_lowercase(&ls[i]);
        if contains_str(&l, "intel") && contains_str(&l, "arc") {
            return true;
        }
        i += 1;
    }
    false
}

/// A `system_profiler SPDisplaysDataType` line naming an Apple Silicon GPU.
pub open spec fn apple_gpu_line(line: Seq<char>) -> bool {
    has_substring(str_lowercase(line), "apple m"@) || has_substring(
        str_lowercase(line),
        "apple gpu"@,
    )
}

/// Whether the display listing shows an Apple Silicon GPU (the chipset
/// line reads "Apple M..." or "Apple GPU"; discrete GPUs of older Macs do
/// not).
pub fn lists_apple_gpu(text: &str) -> (r: bool)
    ensures
        r == exists|i: int| 0 <= i < lines(text@).len() && apple_gpu_line(#[trigger] lines(text@)[i]),
{
    let ls = lines_of(&chars_of(text));
    let ghost lv = views(ls@);
    let mut i: usize = 0;
    while i < ls.len()
        invariant
            i <= ls@.len(),
            lv == views(ls@),
            lv == lines(text@),
            forall|j: int| 0 <= j < i ==> !apple_gpu_line(#[trigger] lv[j]),
        decreases ls@.len() - i,
    {
        assert(lv[i as int] == ls@[i as int]@);
        let l = to_lowercase(&ls[i]);
        if contains_str(&l, "apple m") || contains_str(&l, "apple gpu") {
            return true;
        }
        i += 1;
    }
    false
}

/// The NPU ids that `npu-smi info -l` lists: on each line mentioning
/// "NPU ID", the trimmed text after its last colon.
pub open spec fn npu_ids_of(ls: Seq<Seq<char>>) -> Seq<Seq<char>>
    decreases ls.len(),
{
    if ls.len() == 0 {
        Seq::empty()
    } else if has_substring(ls.last(), "NPU ID"@) {
        npu_ids_of(ls.drop_last()).push(trimmed(after_last(ls.last(), ':')))
    } else {
        npu_ids_of(ls.drop_last())
    }
}

/// The NPU ids listed by `npu-smi info -l`, in order.
pub fn npu_ids(list_text: &str) -> (r: Vec<String>)
    ensures
        string_views(r@) == npu_ids_of(lines(list_text@)),
{
    let ls = lines_of(&chars_of(list_text));
    let ghost lv = views(ls@);
    let mut out: Vec<String> = Vec::new();
    let mut i: usize = 0;
    assert(lv.subrange(0, 0) =~= Seq::<Seq<char>>::empty());
    while i < ls.len()
        invariant
            i <= ls@.len(),
            lv == views(ls@),
            lv == lines(list_text@),
            string_views(out@) == npu_ids_of(lv.subrange(0, i as int)),
        decreases ls@.len() - i,
    {
        assert(lv.subrange(0, i + 1).drop_last() =~= lv.subrange(0, i as int));
        assert(lv.subrange(0, i + 1).last() == ls@[i as int]@);
        if contains_str(&ls[i], "NPU ID") {
            let id = trim(&after_last_char(&ls[i], ':'));
            let ghost before = out@;
            out.push(string_of(&id));
            assert(string_views(out@) =~= string_views(before).push(id@));
        }
        i += 1;
    }
    assert(lv.subrange(0, i as int) =~= lv);
    out
}

/// The first number of a text (its first whitespace-separated word) when
/// it parses as a `u64`.
pub open spec fn first_word_number(t: Seq<char>) -> Option<u64> {
    if words(t).len() > 0 {
        parse_u64(words(t)[0])
    } else {
        None
    }
}

/// The first number of a text, as `first_word_number` reads it.
fn first_number(t: &Vec<char>) -> (r: Option<u64>)
    ensures
        r == first_word_number(t@),
{
    let ws = split_whitespace_of(t);
    if ws.len() > 0 {
        assert(views(ws@)[0] == ws@[0]@);
        parse_u64_chars(&ws[0])
    } else {
        None
    }
}

/// The index of the first line from `i` on that contains `pat`.
pub open spec fn first_line_containing(ls: Seq<Seq<char>>, pat: Seq<char>, i: int) -> Option<int>
    decreases ls.len() - i,
{
    if i < 0 || i >= ls.len() {
        None
    } else if has_substring(ls[i], pat) {
        Some(i)
    } else {
        first_line_containing(ls, pat, i + 1)
    }
}

/// The HBM capacity (MB) that `npu-smi info -t memory` reports: the first
/// number after the last colon of the first line mentioning "HBM
/// Capacity"; 0 when there is none or it does not parse.
pub open spec fn hbm_capacity_of(ls: Seq<Seq<char>>) -> u64 {
    match first_line_containing(ls, "HBM Capacity"@, 0) {
        Some(i) => match first_word_number(after_last(ls[i], ':')) {
            Some(v) => v,
            None => 0,
        },
        None => 0,
    }
}

/// The HBM capacity in MB from `npu-smi info -t memory` output (e.g. from
/// "HBM Capacity(MB) : 65536"), or 0.
pub fn hbm_capacity_mb(text: &str) -> (r: u64)
    ensures
        r == hbm_capacity_of(lines(text@)),
{
    let ls = lines_of(&chars_of(text));
    let ghost lv = views(ls@);
    let mut i: usize = 0;
    while i < ls.len()
        invariant
            i <= ls@.len(),
            lv == views(ls@),
            lv == lines(text@),
            first_line_containing(lv, "HBM Capacity"@, 0) == first_line_containing(
                lv,
                "HBM Capacity"@,
                i as int,
            ),
        decreases ls@.len() - i,
    {
        assert(lv[i as int] == ls@[i as int]@);
        if contains_str(&ls[i], "HBM Capacity") {
            let tail = after_last_char(&ls[i], ':');
            return match first_number(&tail) {
                Some(v) => v,
                None => 0,
            };
        }
        i += 1;
    }
    0
}

/// The `MemTotal` of `/proc/meminfo` in kB: the first number after the
/// prefix on the first line that starts with "MemTotal:".
pub open spec fn meminfo_total_of(ls: Seq<Seq<char>>, i: int) -> Option<u64>
    decreases ls.len() - i,
{
    if i < 0 || i >= ls.len() {
        None
    } else if has_prefix(ls[i], "MemTotal:"@) {
        first_word_number(ls[i].subrange(9, ls[i].len() as int))
    } else {
        meminfo_total_of(ls, i + 1)
    }
}

/// Total system RAM in kB as `/proc/meminfo` reports it.
pub fn meminfo_total_kb(text: &str) -> (r: Option<u64>)
    ensures
        r == meminfo_total_of(lines(text@), 0),
{
    let ls = lines_of(&chars_of(text));
    let ghost lv = views(ls@);
    let mut i: usize = 0;
    while i < ls.len()
        invariant
            i <= ls@.len(),
            lv == views(ls@),
            lv == lines(text@),
            meminfo_total_of(lv, 0) == meminfo_total_of(lv, i as int),
        decreases ls@.len() - i,
    {
        assert(lv[i as int] == ls@[i as int]@);
        if starts_with_str(&ls[i], "MemTotal:") {
            proof {
                reveal_strlit("MemTotal:");
            }
            let rest = slice_of(&ls[i], 9, ls[i].len());
            return first_number(&rest);
        }
        i += 1;
    }
    None
}

/// The physical memory total in bytes that the CIM query prints, when it
/// parses and is not 0.
pub fn physical_ram_bytes(text: &str) -> (r: Option<u64>)
    ensures
        r == (match parse_u64(trimmed(text@)) {
            Some(b) => if b > 0 {
                Some(b)
            } else {
                None
            },
            None => None,
        }),
{
    match parse_u64_chars(&trim(&chars_of(text))) {
        Some(b) => if b > 0 {
            Some(b)
        } else {
            None
        },
        None => None,
    }
}


/// The counters that `vm_stat` prints, in pages, and its page size in
/// bytes.
#[derive(Debug, Clone, Copy)]
pub struct VmStat {
    pub page_size: u64,
    pub free: u64,
    pub inactive: u64,
    pub purgeable: u64,
}

/// The page size that the first `vm_stat` line gives ("Mach Virtual Memory
/// Statistics: (page size of NNNNN bytes)"): the text after the first
/// "page size of ", up to any further one and then up to the first space,
/// as a `u64`; 16384 (the Apple Silicon page) when absent.
pub open spec fn page_size_of(ls: Seq<Seq<char>>) -> u64 {
    if ls.len() == 0 {
        16384
    } else {
        let line = ls[0];
        match find_from(line, "page size of "@, 0) {
            None => 16384,
            Some(k) => {
                let rest = line.subrange(k + 13, line.len() as int);
                let seg = match find_from(rest, "page size of "@, 0) {
                    Some(p) => rest.subrange(0, p),
                    None => rest,
                };
                match parse_u64(seg.subrange(0, first_of(seg, ' ', 0))) {
                    Some(v) => v,
                    None => 16384,
                }
            },
        }
    }
}

/// The free, inactive and purgeable page counts: each the value of the
/// last line that gives it (0 when none does).
pub open spec fn vm_counters(ls: Seq<Seq<char>>) -> (u64, u64, u64)
    decreases ls.len(),
{
    if ls.len() == 0 {
        (0, 0, 0)
    } else {
        let (f, i, p) = vm_counters(ls.drop_last());
        let l = ls.last();
        match vm_stat_value(l, "Pages free"@) {
            Some(v) => (v, i, p),
            None => match vm_stat_value(l, "Pages inactive"@) {
                Some(v) => (f, v, p),
                None => match vm_stat_value(l, "Pages purgeable"@) {
                    Some(v) => (f, i, v),
                    None => (f, i, p),
                },
            },
        }
    }
}

/// The page size from the first line, as `page_size_of` reads it.
fn page_size_from(ls: &Vec<Vec<char>>) -> (r: u64)
    ensures
        r == page_size_of(views(ls@)),
{
    if ls.len() == 0 {
        return 16384;
    }
    let line = &ls[0];
    assert(views(ls@)[0] == line@);
    let pat = chars_of("page size of ");
    proof {
        reveal_strlit("page size of ");
    }
    assert(pat@.len() == 13);
    let found = find_str_from(line, &pat, 0);
    match found {
        None => 16384,
        Some(k) => {
            let plen = pat.len();
            let n = line.len();
            let rest = slice_of(line, k + plen, n);
            let seg = match find_str_from(&rest, &pat, 0) {
                Some(p) => slice_of(&rest, 0, p),
                None => rest,
            };
            let sp = find_char_from(&seg, ' ', 0);
            proof {
                lemma_first_of(seg@, ' ', 0);
            }
            let word = slice_of(&seg, 0, sp);
            match parse_u64_chars(&word) {
                Some(v) => v,
                None => 16384,
            }
        },
    }
}

/// Read `vm_stat` output: the page size and the free, inactive and
/// purgeable page counts (the caller turns them into available memory).
pub fn parse_vm_stat(text: &str) -> (r: VmStat)
    ensures
        r.page_size == page_size_of(lines(text@)),
        (r.free, r.inactive, r.purgeable) == vm_counters(lines(text@)),
{
    let ls = lines_of(&chars_of(text));
    let ghost lv = views(ls@);
    let page_size = page_size_from(&ls);
    let mut free: u64 = 0;
    let mut inactive: u64 = 0;
    let mut purgeable: u64 = 0;
    let mut i: usize = 0;
    assert(lv.subrange(0, 0) =~= Seq::<Seq<char>>::empty());
    while i < ls.len()
        invariant
            i <= ls@.len(),
            lv == views(ls@),
            lv == lines(text@),
            (free, inactive, purgeable) == vm_counters(lv.subrange(0, i as int)),
        decreases ls@.len() - i,
    {
        assert(lv.subrange(0, i + 1).drop_last() =~= lv.subrange(0, i as int));
        assert(lv.subrange(0, i + 1).last() == ls@[i as int]@);
        let line = string_of(&ls[i]);
        match parse_vm_stat_line(line.as_str(), "Pages free") {
            Some(v) => {
                free = v;
            },
            None => match parse_vm_stat_line(line.as_str(), "Pages inactive") {
                Some(v) => {
                    inactive = v;
                },
                None => match parse_vm_stat_line(line.as_str(), "Pages purgeable") {
                    Some(v) => {
                        purgeable = v;
                    },
                    None => {},
                },
            },
        }
        i += 1;
    }
    assert(lv.subrange(0, i as int) =~= lv);
    VmStat { page_size, free, inactive, purgeable }
}

/// The adapter of a `wmic ... get Name,AdapterRAM /format:csv` row
/// (`Node,AdapterRAM,Name`, the name being all after the second comma), or
/// `None` for a blank row, one with fewer than three fields, or a virtual
/// adapter (Microsoft, basic or virtual display drivers).
pub open spec fn wmic_line_entry(line: Seq<char>) -> Option<(Seq<char>, u64)> {
    let t = trimmed(line);
    if t.len() == 0 {
        None
    } else {
        match split_once(t, ',') {
            None => None,
            Some(p) => match split_once(p.1, ',') {
                None => None,
                Some(q) => {
                    let raw: u64 = match parse_u64(trimmed(q.0)) {
                        Some(v) => v,
                        None => 0,
                    };
                    let name = trimmed(q.1);
                    let l = str_lowercase(name);
                    if has_substring(l, "microsoft"@) || has_substring(l, "basic"@)
                        || has_substring(l, "virtual"@) {
                        None
                    } else {
                        Some((name, raw))
                    }
                },
            },
        }
    }
}

/// The adapters of the CSV rows, in order.
pub open spec fn wmic_entries(ls: Seq<Seq<char>>) -> Seq<(Seq<char>, u64)>
    decreases ls.len(),
{
    if ls.len() == 0 {
        Seq::empty()
    } else {
        match wmic_line_entry(ls.last()) {
            Some(e) => wmic_entries(ls.drop_last()).push(e),
            None => wmic_entries(ls.drop_last()),
        }
    }
}

/// The CSV rows after the header line.
pub open spec fn csv_rows(text: Seq<char>) -> Seq<Seq<char>> {
    if lines(text).len() > 0 {
        lines(text).drop_first()
    } else {
        lines(text)
    }
}

/// A name that does not read as a virtual or basic display adapter.
pub open spec fn not_virtual_adapter(name: Seq<char>) -> bool {
    let l = str_lowercase(name);
    !has_substring(l, "microsoft"@) && !has_substring(l, "basic"@) && !has_substring(
        l,
        "virtual"@,
    )
}

/// No adapter the CSV rows list reads as virtual or basic.
proof fn lemma_wmic_entries_not_virtual(ls: Seq<Seq<char>>)
    ensures
        forall|k: int|
            0 <= k < wmic_entries(ls).len() ==> not_virtual_adapter(
                (#[trigger] wmic_entries(ls)[k]).0,
            ),
    decreases ls.len(),
{
    if ls.len() > 0 {
        lemma_wmic_entries_not_virtual(ls.drop_last());
        let prev = wmic_entries(ls.drop_last());
        match wmic_line_entry(ls.last()) {
            Some(e) => {
                assert forall|k: int| 0 <= k < prev.push(e).len() implies not_virtual_adapter(
                    (#[trigger] prev.push(e)[k]).0,
                ) by {
                    if k < prev.len() {
                        assert(prev.push(e)[k] == prev[k]);
                    }
                }
            },
            None => {},
        }
    }
}

/// The adapter of one CSV row, as `wmic_line_entry` reads it.
fn wmic_line(line: &Vec<char>) -> (r: Option<(Vec<char>, u64)>)
    ensures
        match r {
            Some((n, raw)) => wmic_line_entry(line@) == Some((n@, raw)),
            None => wmic_line_entry(line@) is None,
        },
{
    let t = trim(line);
    if t.len() == 0 {
        return None;
    }
    match split_once_char(&t, ',') {
        None => None,
        Some((_, rest)) => match split_once_char(&rest, ',') {
            None => None,
            Some((ram, name_part)) => {
                let raw: u64 = match parse_u64_chars(&trim(&ram)) {
                    Some(v) => v,
                    None => 0,
                };
                let name = trim(&name_part);
                let l = to_lowercase(&name);
                if contains_str(&l, "microsoft") || contains_str(&l, "basic") || contains_str(
                    &l,
                    "virtual",
                ) {
                    None
                } else {
                    Some((name, raw))
                }
            },
        },
    }
}

/// Parse the WMIC CSV listing of video controllers (after its header row)
/// into adapters with their inferred backend and resolved VRAM, skipping
/// virtual and basic display adapters.
pub fn parse_wmic_gpu_list(text: &str) -> (r: Vec<WindowsGpu>)
    ensures
        r@.len() == wmic_entries(csv_rows(text@)).len(),
        forall|i: int|
            0 <= i < r@.len() ==> {
                let e = #[trigger] wmic_entries(csv_rows(text@))[i];
                &&& r@[i].name@ == e.0
                &&& r@[i].backend == backend_for_name(str_lowercase(e.0))
                &&& r@[i].vram == wmi_vram(e.1, str_lowercase(e.0))
            },
        forall|i: int| 0 <= i < r@.len() ==> not_virtual_adapter((#[trigger] r@[i]).name@),
{
    proof {
        lemma_wmic_entries_not_virtual(csv_rows(text@));
    }
    let ls = lines_of(&chars_of(text));
    let ghost all = views(ls@);
    let ghost lv = csv_rows(text@);
    let mut out: Vec<WindowsGpu> = Vec::new();
    let first: usize = if ls.len() > 0 {
        1
    } else {
        0
    };
    let mut i: usize = first;
    assert(lv.subrange(0, 0) =~= Seq::<Seq<char>>::empty());
    while i < ls.len()
        invariant
            first <= i <= ls@.len(),
            all == views(ls@),
            all == lines(text@),
            lv == csv_rows(text@),
            first == (if ls@.len() > 0 {
                1int
            } else {
                0int
            }),
            lv.len() == ls@.len() - first,
            forall|k: int| 0 <= k < lv.len() ==> #[trigger] lv[k] == all[k + first],
            out@.len() == wmic_entries(lv.subrange(0, i - first)).len(),
            forall|k: int|
                0 <= k < out@.len() ==> {
                    let e = #[trigger] wmic_entries(lv.subrange(0, i - first))[k];
                    &&& out@[k].name@ == e.0
                    &&& out@[k].backend == backend_for_name(str_lowercase(e.0))
                    &&& out@[k].vram == wmi_vram(e.1, str_lowercase(e.0))
                },
        decreases ls@.len() - i,
    {
        let ghost j = i - first;
        let ghost prev = wmic_entries(lv.subrange(0, j));
        assert(lv.subrange(0, j + 1).drop_last() =~= lv.subrange(0, j));
        assert(lv.subrange(0, j + 1).last() == lv[j]);
        assert(lv[j] == ls@[i as int]@);
        match wmic_line(&ls[i]) {
            Some((name, raw)) => {
                let name_str = string_of(&name);
                let backend = infer_gpu_backend(name_str.as_str());
                let vram = resolve_wmi_vram(raw, name_str.as_str());
                out.push(WindowsGpu { name: name_str, backend, vram });
                proof {
                    let cur = wmic_entries(lv.subrange(0, j + 1));
                    assert(cur == prev.push((name@, raw)));
                    assert forall|k: int| 0 <= k < out@.len() implies {
                        let e = #[trigger] cur[k];
                        &&& out@[k].name@ == e.0
                        &&& out@[k].backend == backend_for_name(str_lowercase(e.0))
                        &&& out@[k].vram == wmi_vram(e.1, str_lowercase(e.0))
                    } by {
                        if k < prev.len() {
                            assert(cur[k] == prev[k]);
                        }
                    }
                }
            },
            None => {},
        }
        i += 1;
    }
    assert(lv.subrange(0, i - first) =~= lv);
    proof {
        assert forall|k: int| 0 <= k < out@.len() implies not_virtual_adapter(
            (#[trigger] out@[k]).name@,
        ) by {
            assert(out@[k].name@ == wmic_entries(csv_rows(text@))[k].0);
        }
    }
    out
}


/// The PCI slots that a sysfs `uevent` file names ("PCI_SLOT_NAME=..."
/// lines), in order.
pub open spec fn uevent_slots(ls: Seq<Seq<char>>) -> Seq<Seq<char>>
    decreases ls.len(),
{
    if ls.len() == 0 {
        Seq::empty()
    } else if has_prefix(ls.last(), "PCI_SLOT_NAME="@) {
        uevent_slots(ls.drop_last()).push(ls.last().subrange(14, ls.last().len() as int))
    } else {
        uevent_slots(ls.drop_last())
    }
}

/// A `uevent` line that names the NVIDIA driver ("DRIVER=nvidia", any
/// ASCII case).
pub open spec fn nvidia_driver_line(l: Seq<char>) -> bool {
    !has_prefix(l, "PCI_SLOT_NAME="@) && has_prefix(l, "DRIVER="@) && eq_ignore_ascii_case(
        l.subrange(7, l.len() as int),
        "nvidia"@,
    )
}

/// What a sysfs `uevent` file says of a card.
#[derive(Debug)]
pub struct UeventFacts {
    /// The PCI slots named, in order.
    pub slots: Vec<String>,
    /// Whether the NVIDIA driver is bound.
    pub nvidia_driver: bool,
}

/// Read a sysfs `uevent` file: its PCI slot names and whether the NVIDIA
/// driver is bound.
pub fn parse_uevent(text: &str) -> (r: UeventFacts)
    ensures
        string_views(r.slots@) == uevent_slots(lines(text@)),
        r.nvidia_driver == exists|i: int|
            0 <= i < lines(text@).len() && nvidia_driver_line(#[trigger] lines(text@)[i]),
{
    let ls = lines_of(&chars_of(text));
    let ghost lv = views(ls@);
    let mut slots: Vec<String> = Vec::new();
    let mut nvidia_driver = false;
    let mut i: usize = 0;
    proof {
        reveal_strlit("PCI_SLOT_NAME=");
        reveal_strlit("DRIVER=");
    }
    assert(lv.subrange(0, 0) =~= Seq::<Seq<char>>::empty());
    while i < ls.len()
        invariant
            i <= ls@.len(),
            lv == views(ls@),
            lv == lines(text@),
            "PCI_SLOT_NAME="@.len() == 14,
            "DRIVER="@.len() == 7,
            string_views(slots@) == uevent_slots(lv.subrange(0, i as int)),
            nvidia_driver == exists|j: int| 0 <= j < i && nvidia_driver_line(#[trigger] lv[j]),
        decreases ls@.len() - i,
    {
        let line = &ls[i];
        assert(lv[i as int] == line@);
        assert(lv.subrange(0, i + 1).drop_last() =~= lv.subrange(0, i as int));
        assert(lv.subrange(0, i + 1).last() == line@);
        let n = line.len();
        if starts_with_str(line, "PCI_SLOT_NAME=") {
            let slot = slice_of(line, 14, n);
            let ghost before = slots@;
            slots.push(string_of(&slot));
            assert(string_views(slots@) =~= string_views(before).push(slot@));
        } else if starts_with_str(line, "DRIVER=") {
            let driver = slice_of(line, 7, n);
            if eq_ignore_ascii_case_str(&driver, "nvidia") {
                nvidia_driver = true;
            }
        }
        i += 1;
    }
    assert(lv.subrange(0, i as int) =~= lv);
    UeventFacts { slots, nvidia_driver }
}

/// A `/sys/class/drm` entry as read: its file name and, where they could be
/// read, its device's `vendor`, `mem_info_vram_total` and `uevent` files.
#[derive(Debug)]
pub struct DrmCard {
    pub name: String,
    pub vendor: Option<String>,
    pub vram_total: Option<String>,
    pub uevent: Option<String>,
}

/// A card entry ("cardN"), not a connector ("cardN-DP-1").
pub open spec fn drm_card_name(n: Seq<char>) -> bool {
    has_prefix(n, "card"@) && !n.contains('-')
}

/// The card's vendor file reads `id` once trimmed.
pub open spec fn vendor_is(c: DrmCard, id: Seq<char>) -> bool {
    match c.vendor {
        Some(v) => trimmed(v@) == id,
        None => false,
    }
}

/// The VRAM bytes the card reports (0 when unread or unparsable).
pub open spec fn card_vram_bytes(c: DrmCard) -> u64 {
    match c.vram_total {
        Some(t) => match parse_u64(trimmed(t@)) {
            Some(b) => b,
            None => 0,
        },
        None => 0,
    }
}

/// The lines of the card's `uevent` file (none when unread).
pub open spec fn uevent_lines(c: DrmCard) -> Seq<Seq<char>> {
    match c.uevent {
        Some(u) => lines(u@),
        None => Seq::empty(),
    }
}

/// Is `c` an NVIDIA card entry?
pub open spec fn nvidia_card(c: DrmCard) -> bool {
    drm_card_name(c.name@) && vendor_is(c, "0x10de"@)
}

/// Over the NVIDIA cards: how many, the largest VRAM any reports, the PCI
/// slots their `uevent` files name, and whether any has the NVIDIA driver.
pub open spec fn nvidia_scan(cs: Seq<DrmCard>) -> (nat, u64, Seq<Seq<char>>, bool)
    decreases cs.len(),
{
    if cs.len() == 0 {
        (0, 0, Seq::empty(), false)
    } else {
        let (n, m, s, d) = nvidia_scan(cs.drop_last());
        let c = cs.last();
        if nvidia_card(c) {
            (
                n + 1,
                if card_vram_bytes(c) > m {
                    card_vram_bytes(c)
                } else {
                    m
                },
                s + uevent_slots(uevent_lines(c)),
                d || exists|i: int|
                    0 <= i < uevent_lines(c).len() && nvidia_driver_line(
                        #[trigger] uevent_lines(c)[i],
                    ),
            )
        } else {
            (n, m, s, d)
        }
    }
}

/// The NVIDIA cards that sysfs shows.
#[derive(Debug)]
pub struct SysfsNvidia {
    pub count: u32,
    /// The largest per-card VRAM reported (never a sum), 0 when none is.
    pub max_vram_bytes: u64,
    pub slot_hints: Vec<String>,
    /// The NVIDIA driver is bound (CUDA is usable), rather than only Vulkan.
    pub nvidia_driver: bool,
}

/// Does the card's trimmed vendor file read `id`?
fn card_vendor_is(c: &DrmCard, id: &str) -> (r: bool)
    ensures
        r == vendor_is(*c, id@),
{
    match &c.vendor {
        Some(v) => eq_str(&trim(&chars_of(v.as_str())), id),
        None => false,
    }
}

/// Is the entry a card rather than a connector?
fn is_drm_card(c: &DrmCard) -> (r: bool)
    ensures
        r == drm_card_name(c.name@),
{
    let n = chars_of(c.name.as_str());
    proof {
        reveal_strlit("card");
    }
    if !starts_with_str(&n, "card") {
        return false;
    }
    let k = find_char_from(&n, '-', 0);
    proof {
        lemma_first_of(n@, '-', 0);
        if n@.contains('-') {
            let j = choose|j: int| 0 <= j < n@.len() && n@[j] == '-';
            assert(k <= j);
        }
    }
    k == n.len()
}

/// The VRAM bytes a card reports, as `card_vram_bytes` reads them.
fn card_vram(c: &DrmCard) -> (r: u64)
    ensures
        r == card_vram_bytes(*c),
{
    match &c.vram_total {
        Some(t) => match parse_u64_chars(&trim(&chars_of(t.as_str()))) {
            Some(b) => b,
            None => 0,
        },
        None => 0,
    }
}

/// Scan the DRM entries for NVIDIA cards (vendor 0x10de): their count, the
/// largest per-card VRAM, the PCI slots named and whether the NVIDIA driver
/// is bound; `None` when there is no NVIDIA card.
pub fn scan_nvidia_sysfs(cards: &Vec<DrmCard>) -> (r: Option<SysfsNvidia>)
    requires
        cards@.len() <= u32::MAX,
    ensures
        ({
            let (n, m, s, d) = nvidia_scan(cards@);
            match r {
                Some(x) => n > 0 && x.count == n && x.max_vram_bytes == m && string_views(
                    x.slot_hints@,
                ) == s && x.nvidia_driver == d,
                None => n == 0,
            }
        }),
{
    let mut count: u32 = 0;
    let mut max_vram: u64 = 0;
    let mut slots: Vec<String> = Vec::new();
    let mut driver = false;
    let mut i: usize = 0;
    assert(cards@.subrange(0, 0) =~= Seq::<DrmCard>::empty());
    while i < cards.len()
        invariant
            i <= cards@.len() <= u32::MAX,
            count <= i,
            (count as nat, max_vram, string_views(slots@), driver) == nvidia_scan(
                cards@.subrange(0, i as int),
            ),
        decreases cards@.len() - i,
    {
        let c = &cards[i];
        assert(cards@.subrange(0, i + 1).drop_last() =~= cards@.subrange(0, i as int));
        assert(cards@.subrange(0, i + 1).last() == *c);
        if is_drm_card(c) && card_vendor_is(c, "0x10de") {
            count = count + 1;
            let v = card_vram(c);
            if v > max_vram {
                max_vram = v;
            }
            match &c.uevent {
                Some(u) => {
                    let facts = parse_uevent(u.as_str());
                    let ghost before = slots@;
                    let mut k: usize = 0;
                    while k < facts.slots.len()
                        invariant
                            k <= facts.slots@.len(),
                            string_views(slots@) == string_views(before) + string_views(
                                facts.slots@,
                            ).subrange(0, k as int),
                        decreases facts.slots@.len() - k,
                    {
                        let ghost mid = slots@;
                        slots.push(facts.slots[k].clone());
                        assert(string_views(slots@) =~= string_views(mid).push(
                            facts.slots@[k as int]@,
                        ));
                        k += 1;
                        assert(string_views(slots@) =~= string_views(before) + string_views(
                            facts.slots@,
                        ).subrange(0, k as int));
                    }
                    assert(string_views(facts.slots@).subrange(0, k as int) =~= string_views(
                        facts.slots@,
                    ));
                    if facts.nvidia_driver {
                        driver = true;
                    }
                },
                None => {
                    assert(string_views(slots@) =~= string_views(slots@) + Seq::<
                        Seq<char>,
                    >::empty());
                    assert(uevent_slots(Seq::<Seq<char>>::empty()) =~= Seq::<Seq<char>>::empty());
                },
            }
        }
        i += 1;
    }
    assert(cards@.subrange(0, i as int) =~= cards@);
    if count == 0 {
        None
    } else {
        Some(SysfsNvidia { count, max_vram_bytes: max_vram, slot_hints: slots, nvidia_driver: driver })
    }
}

/// The first AMD card entry (vendor 0x1002) from `i` on: its reported VRAM
/// bytes (0 when none) and the PCI slots its `uevent` names.
pub open spec fn first_amd_card(cs: Seq<DrmCard>, i: int) -> Option<(u64, Seq<Seq<char>>)>
    decreases cs.len() - i,
{
    if i < 0 || i >= cs.len() {
        None
    } else if drm_card_name(cs[i].name@) && vendor_is(cs[i], "0x1002"@) {
        Some((card_vram_bytes(cs[i]), uevent_slots(uevent_lines(cs[i]))))
    } else {
        first_amd_card(cs, i + 1)
    }
}

/// The first AMD card that sysfs shows.
#[derive(Debug)]
pub struct SysfsAmd {
    /// The VRAM bytes reported, 0 when none is.
    pub vram_bytes: u64,
    pub slot_hints: Vec<String>,
}

/// Find the first AMD card (vendor 0x1002) among the DRM entries, with its
/// reported VRAM and the PCI slots its `uevent` names.
pub fn scan_amd_sysfs(cards: &Vec<DrmCard>) -> (r: Option<SysfsAmd>)
    ensures
        match r {
            Some(x) => first_amd_card(cards@, 0) == Some((x.vram_bytes, string_views(x.slot_hints@))),
            None => first_amd_card(cards@, 0) is None,
        },
{
    let mut i: usize = 0;
    while i < cards.len()
        invariant
            i <= cards@.len(),
            first_amd_card(cards@, 0) == first_amd_card(cards@, i as int),
        decreases cards@.len() - i,
    {
        let c = &cards[i];
        if is_drm_card(c) && card_vendor_is(c, "0x1002") {
            let vram_bytes = card_vram(c);
            let slot_hints = match &c.uevent {
                Some(u) => parse_uevent(u.as_str()).slots,
                None => Vec::new(),
            };
            proof {
                if c.uevent is None {
                    assert(string_views(slot_hints@) =~= Seq::<Seq<char>>::empty());
                }
            }
            return Some(SysfsAmd { vram_bytes, slot_hints });
        }
        i += 1;
    }
    None
}

/// The per-card VRAM for reported bytes: those when positive, else the
/// estimate from the name (MiB) when there is one.
pub open spec fn reported_or_estimated(bytes: u64, l: Seq<char>) -> Option<VramAmount> {
    if bytes > 0 {
        Some(VramAmount::Bytes(bytes))
    } else if vram_estimate_of(l) > 0 {
        Some(VramAmount::Mib(vram_estimate_of(l)))
    } else {
        None
    }
}

/// The VRAM of a card found through sysfs: the reported bytes, or when none
/// were reported the estimate from its name.
pub fn vram_or_estimate(bytes: u64, name: &str) -> (r: Option<VramAmount>)
    ensures
        r == reported_or_estimated(bytes, str_lowercase(name@)),
{
    if bytes > 0 {
        return Some(VramAmount::Bytes(bytes));
    }
    let est = estimate_vram_from_name(name);
    if est > 0 {
        Some(VramAmount::Mib(est))
    } else {
        None
    }
}

/// An Intel GPU as sysfs and `lspci` show it.
#[derive(Debug, Clone, Copy, PartialEq, Eq, Structural)]
pub enum IntelGpu {
    /// A card reporting this many bytes of VRAM (discrete Arc).
    Vram(u64),
    /// An Arc GPU that shares system memory.
    Integrated,
    NotFound,
}

/// Walks the DRM entries from `i` on: an entry whose vendor file reads
/// other than Intel (0x8086) is skipped (one without a vendor file is
/// not); the first other entry gives its VRAM when it reports some, else
/// an Arc GPU listed by `lspci` is taken as integrated; past the end, that
/// listing alone decides.
pub open spec fn intel_scan(cs: Seq<DrmCard>, arc_listed: bool, i: int) -> IntelGpu
    decreases cs.len() - i,
{
    if i < 0 || i >= cs.len() {
        if arc_listed {
            IntelGpu::Integrated
        } else {
            IntelGpu::NotFound
        }
    } else if (match cs[i].vendor {
        Some(v) => trimmed(v@) != "0x8086"@,
        None => false,
    }) {
        intel_scan(cs, arc_listed, i + 1)
    } else if card_vram_bytes(cs[i]) > 0 {
        IntelGpu::Vram(card_vram_bytes(cs[i]))
    } else if arc_listed {
        IntelGpu::Integrated
    } else {
        intel_scan(cs, arc_listed, i + 1)
    }
}

/// Detect an Intel GPU from the DRM entries and the `lspci` listing (when
/// it could be read): a card with VRAM (discrete Arc), an integrated Arc,
/// or none.
pub fn detect_intel_gpu(cards: &Vec<DrmCard>, lspci_text: Option<&str>) -> (r: IntelGpu)
    ensures
        r == intel_scan(
            cards@,
            match lspci_text {
                Some(t) => exists|i: int|
                    0 <= i < lines(t@).len() && intel_arc_line(#[trigger] lines(t@)[i]),
                None => false,
            },
            0,
        ),
{
    let arc = match lspci_text {
        Some(t) => lspci_lists_intel_arc(t),
        None => false,
    };
    let mut i: usize = 0;
    while i < cards.len()
        invariant
            i <= cards@.len(),
            intel_scan(cards@, arc, 0) == intel_scan(cards@, arc, i as int),
            arc == match lspci_text {
                Some(t) => exists|i: int|
                    0 <= i < lines(t@).len() && intel_arc_line(#[trigger] lines(t@)[i]),
                None => false,
            },
        decreases cards@.len() - i,
    {
        let c = &cards[i];
        assert(*c == cards@[i as int]);
        let other_vendor = match &c.vendor {
            Some(v) => !eq_str(&trim(&chars_of(v.as_str())), "0x8086"),
            None => false,
        };
        assert(other_vendor == (match cards@[i as int].vendor {
            Some(v) => trimmed(v@) != "0x8086"@,
            None => false,
        }));
        if !other_vendor {
            let v = card_vram(c);
            if v > 0 {
                return IntelGpu::Vram(v);
            }
            if arc {
                return IntelGpu::Integrated;
            }
        }
        i += 1;
    }
    if arc {
        IntelGpu::Integrated
    } else {
        IntelGpu::NotFound
    }
}


/// The device names that are not software renderers, in order.
pub open spec fn hardware_names(ns: Seq<Seq<char>>) -> Seq<Seq<char>>
    decreases ns.len(),
{
    if ns.len() == 0 {
        Seq::empty()
    } else if software_vulkan_name(str_lowercase(ns.last())) {
        hardware_names(ns.drop_last())
    } else {
        hardware_names(ns.drop_last()).push(ns.last())
    }
}

/// How many times `x` occurs.
pub open spec fn name_count(ns: Seq<Seq<char>>, x: Seq<char>) -> nat
    decreases ns.len(),
{
    if ns.len() == 0 {
        0
    } else {
        name_count(ns.drop_last(), x) + if ns.last() == x {
            1nat
        } else {
            0nat
        }
    }
}

/// A device name and how many devices carry it.
#[derive(Debug)]
pub struct NameCount {
    pub name: String,
    pub count: usize,
}

/// The counts are strictly sorted by name, each counts exactly the
/// occurrences of its name (at least one), and every name has a count.
pub open spec fn counted_by_name(t: Seq<NameCount>, ns: Seq<Seq<char>>) -> bool {
    &&& forall|a: int, b: int| 0 <= a < b < t.len() ==> lex_lt(t[a].name@, t[b].name@)
    &&& forall|g: int|
        0 <= g < t.len() ==> (#[trigger] t[g]).count == name_count(ns, t[g].name@) && t[g].count > 0
    &&& forall|j: int| 0 <= j < ns.len() ==> exists|g: int| 0 <= g < t.len() && (#[trigger] t[g]).name@ == (#[trigger] ns[j])
}

/// No kept name is a software renderer's.
proof fn lemma_hardware_names(ns: Seq<Seq<char>>)
    ensures
        forall|j: int|
            0 <= j < hardware_names(ns).len() ==> !software_vulkan_name(
                str_lowercase(#[trigger] hardware_names(ns)[j]),
            ),
    decreases ns.len(),
{
    if ns.len() > 0 {
        lemma_hardware_names(ns.drop_last());
        let prev = hardware_names(ns.drop_last());
        if !software_vulkan_name(str_lowercase(ns.last())) {
            assert forall|j: int| 0 <= j < prev.push(ns.last()).len() implies !software_vulkan_name(
                str_lowercase(#[trigger] prev.push(ns.last())[j]),
            ) by {
                if j < prev.len() {
                    assert(prev.push(ns.last())[j] == prev[j]);
                }
            }
        }
    }
}

/// A name occurs at most as often as there are names.
proof fn lemma_name_count_bound(ns: Seq<Seq<char>>, x: Seq<char>)
    ensures
        name_count(ns, x) <= ns.len(),
        name_count(ns, x) > 0 ==> exists|j: int| 0 <= j < ns.len() && ns[j] == x,
    decreases ns.len(),
{
    if ns.len() > 0 {
        lemma_name_count_bound(ns.drop_last(), x);
        if name_count(ns.drop_last(), x) > 0 {
            let j = choose|j: int| 0 <= j < ns.drop_last().len() && ns.drop_last()[j] == x;
            assert(ns[j] == x);
        } else if ns.last() == x {
            assert(ns[ns.len() - 1] == x);
        }
    }
}

/// Counts one more occurrence of `name`, keeping the counts sorted.
fn add_name(groups: &mut Vec<NameCount>, name: Vec<char>, Ghost(ns): Ghost<Seq<Seq<char>>>)
    requires
        counted_by_name(old(groups)@, ns),
        ns.len() < usize::MAX,
    ensures
        counted_by_name(final(groups)@, ns.push(name@)),
{
    let ghost e = ns.push(name@);
    let ghost t_old = groups@;
    assert(e.drop_last() =~= ns);
    assert(e.last() == name@);
    proof {
        lemma_name_count_bound(ns, name@);
    }
    let mut k: usize = 0;
    while k < groups.len() && lex_less(&chars_of(groups[k].name.as_str()), &name)
        invariant
            k <= groups@.len(),
            groups@ == t_old,
            forall|g: int| 0 <= g < k ==> lex_lt(t_old[g].name@, name@),
        decreases groups@.len() - k,
    {
        k += 1;
    }
    if k < groups.len() && eq_str(&name, groups[k].name.as_str()) {
        let mut grp = groups.remove(k);
        grp.count = grp.count + 1;
        groups.insert(k, grp);
        proof {
            assert(groups@ =~= t_old.update(k as int, grp));
            assert forall|g: int| 0 <= g < t_old.len() && g != k implies t_old[g].name@ != name@ by {
                if g < k {
                    lemma_lex_irreflexive(name@);
                } else {
                    lemma_lex_irreflexive(t_old[g].name@);
                }
            }
            assert forall|g: int| 0 <= g < groups@.len() implies (#[trigger] groups@[g]).count
                == name_count(e, groups@[g].name@) && groups@[g].count > 0 by {
                if g != k {
                    assert(groups@[g] == t_old[g]);
                }
            }
            assert forall|j: int| 0 <= j < e.len() implies exists|g: int|
                0 <= g < groups@.len() && (#[trigger] groups@[g]).name@ == (#[trigger] e[j]) by {
                if j < ns.len() {
                    assert(e[j] == ns[j]);
                    let g = choose|g: int| 0 <= g < t_old.len() && (#[trigger] t_old[g]).name@ == ns[j];
                    assert(groups@[g].name@ == t_old[g].name@);
                } else {
                    assert(groups@[k as int].name@ == e[j]);
                }
            }
        }
    } else {
        proof {
            if k < t_old.len() {
                lemma_lex_total(t_old[k as int].name@, name@);
            }
            assert forall|g: int| 0 <= g < t_old.len() implies t_old[g].name@ != name@ && (g >= k
                ==> lex_lt(name@, t_old[g].name@)) by {
                if g < k {
                    lemma_lex_irreflexive(name@);
                } else {
                    if g > k {
                        lemma_lex_transitive(name@, t_old[k as int].name@, t_old[g].name@);
                    }
                    lemma_lex_total(name@, t_old[g].name@);
                }
            }
            if name_count(ns, name@) > 0 {
                let j = choose|j: int| 0 <= j < ns.len() && ns[j] == name@;
                let g = choose|g: int| 0 <= g < t_old.len() && (#[trigger] t_old[g]).name@ == ns[j];
                assert(false);
            }
        }
        let grp = NameCount { name: string_of(&name), count: 1 };
        groups.insert(k, grp);
        proof {
            assert(groups@ == t_old.insert(k as int, grp));
            assert forall|a: int, b: int|
                0 <= a < b < groups@.len() implies lex_lt(groups@[a].name@, groups@[b].name@) by {
                if b < k {
                } else if b == k {
                } else if a < k {
                    assert(groups@[b] == t_old[b - 1]);
                    lemma_lex_transitive(groups@[a].name@, name@, t_old[b - 1].name@);
                } else if a == k {
                    assert(groups@[b] == t_old[b - 1]);
                } else {
                    assert(groups@[a] == t_old[a - 1]);
                    assert(groups@[b] == t_old[b - 1]);
                }
            }
            assert forall|g: int| 0 <= g < groups@.len() implies (#[trigger] groups@[g]).count
                == name_count(e, groups@[g].name@) && groups@[g].count > 0 by {
                if g < k {
                    assert(groups@[g] == t_old[g]);
                } else if g > k {
                    assert(groups@[g] == t_old[g - 1]);
                }
            }
            assert forall|j: int| 0 <= j < e.len() implies exists|g: int|
                0 <= g < groups@.len() && (#[trigger] groups@[g]).name@ == (#[trigger] e[j]) by {
                if j < ns.len() {
                    assert(e[j] == ns[j]);
                    let g = choose|g: int| 0 <= g < t_old.len() && (#[trigger] t_old[g]).name@ == ns[j];
                    if g < k {
                        assert(groups@[g] == t_old[g]);
                    } else {
                        assert(groups@[g + 1] == t_old[g]);
                    }
                } else {
                    assert(groups@[k as int].name@ == e[j]);
                }
            }
        }
    }
}

/// The Vulkan devices that `vulkaninfo` lists, software renderers left
/// out, grouped by name (sorted) with how many devices carry each name.
pub fn vulkan_gpu_groups(text: &str) -> (r: Vec<NameCount>)
    ensures
        counted_by_name(r@, hardware_names(vulkan_names(lines(text@)))),
        forall|g: int| 0 <= g < r@.len() ==> !software_vulkan_name(str_lowercase((#[trigger] r@[g]).name@)),
{
    let names = parse_vulkan_device_names(text);
    let ghost nv = string_views(names@);
    let mut groups: Vec<NameCount> = Vec::new();
    let ghost mut kept: Seq<Seq<char>> = Seq::empty();
    let mut i: usize = 0;
    assert(nv.subrange(0, 0) =~= Seq::<Seq<char>>::empty());
    while i < names.len()
        invariant
            i <= names@.len(),
            nv == string_views(names@),
            nv == vulkan_names(lines(text@)),
            kept == hardware_names(nv.subrange(0, i as int)),
            kept.len() <= i,
            counted_by_name(groups@, kept),
        decreases names@.len() - i,
    {
        assert(nv.subrange(0, i + 1).drop_last() =~= nv.subrange(0, i as int));
        assert(nv.subrange(0, i + 1).last() == names@[i as int]@);
        if !is_software_vulkan_device(names[i].as_str()) {
            let n = chars_of(names[i].as_str());
            add_name(&mut groups, n, Ghost(kept));
            proof {
                kept = kept.push(n@);
            }
        }
        i += 1;
    }
    assert(nv.subrange(0, i as int) =~= nv);
    proof {
        lemma_hardware_names(nv);
        assert forall|g: int| 0 <= g < groups@.len() implies !software_vulkan_name(
            str_lowercase((#[trigger] groups@[g]).name@),
        ) by {
            lemma_name_count_bound(kept, groups@[g].name@);
            let j = choose|j: int| 0 <= j < kept.len() && kept[j] == groups@[g].name@;
            assert(kept[j] == hardware_names(nv)[j]);
        }
    }
    groups
}


/// A usable CPU brand: once trimmed, non-empty and not "unknown" in any
/// ASCII case.
pub open spec fn usable_brand(b: Seq<char>) -> bool {
    trimmed(b).len() > 0 && !eq_ignore_ascii_case(trimmed(b), "unknown"@)
}

/// The first CPU brand string that is usable, trimmed.
pub fn first_cpu_brand(brands: &Vec<String>) -> (r: Option<String>)
    ensures
        match r {
            Some(b) => exists|i: int|
                0 <= i < brands@.len() && usable_brand(brands@[i]@) && b@ == trimmed(brands@[i]@)
                    && forall|j: int| 0 <= j < i ==> !usable_brand(#[trigger] brands@[j]@),
            None => forall|j: int| 0 <= j < brands@.len() ==> !usable_brand(#[trigger] brands@[j]@),
        },
{
    let mut i: usize = 0;
    while i < brands.len()
        invariant
            i <= brands@.len(),
            forall|j: int| 0 <= j < i ==> !usable_brand(#[trigger] brands@[j]@),
        decreases brands@.len() - i,
    {
        let t = trim(&chars_of(brands[i].as_str()));
        if t.len() > 0 && !eq_ignore_ascii_case_str(&t, "unknown") {
            return Some(string_of(&t));
        }
        i += 1;
    }
    None
}

/// The SoC model that `getprop ro.soc.model` prints, trimmed, when not
/// empty.
pub fn soc_model_name(text: &str) -> (r: Option<String>)
    ensures
        match r {
            Some(m) => trimmed(text@).len() > 0 && m@ == trimmed(text@),
            None => trimmed(text@).len() == 0,
        },
{
    let t = trim(&chars_of(text));
    if t.len() == 0 {
        None
    } else {
        Some(string_of(&t))
    }
}

} // verus!
