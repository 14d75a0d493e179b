//! Reading `rocm-smi` output: per-GPU VRAM and product names, integrated
//! GPUs dropped when discrete ones are present, identical models grouped.
use vstd::prelude::*;
use crate::hardware::{estimate_vram_from_name, vram_estimate_of};
use crate::text::{
    after_last, after_last_char, chars_of, contains_str, eq_chars, has_substring, lemma_lex_irreflexive,
    lemma_lex_total, lemma_lex_transitive, lex_less, lex_lt, lines, lines_of, parse_u64,
    parse_u64_chars, split_whitespace_of, str_lowercase, string_of, to_lowercase, trim, trimmed,
    views, words,
};

verus! {

/// The last word of a line that parses as a `u64`.
pub open spec fn last_number(ws: Seq<Seq<char>>) -> Option<u64>
    decreases ws.len(),
{
    if ws.len() == 0 {
        None
    } else {
        match parse_u64(ws.last()) {
            Some(v) => Some(v),
            None => last_number(ws.drop_last()),
        }
    }
}

/// The VRAM total that a `--showmeminfo vram` line reports: on lines
/// mentioning "total" but not "used", the last number, when positive.
pub open spec fn vram_line_value(line: Seq<char>) -> Option<u64> {
    let l = str_lowercase(line);
    if has_substring(l, "total"@) && !has_substring(l, "used"@) {
        match last_number(words(line)) {
            Some(v) => if v > 0 {
                Some(v)
            } else {
                None
            },
            None => None,
        }
    } else {
        None
    }
}

/// The VRAM totals reported, one per GPU, in order.
pub open spec fn vram_values(ls: Seq<Seq<char>>) -> Seq<u64>
    decreases ls.len(),
{
    if ls.len() == 0 {
        Seq::empty()
    } else {
        match vram_line_value(ls.last()) {
            Some(v) => vram_values(ls.drop_last()).push(v),
            None => vram_values(ls.drop_last()),
        }
    }
}

/// The product name on a `--showproductname` "Card Series" line: the
/// trimmed text after its last `:`, when non-empty.
pub open spec fn product_line_name(line: Seq<char>) -> Option<Seq<char>> {
    if has_substring(str_lowercase(line), "card series"@) {
        let n = trimmed(after_last(line, ':'));
        if n.len() > 0 {
            Some(n)
        } else {
            None
        }
    } else {
        None
    }
}

/// The product names reported, one per GPU, in order.
pub open spec fn product_names(ls: Seq<Seq<char>>) -> Seq<Seq<char>>
    decreases ls.len(),
{
    if ls.len() == 0 {
        Seq::empty()
    } else {
        match product_line_name(ls.last()) {
            Some(n) => product_names(ls.drop_last()).push(n),
            None => product_names(ls.drop_last()),
        }
    }
}

/// GPUs with at most this much VRAM (2 GiB) count as integrated when a
/// discrete GPU is present.
pub open spec fn igpu_vram_threshold() -> u64 {
    2147483648
}

/// Some GPU reports more VRAM than an integrated one would.
pub open spec fn has_discrete_vram(vrams: Seq<u64>) -> bool {
    exists|i: int| 0 <= i < vrams.len() && vrams[i] > igpu_vram_threshold()
}

/// The name and VRAM of the GPU at position `i` ("AMD GPU" and 0 where a
/// list runs short).
pub open spec fn rocm_entry(vrams: Seq<u64>, names: Seq<Seq<char>>, i: int) -> (Seq<char>, u64) {
    (
        if i < names.len() {
            names[i]
        } else {
            "AMD GPU"@
        },
        if i < vrams.len() {
            vrams[i]
        } else {
            0
        },
    )
}

/// The GPUs at positions before `i` that are kept (integrated ones are
/// dropped when a discrete GPU is present).
pub open spec fn rocm_entries_upto(vrams: Seq<u64>, names: Seq<Seq<char>>, i: int) -> Seq<
    (Seq<char>, u64),
>
    decreases i,
{
    if i <= 0 {
        Seq::empty()
    } else {
        let prev = rocm_entries_upto(vrams, names, i - 1);
        let e = rocm_entry(vrams, names, i - 1);
        if has_discrete_vram(vrams) && e.1 <= igpu_vram_threshold() {
            prev
        } else {
            prev.push(e)
        }
    }
}

/// The number of GPUs reported: the longer of the two lists.
pub open spec fn rocm_gpu_count(vrams: Seq<u64>, names: Seq<Seq<char>>) -> int {
    if vrams.len() >= names.len() {
        vrams.len() as int
    } else {
        names.len() as int
    }
}

/// All GPUs kept.
pub open spec fn rocm_entries(vrams: Seq<u64>, names: Seq<Seq<char>>) -> Seq<(Seq<char>, u64)> {
    rocm_entries_upto(vrams, names, rocm_gpu_count(vrams, names))
}

/// How many entries carry the name `x`.
pub open spec fn count_named(e: Seq<(Seq<char>, u64)>, x: Seq<char>) -> nat
    decreases e.len(),
{
    if e.len() == 0 {
        0
    } else {
        count_named(e.drop_last(), x) + if e.last().0 == x {
            1nat
        } else {
            0nat
        }
    }
}

/// The largest VRAM among entries named `x` (0 when there are none).
pub open spec fn max_named(e: Seq<(Seq<char>, u64)>, x: Seq<char>) -> u64
    decreases e.len(),
{
    if e.len() == 0 {
        0
    } else {
        let m = max_named(e.drop_last(), x);
        if e.last().0 == x && e.last().1 > m {
            e.last().1
        } else {
            m
        }
    }
}

/// An entry named `x` exists when the count is positive; with none, the
/// maximum is 0.
proof fn lemma_count_named(e: Seq<(Seq<char>, u64)>, x: Seq<char>)
    ensures
        count_named(e, x) > 0 ==> exists|j: int| 0 <= j < e.len() && (#[trigger] e[j]).0 == x,
        count_named(e, x) == 0 ==> max_named(e, x) == 0,
    decreases e.len(),
{
    if e.len() > 0 {
        lemma_count_named(e.drop_last(), x);
        if count_named(e.drop_last(), x) > 0 {
            let j = choose|j: int| 0 <= j < e.drop_last().len() && (#[trigger] e.drop_last()[j]).0 == x;
            assert(e[j] == e.drop_last()[j]);
        } else if e.last().0 == x {
            assert(e[e.len() - 1] == e.last());
        }
    }
}

/// Later prefixes of the kept GPUs extend earlier ones, so counts only grow.
proof fn lemma_count_upto_monotone(
    vrams: Seq<u64>,
    names: Seq<Seq<char>>,
    i: int,
    j: int,
    x: Seq<char>,
)
    requires
        0 <= i <= j,
    ensures
        count_named(rocm_entries_upto(vrams, names, i), x) <= count_named(
            rocm_entries_upto(vrams, names, j),
            x,
        ),
    decreases j - i,
{
    if i < j {
        lemma_count_upto_monotone(vrams, names, i, j - 1, x);
        let prev = rocm_entries_upto(vrams, names, j - 1);
        let e = rocm_entry(vrams, names, j - 1);
        if !(has_discrete_vram(vrams) && e.1 <= igpu_vram_threshold()) {
            assert(prev.push(e).drop_last() =~= prev);
        }
    }
}

/// A group of identical GPU models.
#[derive(Debug, Clone)]
pub struct GpuGroup {
    /// The product name ("AMD GPU" when rocm-smi gives none).
    pub name: String,
    /// How many GPUs of this model there are.
    pub count: u32,
    /// Per-card VRAM in bytes: the largest reported, else the estimate from
    /// the name; `None` when neither is known.
    pub vram_bytes: Option<u64>,
}

/// The per-card VRAM reported for a group: the largest reported value, else
/// the name-based estimate (MiB converted to bytes), else unknown.
pub open spec fn group_vram(maxv: u64, name: Seq<char>) -> Option<u64> {
    if maxv > 0 {
        Some(maxv)
    } else {
        let est = vram_estimate_of(str_lowercase(name));
        if est > 0 {
            Some((est as u64 * 1048576) as u64)
        } else {
            None
        }
    }
}

/// The VRAM totals in `--showmeminfo vram` text.
fn read_vram_values(text: &str) -> (r: Vec<u64>)
    ensures
        r@ == vram_values(lines(text@)),
{
    let v = chars_of(text);
    let ls = lines_of(&v);
    let mut out: Vec<u64> = Vec::new();
    let mut i: usize = 0;
    assert(views(ls@).subrange(0, 0) =~= Seq::<Seq<char>>::empty());
    while i < ls.len()
        invariant
            i <= ls@.len(),
            out@ == vram_values(views(ls@).subrange(0, i as int)),
        decreases ls@.len() - i,
    {
        assert(views(ls@).subrange(0, i + 1).drop_last() =~= views(ls@).subrange(0, i as int));
        assert(views(ls@).subrange(0, i + 1).last() == ls@[i as int]@);
        let line = &ls[i];
        let lower = to_lowercase(line);
        if contains_str(&lower, "total") && !contains_str(&lower, "used") {
            let ws = split_whitespace_of(line);
            let mut k = ws.len();
            let mut found: Option<u64> = None;
            assert(views(ws@).subrange(0, k as int) =~= views(ws@));
            while k > 0 && found.is_none()
                invariant
                    k <= ws@.len(),
                    found is None ==> last_number(views(ws@)) == last_number(
                        views(ws@).subrange(0, k as int),
                    ),
                    found matches Some(x) ==> last_number(views(ws@)) == Some(x),
                decreases k,
            {
                assert(views(ws@).subrange(0, k as int).drop_last() =~= views(ws@).subrange(
                    0,
                    k - 1,
                ));
                assert(views(ws@).subrange(0, k as int).last() == ws@[k - 1]@);
                found = parse_u64_chars(&ws[k - 1]);
                k -= 1;
            }
            if found.is_none() {
                assert(views(ws@).subrange(0, k as int) =~= Seq::<Seq<char>>::empty());
            }
            match found {
                Some(x) => {
                    if x > 0 {
                        out.push(x);
                    }
                },
                None => {},
            }
        }
        i += 1;
    }
    assert(views(ls@).subrange(0, i as int) =~= views(ls@));
    out
}

/// The product names in `--showproductname` text.
fn read_product_names(text: &str) -> (r: Vec<Vec<char>>)
    ensures
        views(r@) == product_names(lines(text@)),
{
    let v = chars_of(text);
    let ls = lines_of(&v);
    let mut out: Vec<Vec<char>> = Vec::new();
    let mut i: usize = 0;
    assert(views(ls@).subrange(0, 0) =~= Seq::<Seq<char>>::empty());
    while i < ls.len()
        invariant
            i <= ls@.len(),
            views(out@) == product_names(views(ls@).subrange(0, i as int)),
        decreases ls@.len() - i,
    {
        assert(views(ls@).subrange(0, i + 1).drop_last() =~= views(ls@).subrange(0, i as int));
        assert(views(ls@).subrange(0, i + 1).last() == ls@[i as int]@);
        let line = &ls[i];
        let lower = to_lowercase(line);
        if contains_str(&lower, "card series") {
            let tail = after_last_char(line, ':');
            let n = trim(&tail);
            if n.len() > 0 {
                let ghost before = out@;
                out.push(n);
                assert(views(out@) =~= views(before).push(n@));
            }
        }
        i += 1;
    }
    assert(views(ls@).subrange(0, i as int) =~= views(ls@));
    out
}

/// The names the product text gives (none when there is no text).
/// The product names in the `--showproductname` text, when there is one.
pub open spec fn product_names_of(product_text: Option<&str>) -> Seq<Seq<char>> {
    match product_text {
        Some(t) => product_names(lines(t@)),
        None => Seq::empty(),
    }
}

/// A group being counted.
struct Tally {
    name: Vec<char>,
    count: u32,
    vram: u64,
}

/// The tallies are strictly sorted by name and count exactly the entries
/// seen so far, and every entry seen so far has a tally.
spec fn tallies_ok(t: Seq<Tally>, e: Seq<(Seq<char>, u64)>) -> bool {
    &&& forall|a: int, b: int| 0 <= a < b < t.len() ==> lex_lt(t[a].name@, t[b].name@)
    &&& forall|g: int|
        0 <= g < t.len() ==> (#[trigger] t[g]).count == count_named(e, t[g].name@) && t[g].vram
            == max_named(e, t[g].name@) && t[g].count > 0
    &&& forall|j: int| 0 <= j < e.len() ==> exists|g: int| 0 <= g < t.len() && (#[trigger] t[g]).name@ == (#[trigger] e[j]).0
}

/// Parse rocm-smi `--showmeminfo vram` and `--showproductname` output into
/// one group per distinct GPU model, sorted by name. GPUs with at most 2 GiB
/// of VRAM are dropped when a discrete GPU is present (rocm-smi also lists
/// the iGPU of APUs); identical models are grouped with a count and the
/// largest per-card VRAM.
pub fn parse_rocm_smi_output(vram_text: &str, product_text: Option<&str>) -> (r: Vec<GpuGroup>)
    requires
        forall|x: Seq<char>|
            count_named(
                rocm_entries(vram_values(lines(vram_text@)), product_names_of(product_text)),
                x,
            ) <= u32::MAX,
    ensures
        ({
            let e = rocm_entries(vram_values(lines(vram_text@)), product_names_of(product_text));
            &&& forall|a: int, b: int| 0 <= a < b < r@.len() ==> lex_lt(r@[a].name@, r@[b].name@)
            &&& forall|g: int|
                0 <= g < r@.len() ==> (#[trigger] r@[g]).count == count_named(e, r@[g].name@)
                    && r@[g].vram_bytes == group_vram(max_named(e, r@[g].name@), r@[g].name@)
                    && r@[g].count > 0
            &&& forall|j: int|
                0 <= j < e.len() ==> exists|g: int|
                    0 <= g < r@.len() && (#[trigger] r@[g]).name@ == (#[trigger] e[j]).0
        }),
{
    let vrams = read_vram_values(vram_text);
    let names: Vec<Vec<char>> = match product_text {
        Some(t) => read_product_names(t),
        None => Vec::new(),
    };
    let ghost vs = vrams@;
    let ghost ns = views(names@);
    assert(ns == product_names_of(product_text));
    let threshold: u64 = 2147483648;
    let mut has_discrete = false;
    let mut i: usize = 0;
    while i < vrams.len()
        invariant
            i <= vrams@.len(),
            has_discrete == exists|k: int| 0 <= k < i && vrams@[k] > igpu_vram_threshold(),
            threshold == igpu_vram_threshold(),
        decreases vrams@.len() - i,
    {
        if vrams[i] > threshold {
            has_discrete = true;
        }
        i += 1;
    }
    let n = if vrams.len() >= names.len() {
        vrams.len()
    } else {
        names.len()
    };
    let mut tallies: Vec<Tally> = Vec::new();
    let mut i: usize = 0;
    while i < n
        invariant
            i <= n == rocm_gpu_count(vs, ns),
            vs == vrams@,
            ns == views(names@),
            threshold == igpu_vram_threshold(),
            has_discrete == has_discrete_vram(vs),
            tallies_ok(tallies@, rocm_entries_upto(vs, ns, i as int)),
            forall|x: Seq<char>| count_named(rocm_entries(vs, ns), x) <= u32::MAX,
        decreases n - i,
    {
        let ghost e_old = rocm_entries_upto(vs, ns, i as int);
        let vram: u64 = if i < vrams.len() {
            vrams[i]
        } else {
            0
        };
        if has_discrete && vram <= threshold {
            i += 1;
        } else {
            let name: Vec<char> = if i < names.len() {
                names[i].clone()
            } else {
                chars_of("AMD GPU")
            };
            let ghost entry = rocm_entry(vs, ns, i as int);
            assert(entry == (name@, vram));
            let ghost e_new = e_old.push(entry);
            assert(rocm_entries_upto(vs, ns, i + 1) == e_new);
            assert(e_new.drop_last() =~= e_old);
            proof {
                lemma_count_upto_monotone(vs, ns, i + 1, n as int, name@);
            }
            let mut k: usize = 0;
            while k < tallies.len() && lex_less(&tallies[k].name, &name)
                invariant
                    k <= tallies@.len(),
                    forall|g: int| 0 <= g < k ==> lex_lt(tallies@[g].name@, name@),
                decreases tallies@.len() - k,
            {
                k += 1;
            }
            let ghost t_old = tallies@;
            if k < tallies.len() && eq_chars(&tallies[k].name, &name) {
                let old_count = tallies[k].count;
                let old_vram = tallies[k].vram;
                proof {
                    assert(count_named(e_new, name@) == count_named(e_old, name@) + 1);
                    assert(t_old[k as int].count == count_named(e_old, t_old[k as int].name@));
                    assert(old_count == count_named(e_old, name@));
                    assert(count_named(rocm_entries(vs, ns), name@) <= u32::MAX);
                    assert(rocm_entries(vs, ns) == rocm_entries_upto(vs, ns, n as int));
                }
                let new_name = tallies[k].name.clone();
                let t = Tally {
                    name: new_name,
                    count: old_count + 1,
                    vram: if vram > old_vram {
                        vram
                    } else {
                        old_vram
                    },
                };
                tallies.set(k, t);
                proof {
                    assert forall|g: int| 0 <= g < tallies@.len() && g != k implies t_old[g].name@
                        != name@ by {
                        if g < k {
                            lemma_lex_irreflexive(name@);
                        } else {
                            lemma_lex_irreflexive(t_old[g].name@);
                        }
                    }
                    assert forall|g: int|
                        0 <= g < tallies@.len() implies (#[trigger] tallies@[g]).count
                        == count_named(e_new, tallies@[g].name@) && tallies@[g].vram
                        == max_named(e_new, tallies@[g].name@) by {
                        if g != k {
                            assert(tallies@[g] == t_old[g]);
                        }
                    }
                    assert forall|j: int| 0 <= j < e_new.len() implies exists|g: int|
                        0 <= g < tallies@.len() && (#[trigger] tallies@[g]).name@ == (
                        #[trigger] e_new[j]).0 by {
                        if j < e_old.len() {
                            assert(e_new[j] == e_old[j]);
                            let g = choose|g: int|
                                0 <= g < t_old.len() && (#[trigger] t_old[g]).name@ == e_old[j].0;
                            assert(tallies@[g].name@ == t_old[g].name@);
                        } else {
                            assert(tallies@[k as int].name@ == e_new[j].0);
                        }
                    }
                }
            } else {
                proof {
                    lemma_count_named(e_old, name@);
                    if k < t_old.len() {
                        lemma_lex_total(t_old[k as int].name@, name@);
                    }
                    assert forall|g: int| 0 <= g < t_old.len() implies t_old[g].name@ != name@
                        && (g >= k ==> lex_lt(name@, t_old[g].name@)) by {
                        if g < k {
                            lemma_lex_irreflexive(name@);
                        } else {
                            if g > k {
                                lemma_lex_transitive(name@, t_old[k as int].name@, t_old[g].name@);
                            }
                            lemma_lex_total(name@, t_old[g].name@);
                        }
                    }
                    if count_named(e_old, name@) > 0 {
                        let j = choose|j: int| 0 <= j < e_old.len() && (#[trigger] e_old[j]).0 == name@;
                        let g = choose|g: int|
                            0 <= g < t_old.len() && (#[trigger] t_old[g]).name@ == e_old[j].0;
                        assert(false);
                    }
                }
                let t = Tally { name: name, count: 1, vram: vram };
                tallies.insert(k, t);
                proof {
                    assert(tallies@ == t_old.insert(k as int, t));
                    assert forall|a: int, b: int|
                        0 <= a < b < tallies@.len() implies lex_lt(
                        tallies@[a].name@,
                        tallies@[b].name@,
                    ) by {
                        if b < k {
                        } else if b == k {
                        } else if a < k {
                            assert(tallies@[b] == t_old[b - 1]);
                            lemma_lex_transitive(tallies@[a].name@, t.name@, t_old[b - 1].name@);
                        } else if a == k {
                            assert(tallies@[b] == t_old[b - 1]);
                        } else {
                            assert(tallies@[a] == t_old[a - 1]);
                            assert(tallies@[b] == t_old[b - 1]);
                        }
                    }
                    assert forall|g: int|
                        0 <= g < tallies@.len() implies (#[trigger] tallies@[g]).count
                        == count_named(e_new, tallies@[g].name@) && tallies@[g].vram
                        == max_named(e_new, tallies@[g].name@) by {
                        if g < k {
                            assert(tallies@[g] == t_old[g]);
                        } else if g > k {
                            assert(tallies@[g] == t_old[g - 1]);
                        }
                    }
                    assert forall|j: int| 0 <= j < e_new.len() implies exists|g: int|
                        0 <= g < tallies@.len() && (#[trigger] tallies@[g]).name@ == (
                        #[trigger] e_new[j]).0 by {
                        if j < e_old.len() {
                            assert(e_new[j] == e_old[j]);
                            let g = choose|g: int|
                                0 <= g < t_old.len() && (#[trigger] t_old[g]).name@ == e_old[j].0;
                            if g < k {
                                assert(tallies@[g] == t_old[g]);
                            } else {
                                assert(tallies@[g + 1] == t_old[g]);
                            }
                        } else {
                            assert(tallies@[k as int].name@ == e_new[j].0);
                        }
                    }
                }
            }
            i += 1;
        }
    }
    let ghost e = rocm_entries(vs, ns);
    let mut out: Vec<GpuGroup> = Vec::new();
    let mut g: usize = 0;
    while g < tallies.len()
        invariant
            g <= tallies@.len(),
            tallies_ok(tallies@, e),
            out@.len() == g,
            forall|a: int| 0 <= a < g ==> (#[trigger] out@[a]).name@ == tallies@[a].name@
                && out@[a].count == tallies@[a].count && out@[a].vram_bytes == group_vram(
                tallies@[a].vram,
                tallies@[a].name@,
            ),
        decreases tallies@.len() - g,
    {
        let t = &tallies[g];
        let vram_bytes = if t.vram > 0 {
            Some(t.vram)
        } else {
            let name_str = string_of(&t.name);
            let est = estimate_vram_from_name(name_str.as_str());
            if est > 0 {
                Some(est as u64 * 1048576)
            } else {
                None
            }
        };
        out.push(GpuGroup { name: string_of(&t.name), count: t.count, vram_bytes });
        g += 1;
    }
    proof {
        assert forall|j: int| 0 <= j < e.len() implies exists|g: int|
            0 <= g < out@.len() && (#[trigger] out@[g]).name@ == (#[trigger] e[j]).0 by {
            let g = choose|g: int| 0 <= g < tallies@.len() && (#[trigger] tallies@[g]).name@ == e[j].0;
            assert(out@[g].name@ == tallies@[g].name@);
        }
    }
    out
}


/// At most one VRAM total per line.
proof fn lemma_vram_values_len(ls: Seq<Seq<char>>)
    ensures
        vram_values(ls).len() <= ls.len(),
    decreases ls.len(),
{
    if ls.len() > 0 {
        lemma_vram_values_len(ls.drop_last());
    }
}

/// At most one product name per line.
proof fn lemma_product_names_len(ls: Seq<Seq<char>>)
    ensures
        product_names(ls).len() <= ls.len(),
    decreases ls.len(),
{
    if ls.len() > 0 {
        lemma_product_names_len(ls.drop_last());
    }
}

/// At most one kept GPU per position.
proof fn lemma_entries_len(vrams: Seq<u64>, names: Seq<Seq<char>>, i: int)
    ensures
        rocm_entries_upto(vrams, names, i).len() <= if i > 0 {
            i
        } else {
            0
        },
    decreases i,
{
    if i > 0 {
        lemma_entries_len(vrams, names, i - 1);
    }
}

/// A name is counted at most once per entry.
proof fn lemma_count_named_len(e: Seq<(Seq<char>, u64)>, x: Seq<char>)
    ensures
        count_named(e, x) <= e.len(),
    decreases e.len(),
{
    if e.len() > 0 {
        lemma_count_named_len(e.drop_last(), x);
    }
}

/// `parse_rocm_smi_output` for texts of any size: it reads the groups when
/// neither text has more than `u32::MAX` lines (so no count can overflow),
/// and gives `None` otherwise.
pub fn parse_rocm_smi_output_checked(vram_text: &str, product_text: Option<&str>) -> (r: Option<
    Vec<GpuGroup>,
>)
    ensures
        match r {
            Some(groups) => {
                let e = rocm_entries(vram_values(lines(vram_text@)), product_names_of(product_text));
                &&& forall|a: int, b: int|
                    0 <= a < b < groups@.len() ==> lex_lt(groups@[a].name@, groups@[b].name@)
                &&& forall|g: int|
                    0 <= g < groups@.len() ==> (#[trigger] groups@[g]).count == count_named(
                        e,
                        groups@[g].name@,
                    ) && groups@[g].vram_bytes == group_vram(
                        max_named(e, groups@[g].name@),
                        groups@[g].name@,
                    ) && groups@[g].count > 0
                &&& forall|j: int|
                    0 <= j < e.len() ==> exists|g: int|
                        0 <= g < groups@.len() && (#[trigger] groups@[g]).name@ == (
                        #[trigger] e[j]).0
            },
            None => lines(vram_text@).len() > u32::MAX || match product_text {
                Some(t) => lines(t@).len() > u32::MAX,
                None => false,
            },
        },
{
    let vram_lines = lines_of(&chars_of(vram_text)).len();
    let product_lines: usize = match product_text {
        Some(t) => lines_of(&chars_of(t)).len(),
        None => 0,
    };
    if vram_lines > 4294967295 || product_lines > 4294967295 {
        return None;
    }
    proof {
        let vs = vram_values(lines(vram_text@));
        let ns = product_names_of(product_text);
        lemma_vram_values_len(lines(vram_text@));
        match product_text {
            Some(t) => lemma_product_names_len(lines(t@)),
            None => {},
        }
        lemma_entries_len(vs, ns, rocm_gpu_count(vs, ns));
        assert forall|x: Seq<char>| count_named(rocm_entries(vs, ns), x) <= u32::MAX by {
            lemma_count_named_len(rocm_entries(vs, ns), x);
        }
    }
    Some(parse_rocm_smi_output(vram_text, product_text))
}

} // verus!
