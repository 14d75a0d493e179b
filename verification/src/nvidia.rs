//! Reading `nvidia-smi` CSV output: one row per card, grouped by model so
//! that same-model cards are counted and never have their VRAM summed.
use vstd::prelude::*;
use crate::text::{
    chars_of, eq_ignore_ascii_case, eq_ignore_ascii_case_str, eq_str, lemma_lex_irreflexive,
    lemma_lex_total, lemma_lex_transitive, lex_less, lex_lt, lines, lines_of, split_once,
    split_once_char, string_of, trim, trimmed, views,
};

verus! {

/// One card as `nvidia-smi` lists it: the model name, the memory field as
/// printed (MiB, or `[N/A]`), and whether the addressing mode is ATS
/// (unified memory, as on Tegra and Grace Blackwell parts).
#[derive(Debug)]
pub struct NvidiaSmiRow {
    pub name: String,
    pub vram_text: String,
    pub ats: bool,
}

/// The cards of one GPU model, in the order listed.
#[derive(Debug)]
pub struct NvidiaGroup {
    pub name: String,
    pub rows: Vec<NvidiaSmiRow>,
}

/// A row as plain values: name, memory field, ATS flag.
pub open spec fn row_view(r: NvidiaSmiRow) -> (Seq<char>, Seq<char>, bool) {
    (r.name@, r.vram_text@, r.ats)
}

/// The plain values of a sequence of rows.
pub open spec fn row_views(v: Seq<NvidiaSmiRow>) -> Seq<(Seq<char>, Seq<char>, bool)> {
    v.map_values(|r: NvidiaSmiRow| row_view(r))
}

/// The rows named `x`, in order.
pub open spec fn rows_named(rs: Seq<(Seq<char>, Seq<char>, bool)>, x: Seq<char>) -> Seq<
    (Seq<char>, Seq<char>, bool),
>
    decreases rs.len(),
{
    if rs.len() == 0 {
        Seq::empty()
    } else if rs.last().0 == x {
        rows_named(rs.drop_last(), x).push(rs.last())
    } else {
        rows_named(rs.drop_last(), x)
    }
}

/// The groups are strictly sorted by name, each holds exactly the rows with
/// its name (at least one), and every row has a group.
pub open spec fn grouped_by_name(t: Seq<NvidiaGroup>, rs: Seq<(Seq<char>, Seq<char>, bool)>) -> bool {
    &&& forall|a: int, b: int| 0 <= a < b < t.len() ==> lex_lt(t[a].name@, t[b].name@)
    &&& forall|g: int|
        0 <= g < t.len() ==> row_views((#[trigger] t[g]).rows@) == rows_named(rs, t[g].name@)
            && t[g].rows@.len() > 0
    &&& forall|j: int| 0 <= j < rs.len() ==> exists|g: int| 0 <= g < t.len() && (#[trigger] t[g]).name@ == (#[trigger] rs[j]).0
}

/// No row named `x` means no rows are collected for it.
proof fn lemma_rows_named_absent(rs: Seq<(Seq<char>, Seq<char>, bool)>, x: Seq<char>)
    requires
        forall|j: int| 0 <= j < rs.len() ==> (#[trigger] rs[j]).0 != x,
    ensures
        rows_named(rs, x) == Seq::<(Seq<char>, Seq<char>, bool)>::empty(),
    decreases rs.len(),
{
    if rs.len() > 0 {
        assert(rs[rs.len() - 1] == rs.last());
        assert forall|j: int| 0 <= j < rs.drop_last().len() implies (#[trigger] rs.drop_last()[j]).0 != x by {
            assert(rs.drop_last()[j] == rs[j]);
        }
        lemma_rows_named_absent(rs.drop_last(), x);
    }
}

/// Adds one row to sorted groups, to the group of its name or to a new one
/// at its place in name order.
fn add_row(
    groups: &mut Vec<NvidiaGroup>,
    row: NvidiaSmiRow,
    Ghost(rs): Ghost<Seq<(Seq<char>, Seq<char>, bool)>>,
)
    requires
        grouped_by_name(old(groups)@, rs),
    ensures
        grouped_by_name(final(groups)@, rs.push(row_view(row))),
{
    let ghost rv = row_view(row);
    let ghost e = rs.push(rv);
    let ghost t_old = groups@;
    assert(e.drop_last() =~= rs);
    assert(e.last() == rv);
    let name = chars_of(row.name.as_str());
    let mut k: usize = 0;
    while k < groups.len() && lex_less(&chars_of(groups[k].name.as_str()), &name)
        invariant
            k <= groups@.len(),
            groups@ == t_old,
            name@ == rv.0,
            forall|g: int| 0 <= g < k ==> lex_lt(t_old[g].name@, name@),
        decreases groups@.len() - k,
    {
        k += 1;
    }
    if k < groups.len() && eq_str(&name, groups[k].name.as_str()) {
        let mut grp = groups.remove(k);
        let ghost old_rows = grp.rows@;
        grp.rows.push(row);
        groups.insert(k, grp);
        proof {
            assert(groups@ =~= t_old.update(k as int, grp));
            assert(row_views(grp.rows@) =~= row_views(old_rows).push(rv));
            assert forall|g: int| 0 <= g < t_old.len() && g != k implies t_old[g].name@ != name@ by {
                if g < k {
                    lemma_lex_irreflexive(name@);
                } else {
                    lemma_lex_irreflexive(t_old[g].name@);
                }
            }
            assert forall|g: int| 0 <= g < groups@.len() implies row_views((#[trigger] groups@[g]).rows@)
                == rows_named(e, groups@[g].name@) && groups@[g].rows@.len() > 0 by {
                if g != k {
                    assert(groups@[g] == t_old[g]);
                }
            }
            assert forall|j: int| 0 <= j < e.len() implies exists|g: int|
                0 <= g < groups@.len() && (#[trigger] groups@[g]).name@ == (#[trigger] e[j]).0 by {
                if j < rs.len() {
                    assert(e[j] == rs[j]);
                    let g = choose|g: int| 0 <= g < t_old.len() && (#[trigger] t_old[g]).name@ == rs[j].0;
                    assert(groups@[g].name@ == t_old[g].name@);
                } else {
                    assert(groups@[k as int].name@ == e[j].0);
                }
            }
        }
    } else {
        proof {
            if k < t_old.len() {
                lemma_lex_total(t_old[k as int].name@, name@);
            }
            assert forall|g: int| 0 <= g < t_old.len() implies t_old[g].name@ != name@ && (g >= k
                ==> lex_lt(name@, t_old[g].name@)) by {
                if g < k {
                    lemma_lex_irreflexive(name@);
                } else {
                    if g > k {
                        lemma_lex_transitive(name@, t_old[k as int].name@, t_old[g].name@);
                    }
                    lemma_lex_total(name@, t_old[g].name@);
                }
            }
            assert forall|j: int| 0 <= j < rs.len() implies (#[trigger] rs[j]).0 != name@ by {
                let g = choose|g: int| 0 <= g < t_old.len() && (#[trigger] t_old[g]).name@ == rs[j].0;
            }
            lemma_rows_named_absent(rs, name@);
        }
        let gname = string_of(&name);
        let mut rows: Vec<NvidiaSmiRow> = Vec::new();
        rows.push(row);
        let grp = NvidiaGroup { name: gname, rows };
        groups.insert(k, grp);
        proof {
            assert(groups@ == t_old.insert(k as int, grp));
            assert(row_views(grp.rows@) =~= seq![rv]);
            assert(rows_named(e, name@) =~= seq![rv]);
            assert forall|a: int, b: int|
                0 <= a < b < groups@.len() implies lex_lt(groups@[a].name@, groups@[b].name@) by {
                if b < k {
                } else if b == k {
                } else if a < k {
                    assert(groups@[b] == t_old[b - 1]);
                    lemma_lex_transitive(groups@[a].name@, name@, t_old[b - 1].name@);
                } else if a == k {
                    assert(groups@[b] == t_old[b - 1]);
                } else {
                    assert(groups@[a] == t_old[a - 1]);
                    assert(groups@[b] == t_old[b - 1]);
                }
            }
            assert forall|g: int| 0 <= g < groups@.len() implies row_views((#[trigger] groups@[g]).rows@)
                == rows_named(e, groups@[g].name@) && groups@[g].rows@.len() > 0 by {
                if g < k {
                    assert(groups@[g] == t_old[g]);
                } else if g > k {
                    assert(groups@[g] == t_old[g - 1]);
                }
            }
            assert forall|j: int| 0 <= j < e.len() implies exists|g: int|
                0 <= g < groups@.len() && (#[trigger] groups@[g]).name@ == (#[trigger] e[j]).0 by {
                if j < rs.len() {
                    assert(e[j] == rs[j]);
                    let g = choose|g: int| 0 <= g < t_old.len() && (#[trigger] t_old[g]).name@ == rs[j].0;
                    if g < k {
                        assert(groups@[g] == t_old[g]);
                    } else {
                        assert(groups@[g + 1] == t_old[g]);
                    }
                } else {
                    assert(groups@[k as int].name@ == e[j].0);
                }
            }
        }
    }
}

/// The name a row shows: the field as given, or "NVIDIA GPU" when empty.
pub open spec fn gpu_name_or_default(n: Seq<char>) -> Seq<char> {
    if n.len() > 0 {
        n
    } else {
        "NVIDIA GPU"@
    }
}

/// The row of a `memory.total,name` line (`None` for a blank line).
pub open spec fn list_row(line: Seq<char>) -> Option<(Seq<char>, Seq<char>, bool)> {
    let t = trimmed(line);
    if t.len() == 0 {
        None
    } else {
        match split_once(t, ',') {
            Some(p) => Some((gpu_name_or_default(trimmed(p.1)), trimmed(p.0), false)),
            None => Some(("NVIDIA GPU"@, trimmed(t), false)),
        }
    }
}

/// The row of an `addressing_mode,memory.total,name` line (`None` for a
/// blank line or one with fewer than three fields; the name is all that
/// follows the second comma).
pub open spec fn extended_row(line: Seq<char>) -> Option<(Seq<char>, Seq<char>, bool)> {
    let t = trimmed(line);
    if t.len() == 0 {
        None
    } else {
        match split_once(t, ',') {
            Some(p) => match split_once(p.1, ',') {
                Some(q) => Some(
                    (
                        gpu_name_or_default(trimmed(q.1)),
                        trimmed(q.0),
                        eq_ignore_ascii_case(trimmed(p.0), "ATS"@),
                    ),
                ),
                None => None,
            },
            None => None,
        }
    }
}

/// The rows of the lines, in order; `extended` picks the line format.
pub open spec fn smi_rows(ls: Seq<Seq<char>>, extended: bool) -> Seq<(Seq<char>, Seq<char>, bool)>
    decreases ls.len(),
{
    if ls.len() == 0 {
        Seq::empty()
    } else {
        let r = if extended {
            extended_row(ls.last())
        } else {
            list_row(ls.last())
        };
        match r {
            Some(row) => smi_rows(ls.drop_last(), extended).push(row),
            None => smi_rows(ls.drop_last(), extended),
        }
    }
}

/// The name if non-empty, else "NVIDIA GPU".
fn name_or_default(n: Vec<char>) -> (r: Vec<char>)
    ensures
        r@ == gpu_name_or_default(n@),
{
    if n.len() > 0 {
        n
    } else {
        chars_of("NVIDIA GPU")
    }
}

/// The row of one line in either format.
fn smi_row(line: &Vec<char>, extended: bool) -> (r: Option<NvidiaSmiRow>)
    ensures
        match r {
            Some(row) => (if extended {
                extended_row(line@)
            } else {
                list_row(line@)
            }) == Some(row_view(row)),
            None => (if extended {
                extended_row(line@)
            } else {
                list_row(line@)
            }) is None,
        },
{
    let t = trim(line);
    if t.len() == 0 {
        return None;
    }
    if extended {
        match split_once_char(&t, ',') {
            Some((a, rest)) => match split_once_char(&rest, ',') {
                Some((b, c)) => {
                    let mode = trim(&a);
                    let ats = eq_ignore_ascii_case_str(&mode, "ATS");
                    let name = name_or_default(trim(&c));
                    let vram = trim(&b);
                    Some(NvidiaSmiRow { name: string_of(&name), vram_text: string_of(&vram), ats })
                },
                None => None,
            },
            None => None,
        }
    } else {
        match split_once_char(&t, ',') {
            Some((a, b)) => {
                let name = name_or_default(trim(&b));
                let vram = trim(&a);
                Some(NvidiaSmiRow { name: string_of(&name), vram_text: string_of(&vram), ats: false })
            },
            None => {
                let name = chars_of("NVIDIA GPU");
                let vram = trim(&t);
                Some(NvidiaSmiRow { name: string_of(&name), vram_text: string_of(&vram), ats: false })
            },
        }
    }
}

/// Reads the rows of every line and groups them by model name.
fn parse_smi(text: &str, extended: bool) -> (r: Vec<NvidiaGroup>)
    ensures
        grouped_by_name(r@, smi_rows(lines(text@), extended)),
{
    let v = chars_of(text);
    let ls = lines_of(&v);
    let ghost lv = views(ls@);
    let mut groups: Vec<NvidiaGroup> = Vec::new();
    let mut i: usize = 0;
    assert(lv.subrange(0, 0) =~= Seq::<Seq<char>>::empty());
    while i < ls.len()
        invariant
            i <= ls@.len(),
            lv == views(ls@),
            lv == lines(text@),
            grouped_by_name(groups@, smi_rows(lv.subrange(0, i as int), extended)),
        decreases ls@.len() - i,
    {
        let ghost prev = smi_rows(lv.subrange(0, i as int), extended);
        assert(lv.subrange(0, i + 1).drop_last() =~= lv.subrange(0, i as int));
        assert(lv.subrange(0, i + 1).last() == ls@[i as int]@);
        match smi_row(&ls[i], extended) {
            Some(row) => {
                add_row(&mut groups, row, Ghost(prev));
            },
            None => {},
        }
        i += 1;
    }
    assert(lv.subrange(0, i as int) =~= lv);
    groups
}

/// Parse `nvidia-smi --query-gpu=memory.total,name --format=csv,noheader,nounits`
/// into one group per model, sorted by name: same-model cards are counted
/// (by the group's rows) and their VRAM is never summed.
pub fn parse_nvidia_smi_list(text: &str) -> (r: Vec<NvidiaGroup>)
    ensures
        grouped_by_name(r@, smi_rows(lines(text@), false)),
{
    parse_smi(text, false)
}

/// Parse `nvidia-smi --query-gpu=addressing_mode,memory.total,name` into one
/// group per model, sorted by name; an ATS addressing mode marks a card
/// with unified memory.
pub fn parse_nvidia_smi_extended(text: &str) -> (r: Vec<NvidiaGroup>)
    ensures
        grouped_by_name(r@, smi_rows(lines(text@), true)),
{
    parse_smi(text, true)
}

} // verus!
