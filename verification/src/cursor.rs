//! Cursor-aware views of text input: grapheme-safe cursor positions and the
//! visible window of a search field wider than its box.
use unicode_segmentation::UnicodeSegmentation;
use unicode_width::UnicodeWidthStr;
use vstd::prelude::*;
use crate::text::{
    has_substring, occurs_at, char_utf8_len, chars_of, concat, len_utf8, lemma_concat_split, lemma_utf8_len_add,
    lemma_utf8_prefix_monotone, slice_of, string_of, utf8_len, utf8_len_of, views,
};

verus! {

/// Names the extended grapheme clusters that `unicode-segmentation` finds in
/// a text.
pub uninterp spec fn grapheme_clusters(s: Seq<char>) -> Seq<Seq<char>>;

/// Names the display width in terminal columns that `unicode-width` gives a
/// text.
pub uninterp spec fn display_width(s: Seq<char>) -> usize;

/// Calls `UnicodeSegmentation::grapheme_indices(_, true)` and keeps the
/// clusters. The contract claims that the clusters are the named ones, that
/// they are non-empty and that they join up to the text (the iterator yields
/// consecutive slices from one boundary to the next); it does not state the
/// segmentation rules.
#[verifier::external_body]
fn graphemes_of(v: &Vec<char>) -> (r: Vec<Vec<char>>)
    ensures
        views(r@) == grapheme_clusters(v@),
        concat(views(r@)) == v@,
        forall|j: int| 0 <= j < r@.len() ==> (#[trigger] r@[j])@.len() > 0,
{
    let text: String = v.iter().collect();
    text.grapheme_indices(true).map(|(_, g)| g.chars().collect()).collect()
}

/// Calls `UnicodeWidthStr::width`. The contract claims only that the width
/// is the named function of the text.
#[verifier::external_body]
fn width_of(v: &Vec<char>) -> (r: usize)
    ensures
        r == display_width(v@),
{
    let text: String = v.iter().collect();
    UnicodeWidthStr::width(text.as_str())
}

/// The number of characters, counted on from `k`, in the longest prefix of
/// `s` that takes at most `b` bytes.
pub open spec fn fitting_prefix(s: Seq<char>, b: nat, k: int) -> int
    decreases s.len() - k,
{
    if k < 0 || k >= s.len() {
        k
    } else if utf8_len(s.subrange(0, k + 1)) <= b {
        fitting_prefix(s, b, k + 1)
    } else {
        k
    }
}

/// The largest character boundary at or below byte `b`.
pub open spec fn char_floor_bytes(s: Seq<char>, b: nat) -> nat {
    utf8_len(s.subrange(0, fitting_prefix(s, b, 0)))
}

/// The byte offset of the first cluster (from offset `off` on) that ends
/// after byte `idx`; `idx` itself when there is none.
pub open spec fn grapheme_start_from(gs: Seq<Seq<char>>, off: nat, idx: nat) -> nat
    decreases gs.len(),
{
    if gs.len() == 0 {
        idx
    } else if off + utf8_len(gs[0]) > idx {
        off
    } else {
        grapheme_start_from(gs.drop_first(), off + utf8_len(gs[0]), idx)
    }
}

/// The byte index `index` (clamped to the text) moved down to a character
/// boundary and then to the start of the grapheme cluster it falls in.
pub open spec fn floor_grapheme(s: Seq<char>, index: nat) -> nat {
    let total = utf8_len(s);
    let i = char_floor_bytes(
        s,
        if index < total {
            index
        } else {
            total
        },
    );
    if i == total {
        i
    } else {
        grapheme_start_from(grapheme_clusters(s), 0, i)
    }
}

/// The character count and byte length of the longest prefix of `v` that
/// takes at most `b` bytes.
fn floor_to_char(v: &Vec<char>, b: u128) -> (r: (usize, u128))
    ensures
        r.0 == fitting_prefix(v@, b as nat, 0),
        r.1 == utf8_len(v@.subrange(0, r.0 as int)),
        r.1 <= b,
        r.0 <= v@.len(),
{
    let mut k: usize = 0;
    let mut acc: u128 = 0;
    assert(v@.subrange(0, 0) =~= Seq::<char>::empty());
    while k < v.len() && acc + len_utf8(v[k]) as u128 <= b
        invariant
            k <= v@.len(),
            acc == utf8_len(v@.subrange(0, k as int)),
            acc <= b,
            acc <= 4 * k,
            fitting_prefix(v@, b as nat, 0) == fitting_prefix(v@, b as nat, k as int),
        decreases v@.len() - k,
    {
        assert(v@.subrange(0, k + 1).drop_last() =~= v@.subrange(0, k as int));
        acc = acc + len_utf8(v[k]) as u128;
        k += 1;
    }
    if k < v.len() {
        assert(v@.subrange(0, k + 1).drop_last() =~= v@.subrange(0, k as int));
    }
    (k, acc)
}

/// Byte offset `b` falls between characters of `s`.
pub open spec fn char_boundary(s: Seq<char>, b: nat) -> bool {
    exists|k: int| 0 <= k <= s.len() && b == utf8_len(#[trigger] s.subrange(0, k))
}

/// Moves a byte index down to the start of the grapheme cluster it falls in
/// (first clamping it to the text and to a character boundary), so that a
/// cursor never splits a multi-byte character or a cluster.
pub fn floor_grapheme_boundary(value: &str, index: usize) -> (r: usize)
    ensures
        r == floor_grapheme(value@, index as nat),
        r <= index,
        char_boundary(value@, r as nat),
{
    let v = chars_of(value);
    let total = utf8_len_of(&v);
    let idx: u128 = if (index as u128) < total {
        index as u128
    } else {
        total
    };
    let (k, b) = floor_to_char(&v, idx);
    proof {
        lemma_utf8_prefix_monotone(v@, k as int, v@.len() as int);
        assert(v@.subrange(0, v@.len() as int) =~= v@);
    }
    if b == total {
        assert(utf8_len(value@.subrange(0, value@.len() as int)) == b);
        return b as usize;
    }
    assert(b == utf8_len(value@.subrange(0, k as int)));
    let gs = graphemes_of(&v);
    let ghost g = views(gs@);
    let mut off: u128 = 0;
    let mut j: usize = 0;
    assert(g.subrange(0, 0) =~= Seq::<Seq<char>>::empty());
    assert(g.subrange(0, g.len() as int) =~= g);
    while j < gs.len()
        invariant
            j <= gs@.len(),
            g == views(gs@),
            concat(g) == v@,
            total == utf8_len(v@),
            off == utf8_len(concat(g.subrange(0, j as int))),
            off <= total,
            off <= b,
            b < total,
            b <= idx,
            g == grapheme_clusters(value@),
            v@ == value@,
            b as nat == char_floor_bytes(v@, idx as nat),
            idx as nat == (if (index as nat) < utf8_len(v@) {
                index as nat
            } else {
                utf8_len(v@)
            }),
            idx <= index,
            k <= v@.len(),
            b == utf8_len(value@.subrange(0, k as int)),
            grapheme_start_from(g, 0, b as nat) == grapheme_start_from(
                g.subrange(j as int, g.len() as int),
                off as nat,
                b as nat,
            ),
        decreases gs@.len() - j,
    {
        let gl = utf8_len_of(&gs[j]);
        assert(g.subrange(j as int, g.len() as int)[0] == g[j as int]);
        assert(g.subrange(j as int, g.len() as int).drop_first() =~= g.subrange(
            j + 1,
            g.len() as int,
        ));
        proof {
            assert(g.subrange(0, j + 1).drop_last() =~= g.subrange(0, j as int));
            lemma_utf8_len_add(concat(g.subrange(0, j as int)), g[j as int]);
            lemma_concat_split(g, j + 1);
            lemma_utf8_len_add(concat(g.subrange(0, j + 1)), concat(g.subrange(j + 1, g.len() as int)));
        }
        if off + gl > b {
            proof {
                assert(gs@[j as int]@ == g[j as int]);
                assert(g.subrange(j as int, g.len() as int).len() > 0);
                assert(off <= index);
                lemma_concat_split(g, j as int);
                let p = concat(g.subrange(0, j as int));
                assert(value@.subrange(0, p.len() as int) =~= p);
                assert(utf8_len(value@.subrange(0, p.len() as int)) == off);
            }
            return off as usize;
        }
        off = off + gl;
        j += 1;
    }
    proof {
        assert(g.subrange(0, j as int) =~= g);
    }
    b as usize
}


/// Byte offset at which cluster `i` starts.
pub open spec fn cluster_start(g: Seq<Seq<char>>, i: int) -> nat {
    utf8_len(concat(g.subrange(0, i)))
}

/// How many clusters, walked from the front with the first at byte `off`,
/// start before byte `c` before the first one that does not.
pub open spec fn clusters_before(g: Seq<Seq<char>>, off: nat, c: nat) -> nat
    decreases g.len(),
{
    if g.len() == 0 {
        0
    } else if off < c {
        1 + clusters_before(g.drop_first(), off + utf8_len(g[0]), c)
    } else {
        0
    }
}

/// The display width of each cluster.
pub open spec fn cluster_widths(g: Seq<Seq<char>>) -> Seq<usize> {
    g.map_values(|x: Seq<char>| display_width(x))
}

/// Walks back from cluster `k` while the clusters passed still fit in
/// `limit` cells (with `cells` already used); the first cluster kept.
pub open spec fn scroll_start(ws: Seq<usize>, k: int, cells: nat, limit: nat) -> int
    decreases k,
{
    if k <= 0 || k > ws.len() {
        k
    } else if cells + ws[k - 1] > limit {
        k
    } else {
        scroll_start(ws, k - 1, cells + ws[k - 1] as nat, limit)
    }
}

/// Walks forward from cluster `e` while the clusters passed still fit in
/// `limit` cells (with `cells` already used); the first cluster left out.
pub open spec fn scroll_end(ws: Seq<usize>, e: int, cells: nat, limit: nat) -> int
    decreases ws.len() - e,
{
    if e < 0 || e >= ws.len() {
        e
    } else if cells + ws[e] > limit {
        e
    } else {
        scroll_end(ws, e + 1, cells + ws[e] as nat, limit)
    }
}

/// The characters between two byte offsets, each taken down to a character
/// boundary.
pub open spec fn byte_range(s: Seq<char>, a: nat, b: nat) -> Seq<char> {
    s.subrange(fitting_prefix(s, a, 0), fitting_prefix(s, b, 0))
}

/// The part of a search text shown in a box `width` cells wide (one cell is
/// kept for the cursor), and the cursor's cell offset in it before it is
/// narrowed to `u16`. A text that fits is shown whole; otherwise the window
/// is scrolled by whole grapheme clusters so that the cursor stays in view.
pub open spec fn search_window(s: Seq<char>, cursor: nat, width: nat) -> (Seq<char>, nat) {
    let c = floor_grapheme(s, cursor);
    let tw: nat = if width > 0 {
        (width - 1) as nat
    } else {
        0
    };
    if tw == 0 {
        (Seq::empty(), 0)
    } else if display_width(s) <= tw {
        (s, min_nat(display_width(byte_range(s, 0, c)) as nat, tw))
    } else {
        let g = grapheme_clusters(s);
        let ws = cluster_widths(g);
        let start = scroll_start(ws, clusters_before(g, 0, c) as int, 0, tw);
        let start_byte = if start < g.len() {
            cluster_start(g, start)
        } else {
            0
        };
        let end = scroll_end(ws, start, 0, tw);
        let end_byte = if end < g.len() {
            cluster_start(g, end)
        } else {
            utf8_len(s)
        };
        (
            byte_range(s, start_byte, end_byte),
            min_nat(display_width(byte_range(s, start_byte, c)) as nat, tw),
        )
    }
}

/// The smaller of two naturals.
pub open spec fn min_nat(a: nat, b: nat) -> nat {
    if a <= b {
        a
    } else {
        b
    }
}

/// `fitting_prefix` counts at least the characters it starts from.
proof fn lemma_fitting_prefix_at_least(s: Seq<char>, b: nat, k: int)
    requires
        0 <= k <= s.len(),
    ensures
        k <= fitting_prefix(s, b, k) <= s.len(),
    decreases s.len() - k,
{
    if k < s.len() && utf8_len(s.subrange(0, k + 1)) <= b {
        lemma_fitting_prefix_at_least(s, b, k + 1);
    }
}

/// A prefix that fits in `b` bytes grows into one that still fits.
proof fn lemma_fitting_prefix_fits(s: Seq<char>, b: nat, k: int)
    requires
        0 <= k <= s.len(),
        utf8_len(s.subrange(0, k)) <= b,
    ensures
        utf8_len(s.subrange(0, fitting_prefix(s, b, k))) <= b,
    decreases s.len() - k,
{
    if k < s.len() && utf8_len(s.subrange(0, k + 1)) <= b {
        lemma_fitting_prefix_fits(s, b, k + 1);
    }
}

/// More bytes never fit fewer characters.
proof fn lemma_fitting_prefix_monotone(s: Seq<char>, a: nat, b: nat, k: int)
    requires
        a <= b,
        0 <= k <= s.len(),
    ensures
        fitting_prefix(s, a, k) <= fitting_prefix(s, b, k),
    decreases s.len() - k,
{
    if k < s.len() {
        if utf8_len(s.subrange(0, k + 1)) <= a {
            lemma_fitting_prefix_monotone(s, a, b, k + 1);
        } else if utf8_len(s.subrange(0, k + 1)) <= b {
            lemma_fitting_prefix_at_least(s, b, k + 1);
        }
    }
}

/// A cluster boundary lies at or before the end of the text.
proof fn lemma_cluster_start_monotone(g: Seq<Seq<char>>, a: int, b: int)
    requires
        0 <= a <= b <= g.len(),
    ensures
        cluster_start(g, a) <= cluster_start(g, b),
{
    let p = g.subrange(0, b);
    lemma_concat_split(p, a);
    assert(p.subrange(0, a) =~= g.subrange(0, a));
    lemma_utf8_len_add(concat(p.subrange(0, a)), concat(p.subrange(a, p.len() as int)));
}

/// The first element of a concatenation comes first.
proof fn lemma_concat_first(ss: Seq<Seq<char>>)
    requires
        ss.len() > 0,
    ensures
        concat(ss) == ss[0] + concat(ss.drop_first()),
    decreases ss.len(),
{
    if ss.len() == 1 {
        assert(ss.drop_last() =~= Seq::<Seq<char>>::empty());
        assert(ss.drop_first() =~= Seq::<Seq<char>>::empty());
        assert(concat(ss.drop_last()) =~= Seq::<char>::empty());
        assert(concat(ss) =~= ss[0]);
        assert(ss[0] + concat(ss.drop_first()) =~= ss[0]);
    } else {
        lemma_concat_first(ss.drop_last());
        assert(ss.drop_last().drop_first() =~= ss.drop_first().drop_last());
        assert(ss.drop_first().last() == ss.last());
        assert(concat(ss) =~= ss[0] + concat(ss.drop_first()));
    }
}

/// One cluster further on, the start moves by that cluster's length.
proof fn lemma_cluster_start_step(g: Seq<Seq<char>>, i: int)
    requires
        0 <= i < g.len(),
    ensures
        cluster_start(g, i + 1) == cluster_start(g, i) + utf8_len(g[i]),
{
    assert(g.subrange(0, i + 1).drop_last() =~= g.subrange(0, i));
    lemma_utf8_len_add(concat(g.subrange(0, i)), g[i]);
}

/// Starts measured on the tail are the full starts less the first cluster.
proof fn lemma_cluster_start_tail(g: Seq<Seq<char>>, k: int)
    requires
        0 <= k < g.len(),
    ensures
        cluster_start(g, k + 1) == utf8_len(g[0]) + cluster_start(g.drop_first(), k),
{
    let p = g.subrange(0, k + 1);
    lemma_concat_first(p);
    assert(p.drop_first() =~= g.drop_first().subrange(0, k));
    lemma_utf8_len_add(g[0], concat(g.drop_first().subrange(0, k)));
}

/// The start found by `grapheme_start_from` is the start of the cluster
/// that `clusters_before` counts up to.
proof fn lemma_start_is_counted(g: Seq<Seq<char>>, off: nat, idx: nat)
    requires
        forall|j: int| 0 <= j < g.len() ==> (#[trigger] g[j]).len() > 0,
        off <= idx,
        off + utf8_len(concat(g)) > idx,
    ensures
        ({
            let c = grapheme_start_from(g, off, idx);
            let k = clusters_before(g, off, c);
            &&& k < g.len()
            &&& c == off + cluster_start(g, k as int)
        }),
    decreases g.len(),
{
    if g.len() == 0 {
    } else {
        assert(g.subrange(0, 0) =~= Seq::<Seq<char>>::empty());
        if off + utf8_len(g[0]) > idx {
            assert(grapheme_start_from(g, off, idx) == off);
            assert(clusters_before(g, off, off) == 0);
            assert(concat(g.subrange(0, 0)) =~= Seq::<char>::empty());
        } else {
            let t = g.drop_first();
            let off2 = off + utf8_len(g[0]);
            lemma_concat_first(g);
            lemma_utf8_len_add(g[0], concat(t));
            assert forall|j: int| 0 <= j < t.len() implies (#[trigger] t[j]).len() > 0 by {
                assert(t[j] == g[j + 1]);
            }
            lemma_start_is_counted(t, off2, idx);
            let c = grapheme_start_from(t, off2, idx);
            assert(g[0].len() > 0);
            lemma_utf8_prefix_monotone(g[0], 0, g[0].len() as int);
            assert(g[0].subrange(0, g[0].len() as int) =~= g[0]);
            assert(g[0].subrange(0, 0) =~= Seq::<char>::empty());
            let k2 = clusters_before(t, off2, c);
            lemma_cluster_start_tail(g, k2 as int);
            assert(grapheme_start_from(g, off, idx) == c);
            assert(utf8_len(g[0]) > 0);
            assert(off < c);
            assert(clusters_before(g, off, c) == 1 + k2);
        }
    }
}


/// The display width of each cluster and the byte offset at which each
/// cluster starts (with one more entry: the end of the text).
fn cluster_table(gs: &Vec<Vec<char>>, total: u128) -> (r: (Vec<usize>, Vec<u128>))
    requires
        utf8_len(concat(views(gs@))) == total,
    ensures
        r.0@ == cluster_widths(views(gs@)),
        r.1@.len() == gs@.len() + 1,
        forall|i: int| 0 <= i <= gs@.len() ==> #[trigger] r.1@[i] == cluster_start(views(gs@), i),
{
    let ghost g = views(gs@);
    let mut ws: Vec<usize> = Vec::new();
    let mut offs: Vec<u128> = Vec::new();
    let mut off: u128 = 0;
    offs.push(0);
    assert(concat(g.subrange(0, 0)) =~= Seq::<char>::empty());
    assert(g.subrange(0, g.len() as int) =~= g);
    let mut i: usize = 0;
    while i < gs.len()
        invariant
            i <= gs@.len(),
            g == views(gs@),
            utf8_len(concat(g)) == total,
            g.subrange(0, g.len() as int) == g,
            ws@ == cluster_widths(g).subrange(0, i as int),
            offs@.len() == i + 1,
            forall|k: int| 0 <= k <= i ==> #[trigger] offs@[k] == cluster_start(g, k),
            off == cluster_start(g, i as int),
        decreases gs@.len() - i,
    {
        assert(gs@[i as int]@ == g[i as int]);
        let w = width_of(&gs[i]);
        let l = utf8_len_of(&gs[i]);
        proof {
            lemma_cluster_start_step(g, i as int);
            lemma_cluster_start_monotone(g, i + 1, g.len() as int);
        }
        ws.push(w);
        off = off + l;
        offs.push(off);
        i += 1;
        assert(ws@ =~= cluster_widths(g).subrange(0, i as int));
    }
    (ws, offs)
}

/// The part of a search text that fits in a box `width` cells wide, and
/// the cursor's cell offset in it. One cell is kept free for the cursor. A
/// text that fits is shown whole; a longer one is scrolled by whole grapheme
/// clusters so that the cursor stays in view.
#[verifier::spinoff_prover]
#[verifier::rlimit(40)]
pub fn visible_search_query(query: &str, cursor_position: usize, width: usize) -> (r: (String, u16))
    ensures
        r.0@ == search_window(query@, cursor_position as nat, width as nat).0,
        r.1 == search_window(query@, cursor_position as nat, width as nat).1 as u16,
        0 < width <= 65536 ==> r.1 < width,
        has_substring(query@, r.0@),
{
    proof {
        assert(query@.subrange(0, 0) =~= Seq::<char>::empty());
        assert(occurs_at(query@, Seq::<char>::empty(), 0));
    }
    if width == 0 {
        return (String::new(), 0);
    }
    let c = floor_grapheme_boundary(query, cursor_position);
    let tw = width - 1;
    if tw == 0 {
        return (String::new(), 0);
    }
    let v = chars_of(query);
    let total = utf8_len_of(&v);
    let (i0, _) = floor_to_char(&v, 0);
    let (ic, _) = floor_to_char(&v, c as u128);
    if width_of(&v) <= tw {
        proof {
            lemma_fitting_prefix_monotone(v@, 0, c as nat, 0);
        }
        let head = slice_of(&v, i0, ic);
        let w = width_of(&head);
        let m = if w < tw {
            w
        } else {
            tw
        };
        proof {
            assert(query@.subrange(0, query@.len() as int) =~= query@);
            assert(occurs_at(query@, query@, 0));
        }
        return (string_of(&v), m as u16);
    }
    let gs = graphemes_of(&v);
    let ghost g = views(gs@);
    let (ws, offs) = cluster_table(&gs, total);
    let n = gs.len();
    assert(g.subrange(0, n as int) =~= g);
    assert(concat(g.subrange(0, 0)) =~= Seq::<char>::empty());
    let mut cg: usize = 0;
    while cg < n && offs[cg] < c as u128
        invariant
            cg <= n,
            n == g.len(),
            g == views(gs@),
            offs@.len() == n + 1,
            forall|i: int| 0 <= i <= n ==> #[trigger] offs@[i] == cluster_start(g, i),
            clusters_before(g, 0, c as nat) == cg + clusters_before(
                g.subrange(cg as int, n as int),
                cluster_start(g, cg as int),
                c as nat,
            ),
        decreases n - cg,
    {
        proof {
            let t = g.subrange(cg as int, n as int);
            assert(t[0] == g[cg as int]);
            assert(t.drop_first() =~= g.subrange(cg + 1, n as int));
            lemma_cluster_start_step(g, cg as int);
        }
        cg += 1;
    }
    proof {
        let t = g.subrange(cg as int, n as int);
        if cg == n {
            assert(t.len() == 0);
        }
        assert(clusters_before(g, 0, c as nat) == cg);
        // The cursor sits at the start of cluster `cg`.
        let s = query@;
        let idx: nat = if (cursor_position as nat) < utf8_len(s) {
            cursor_position as nat
        } else {
            utf8_len(s)
        };
        let i = char_floor_bytes(s, idx);
        lemma_utf8_prefix_monotone(s, 0, 0);
        assert(s.subrange(0, 0) =~= Seq::<char>::empty());
        lemma_fitting_prefix_fits(s, idx, 0);
        lemma_cluster_start_monotone(g, cg as int, n as int);
        if i == utf8_len(s) {
            assert(c == utf8_len(s));
        } else {
            lemma_start_is_counted(g, 0, i);
            assert(offs@[cg as int] == c);
        }
        assert(offs@[cg as int] == c);
    }
    let mut start: usize = cg;
    let mut cells: usize = 0;
    while start > 0
        invariant
            start <= cg <= n,
            ws@.len() == n,
            cells <= tw,
            scroll_start(ws@, cg as int, 0, tw as nat) == scroll_start(
                ws@,
                start as int,
                cells as nat,
                tw as nat,
            ),
        ensures
            start <= cg,
            scroll_start(ws@, cg as int, 0, tw as nat) == start,
        decreases start,
    {
        let pw = ws[start - 1];
        if pw > tw - cells {
            break;
        }
        cells = cells + pw;
        start = start - 1;
    }
    let start_byte: u128 = if start < n {
        offs[start]
    } else {
        0
    };
    let mut end: usize = start;
    let mut shown_cells: usize = 0;
    while end < n
        invariant
            start <= end <= n,
            ws@.len() == n,
            shown_cells <= tw,
            scroll_end(ws@, start as int, 0, tw as nat) == scroll_end(
                ws@,
                end as int,
                shown_cells as nat,
                tw as nat,
            ),
        ensures
            start <= end <= n,
            scroll_end(ws@, start as int, 0, tw as nat) == end,
        decreases n - end,
    {
        let gw = ws[end];
        if gw > tw - shown_cells {
            break;
        }
        shown_cells = shown_cells + gw;
        end = end + 1;
    }
    let end_byte: u128 = if end < n {
        offs[end]
    } else {
        total
    };
    proof {
        if start < n {
            lemma_cluster_start_monotone(g, start as int, end as int);
            lemma_cluster_start_monotone(g, start as int, cg as int);
            lemma_cluster_start_monotone(g, start as int, n as int);
        }
        lemma_fitting_prefix_monotone(v@, start_byte as nat, end_byte as nat, 0);
        lemma_fitting_prefix_monotone(v@, start_byte as nat, c as nat, 0);
    }
    let (j0, _) = floor_to_char(&v, start_byte);
    let (j1, _) = floor_to_char(&v, end_byte);
    let shown = slice_of(&v, j0, j1);
    proof {
        assert(occurs_at(query@, shown@, j0 as int));
    }
    let before = slice_of(&v, j0, ic);
    let w = width_of(&before);
    let m = if w < tw {
        w
    } else {
        tw
    };
    (string_of(&shown), m as u16)
}


/// The label drawn before the models-directory input.
pub const DM_MODELS_DIR_LABEL: &'static str = "  Models dir:  ";

/// The models-directory input window: the search window in what is left of
/// `inner_width` after the label (the label's width narrowed to `u16`).
pub open spec fn dm_dir_window(input: Seq<char>, cursor: nat, inner_width: nat) -> (Seq<char>, nat) {
    let label = (display_width(DM_MODELS_DIR_LABEL@) as u16) as nat;
    let input_width: nat = if inner_width > label {
        (inner_width - label) as nat
    } else {
        0
    };
    search_window(input, cursor, input_width)
}

/// The visible part of the models-directory input and the cursor's offset
/// in it, in the cells left beside the label.
pub fn visible_dm_dir_input(input: &str, cursor: usize, inner_width: u16) -> (r: (String, u16))
    ensures
        r.0@ == dm_dir_window(input@, cursor as nat, inner_width as nat).0,
        r.1 == dm_dir_window(input@, cursor as nat, inner_width as nat).1 as u16,
        has_substring(input@, r.0@),
{
    let label = chars_of(DM_MODELS_DIR_LABEL);
    let label_width = width_of(&label) as u16;
    let input_width: u16 = if inner_width > label_width {
        inner_width - label_width
    } else {
        0
    };
    visible_search_query(input, cursor, input_width as usize)
}

} // verus!
