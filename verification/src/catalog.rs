//! Rows of the scraped HuggingFace catalogue and the merging of rows that
//! name the same model (by canonical slug) into one.
use vstd::prelude::*;
use crate::models::{
    canonical_slug, has_capability, slug_of, Capability, GgufSource, LlmModel, ModelFormat,
};
use crate::text::{
    chars_of, contains, eq_chars, eq_str, has_substring, lemma_lex_irreflexive,
    lemma_lex_transitive, lex_less, lex_lt, str_lowercase, to_lowercase,
};

verus! {

/// One catalogue row as scraped, without the memory estimates (those are
/// floating-point numbers and are merged by the caller).
#[derive(Debug)]
pub struct HfModelEntry {
    pub name: String,
    pub provider: String,
    pub parameter_count: String,
    pub parameters_raw: Option<u64>,
    pub quantization: String,
    pub context_length: u32,
    pub use_case: String,
    pub is_moe: bool,
    pub num_experts: Option<u32>,
    pub active_experts: Option<u32>,
    pub active_parameters: Option<u64>,
    pub release_date: Option<String>,
    pub gguf_sources: Vec<GgufSource>,
    pub capabilities: Vec<Capability>,
    pub format: ModelFormat,
    pub hf_downloads: u64,
    pub hf_likes: u64,
    pub num_attention_heads: Option<u32>,
    pub num_key_value_heads: Option<u32>,
    pub num_hidden_layers: Option<u32>,
    pub head_dim: Option<u32>,
    pub hidden_size: Option<u32>,
    pub vocab_size: Option<u32>,
    pub moe_intermediate_size: Option<u32>,
    pub shared_expert_intermediate_size: Option<u32>,
    pub license: Option<String>,
    pub architecture: Option<String>,
}

/// A catalogue row as plain values.
pub struct HfEntryView {
    pub name: Seq<char>,
    pub provider: Seq<char>,
    pub parameter_count: Seq<char>,
    pub parameters_raw: Option<u64>,
    pub quantization: Seq<char>,
    pub context_length: u32,
    pub use_case: Seq<char>,
    pub is_moe: bool,
    pub num_experts: Option<u32>,
    pub active_experts: Option<u32>,
    pub active_parameters: Option<u64>,
    pub release_date: Option<Seq<char>>,
    /// (repo, provider) of each GGUF source.
    pub gguf_sources: Seq<(Seq<char>, Seq<char>)>,
    pub capabilities: Seq<Capability>,
    pub format: ModelFormat,
    pub hf_downloads: u64,
    pub hf_likes: u64,
    pub num_attention_heads: Option<u32>,
    pub num_key_value_heads: Option<u32>,
    pub num_hidden_layers: Option<u32>,
    pub head_dim: Option<u32>,
    pub hidden_size: Option<u32>,
    pub vocab_size: Option<u32>,
    pub moe_intermediate_size: Option<u32>,
    pub shared_expert_intermediate_size: Option<u32>,
    pub license: Option<Seq<char>>,
    pub architecture: Option<Seq<char>>,
}

/// The characters of an optional string.
pub open spec fn opt_view(o: Option<String>) -> Option<Seq<char>> {
    match o {
        Some(s) => Some(s@),
        None => None,
    }
}

/// The (repo, provider) pairs of GGUF sources.
pub open spec fn gguf_views(v: Seq<GgufSource>) -> Seq<(Seq<char>, Seq<char>)> {
    v.map_values(|g: GgufSource| (g.repo@, g.provider@))
}

/// The plain values of a row.
#[verifier::opaque]
pub open spec fn hf_view(e: HfModelEntry) -> HfEntryView {
        HfEntryView {
            name: e.name@,
            provider: e.provider@,
            parameter_count: e.parameter_count@,
            parameters_raw: e.parameters_raw,
            quantization: e.quantization@,
            context_length: e.context_length,
            use_case: e.use_case@,
            is_moe: e.is_moe,
            num_experts: e.num_experts,
            active_experts: e.active_experts,
            active_parameters: e.active_parameters,
            release_date: opt_view(e.release_date),
            gguf_sources: gguf_views(e.gguf_sources@),
            capabilities: e.capabilities@,
            format: e.format,
            hf_downloads: e.hf_downloads,
            hf_likes: e.hf_likes,
            num_attention_heads: e.num_attention_heads,
            num_key_value_heads: e.num_key_value_heads,
            num_hidden_layers: e.num_hidden_layers,
            head_dim: e.head_dim,
            hidden_size: e.hidden_size,
            vocab_size: e.vocab_size,
            moe_intermediate_size: e.moe_intermediate_size,
            shared_expert_intermediate_size: e.shared_expert_intermediate_size,
            license: opt_view(e.license),
            architecture: opt_view(e.architecture),
        }
}

impl View for HfModelEntry {
    type V = HfEntryView;

    open spec fn view(&self) -> HfEntryView {
        hf_view(*self)
    }
}

/// A row's name as plain values is its name.
proof fn lemma_view_name(e: HfModelEntry)
    ensures
        e@.name == e.name@,
{
    reveal(hf_view);
}

/// `Option<String>` ordering: `None` below every `Some`, strings compared
/// character by character.
pub open spec fn opt_str_gt(a: Option<Seq<char>>, b: Option<Seq<char>>) -> bool {
    match (a, b) {
        (Some(x), Some(y)) => lex_lt(y, x),
        (Some(_), None) => true,
        (None, _) => false,
    }
}

/// `a` followed by the capabilities of `b` that it does not hold yet.
pub open spec fn cap_union(a: Seq<Capability>, b: Seq<Capability>) -> Seq<Capability>
    decreases b.len(),
{
    if b.len() == 0 {
        a
    } else {
        let acc = cap_union(a, b.drop_last());
        if acc.contains(b.last()) {
            acc
        } else {
            acc.push(b.last())
        }
    }
}

/// Is some source in `s` from repo `repo`?
pub open spec fn has_repo(s: Seq<(Seq<char>, Seq<char>)>, repo: Seq<char>) -> bool {
    exists|i: int| 0 <= i < s.len() && (#[trigger] s[i]).0 == repo
}

/// `a` followed by the sources of `b` whose repo it does not hold yet.
pub open spec fn gguf_union(a: Seq<(Seq<char>, Seq<char>)>, b: Seq<(Seq<char>, Seq<char>)>) -> Seq<
    (Seq<char>, Seq<char>),
>
    decreases b.len(),
{
    if b.len() == 0 {
        a
    } else {
        let acc = gguf_union(a, b.drop_last());
        if has_repo(acc, b.last().0) {
            acc
        } else {
            acc.push(b.last())
        }
    }
}

/// `a`, or `b` where `a` is `None`.
pub open spec fn first_some<T>(a: Option<T>, b: Option<T>) -> Option<T> {
    match a {
        Some(x) => Some(x),
        None => b,
    }
}

/// The larger of two counts.
pub open spec fn max_u64(a: u64, b: u64) -> u64 {
    if b > a {
        b
    } else {
        a
    }
}

/// What merging duplicate row `en` into `ex` leaves: the higher parameter
/// count, the larger context, MoE if either is (with the MoE details of
/// the first MoE row), the later release date, the union of capabilities and
/// of GGUF sources (by repo), the larger popularity counts, and the first
/// known architecture facts and license; the rest stays as in `ex`.
#[verifier::opaque]
pub open spec fn merge_view(ex: HfEntryView, en: HfEntryView) -> HfEntryView {
    let more_params = en.parameters_raw.unwrap_or(0) > ex.parameters_raw.unwrap_or(0);
    let becomes_moe = en.is_moe && !ex.is_moe;
    HfEntryView {
        parameter_count: if more_params {
            en.parameter_count
        } else {
            ex.parameter_count
        },
        parameters_raw: if more_params {
            en.parameters_raw
        } else {
            ex.parameters_raw
        },
        context_length: if en.context_length > ex.context_length {
            en.context_length
        } else {
            ex.context_length
        },
        is_moe: ex.is_moe || en.is_moe,
        num_experts: if becomes_moe {
            en.num_experts
        } else {
            ex.num_experts
        },
        active_experts: if becomes_moe {
            en.active_experts
        } else {
            ex.active_experts
        },
        active_parameters: if becomes_moe {
            en.active_parameters
        } else {
            ex.active_parameters
        },
        release_date: if opt_str_gt(en.release_date, ex.release_date) {
            en.release_date
        } else {
            ex.release_date
        },
        capabilities: cap_union(ex.capabilities, en.capabilities),
        gguf_sources: gguf_union(ex.gguf_sources, en.gguf_sources),
        hf_downloads: max_u64(ex.hf_downloads, en.hf_downloads),
        hf_likes: max_u64(ex.hf_likes, en.hf_likes),
        num_attention_heads: first_some(ex.num_attention_heads, en.num_attention_heads),
        num_key_value_heads: first_some(ex.num_key_value_heads, en.num_key_value_heads),
        num_hidden_layers: first_some(ex.num_hidden_layers, en.num_hidden_layers),
        head_dim: first_some(ex.head_dim, en.head_dim),
        license: first_some(ex.license, en.license),
        ..ex
    }
}

/// A copy of a string.
fn copy_opt_string(o: &Option<String>) -> (r: Option<String>)
    ensures
        opt_view(r) == opt_view(*o),
{
    match o {
        Some(s) => Some(s.clone()),
        None => None,
    }
}

/// A copy of a GGUF source.
fn copy_source(s: &GgufSource) -> (r: GgufSource)
    ensures
        r.repo@ == s.repo@,
        r.provider@ == s.provider@,
{
    GgufSource { repo: s.repo.clone(), provider: s.provider.clone() }
}

/// A copy of a list of GGUF sources.
fn copy_sources(v: &Vec<GgufSource>) -> (r: Vec<GgufSource>)
    ensures
        gguf_views(r@) == gguf_views(v@),
{
    let mut r: Vec<GgufSource> = Vec::new();
    let mut i: usize = 0;
    while i < v.len()
        invariant
            i <= v@.len(),
            gguf_views(r@) == gguf_views(v@).subrange(0, i as int),
        decreases v@.len() - i,
    {
        let c = copy_source(&v[i]);
        let ghost before = r@;
        r.push(c);
        assert(gguf_views(r@) =~= gguf_views(before).push(gguf_views(v@)[i as int]));
        i += 1;
        assert(gguf_views(r@) =~= gguf_views(v@).subrange(0, i as int));
    }
    assert(gguf_views(v@).subrange(0, i as int) =~= gguf_views(v@));
    r
}

/// A copy of a list of capabilities.
fn copy_caps(v: &Vec<Capability>) -> (r: Vec<Capability>)
    ensures
        r@ == v@,
{
    let mut r: Vec<Capability> = Vec::new();
    let mut i: usize = 0;
    while i < v.len()
        invariant
            i <= v@.len(),
            r@ == v@.subrange(0, i as int),
        decreases v@.len() - i,
    {
        r.push(v[i]);
        i += 1;
        assert(r@ =~= v@.subrange(0, i as int));
    }
    assert(v@.subrange(0, i as int) =~= v@);
    r
}

/// A copy of a catalogue row.
fn copy_entry(e: &HfModelEntry) -> (r: HfModelEntry)
    ensures
        r@ == e@,
{
    proof {
        reveal(hf_view);
    }
    HfModelEntry {
        name: e.name.clone(),
        provider: e.provider.clone(),
        parameter_count: e.parameter_count.clone(),
        parameters_raw: e.parameters_raw,
        quantization: e.quantization.clone(),
        context_length: e.context_length,
        use_case: e.use_case.clone(),
        is_moe: e.is_moe,
        num_experts: e.num_experts,
        active_experts: e.active_experts,
        active_parameters: e.active_parameters,
        release_date: copy_opt_string(&e.release_date),
        gguf_sources: copy_sources(&e.gguf_sources),
        capabilities: copy_caps(&e.capabilities),
        format: e.format,
        hf_downloads: e.hf_downloads,
        hf_likes: e.hf_likes,
        num_attention_heads: e.num_attention_heads,
        num_key_value_heads: e.num_key_value_heads,
        num_hidden_layers: e.num_hidden_layers,
        head_dim: e.head_dim,
        hidden_size: e.hidden_size,
        vocab_size: e.vocab_size,
        moe_intermediate_size: e.moe_intermediate_size,
        shared_expert_intermediate_size: e.shared_expert_intermediate_size,
        license: copy_opt_string(&e.license),
        architecture: copy_opt_string(&e.architecture),
    }
}

/// Is `a` later than `b` in `Option<String>` order?
fn later_date(a: &Option<String>, b: &Option<String>) -> (r: bool)
    ensures
        r == opt_str_gt(opt_view(*a), opt_view(*b)),
{
    match (a, b) {
        (Some(x), Some(y)) => lex_less(&chars_of(y.as_str()), &chars_of(x.as_str())),
        (Some(_), None) => true,
        (None, _) => false,
    }
}

/// `a` with the capabilities of `b` it lacks appended in order.
fn union_caps(a: &Vec<Capability>, b: &Vec<Capability>) -> (r: Vec<Capability>)
    ensures
        r@ == cap_union(a@, b@),
{
    let mut r = copy_caps(a);
    let mut i: usize = 0;
    while i < b.len()
        invariant
            i <= b@.len(),
            r@ == cap_union(a@, b@.subrange(0, i as int)),
        decreases b@.len() - i,
    {
        assert(b@.subrange(0, i + 1).drop_last() =~= b@.subrange(0, i as int));
        if !has_capability(&r, b[i]) {
            r.push(b[i]);
        }
        i += 1;
    }
    assert(b@.subrange(0, i as int) =~= b@);
    r
}

/// Does some source in `v` come from `repo`?
fn repo_present(v: &Vec<GgufSource>, repo: &String) -> (r: bool)
    ensures
        r == has_repo(gguf_views(v@), repo@),
{
    let ghost s = gguf_views(v@);
    let rv = chars_of(repo.as_str());
    let mut i: usize = 0;
    while i < v.len()
        invariant
            i <= v@.len(),
            s == gguf_views(v@),
            rv@ == repo@,
            forall|k: int| 0 <= k < i ==> s[k].0 != repo@,
        decreases v@.len() - i,
    {
        if eq_str(&rv, v[i].repo.as_str()) {
            assert(s[i as int].0 == repo@);
            return true;
        }
        i += 1;
    }
    false
}

/// `a` with the sources of `b` from repos it lacks appended in order.
fn union_sources(a: &Vec<GgufSource>, b: &Vec<GgufSource>) -> (r: Vec<GgufSource>)
    ensures
        gguf_views(r@) == gguf_union(gguf_views(a@), gguf_views(b@)),
{
    let ghost bv = gguf_views(b@);
    let mut r = copy_sources(a);
    let mut i: usize = 0;
    while i < b.len()
        invariant
            i <= b@.len(),
            bv == gguf_views(b@),
            gguf_views(r@) == gguf_union(gguf_views(a@), bv.subrange(0, i as int)),
        decreases b@.len() - i,
    {
        assert(bv.subrange(0, i + 1).drop_last() =~= bv.subrange(0, i as int));
        assert(bv.subrange(0, i + 1).last() == bv[i as int]);
        if !repo_present(&r, &b[i].repo) {
            let ghost before = r@;
            r.push(copy_source(&b[i]));
            assert(gguf_views(r@) =~= gguf_views(before).push(bv[i as int]));
        }
        i += 1;
    }
    assert(bv.subrange(0, i as int) =~= bv);
    r
}

/// Merges duplicate row `entry` into `existing` by the rules of
/// `merge_view`.
#[verifier::rlimit(100)]
pub fn merge_hf_entry(existing: &mut HfModelEntry, entry: &HfModelEntry)
    ensures
        final(existing)@ == merge_view(old(existing)@, entry@),
{
    proof {
        reveal(merge_view);
        reveal(hf_view);
    }
    if entry.parameters_raw.unwrap_or(0) > existing.parameters_raw.unwrap_or(0) {
        existing.parameter_count = entry.parameter_count.clone();
        existing.parameters_raw = entry.parameters_raw;
    }
    if entry.context_length > existing.context_length {
        existing.context_length = entry.context_length;
    }
    if entry.is_moe && !existing.is_moe {
        existing.is_moe = true;
        existing.num_experts = entry.num_experts;
        existing.active_experts = entry.active_experts;
        existing.active_parameters = entry.active_parameters;
    }
    if later_date(&entry.release_date, &existing.release_date) {
        existing.release_date = copy_opt_string(&entry.release_date);
    }
    existing.capabilities = union_caps(&existing.capabilities, &entry.capabilities);
    existing.gguf_sources = union_sources(&existing.gguf_sources, &entry.gguf_sources);
    if entry.hf_downloads > existing.hf_downloads {
        existing.hf_downloads = entry.hf_downloads;
    }
    if entry.hf_likes > existing.hf_likes {
        existing.hf_likes = entry.hf_likes;
    }
    if existing.num_attention_heads.is_none() {
        existing.num_attention_heads = entry.num_attention_heads;
    }
    if existing.num_key_value_heads.is_none() {
        existing.num_key_value_heads = entry.num_key_value_heads;
    }
    if existing.num_hidden_layers.is_none() {
        existing.num_hidden_layers = entry.num_hidden_layers;
    }
    if existing.head_dim.is_none() {
        existing.head_dim = entry.head_dim;
    }
    if existing.license.is_none() {
        existing.license = copy_opt_string(&entry.license);
    }
}


/// Rows that name one model, merged: the merged row, and the positions in
/// the input of the rows merged into it, in order (the first gave its name).
#[derive(Debug)]
pub struct DedupedEntry {
    pub entry: HfModelEntry,
    pub members: Vec<usize>,
}

/// Capabilities hold no duplicates.
pub open spec fn caps_distinct(s: Seq<Capability>) -> bool {
    forall|i: int, j: int| 0 <= i < j < s.len() ==> s[i] != s[j]
}

/// No two sources share a repo.
pub open spec fn repos_distinct(s: Seq<(Seq<char>, Seq<char>)>) -> bool {
    forall|i: int, j: int| 0 <= i < j < s.len() ==> s[i].0 != s[j].0
}

/// The capability union holds what either side holds, and adds no
/// duplicate.
proof fn lemma_cap_union(a: Seq<Capability>, b: Seq<Capability>)
    ensures
        forall|c: Capability| #[trigger]
            cap_union(a, b).contains(c) <==> (a.contains(c) || b.contains(c)),
        caps_distinct(a) ==> caps_distinct(cap_union(a, b)),
    decreases b.len(),
{
    if b.len() > 0 {
        lemma_cap_union(a, b.drop_last());
        let acc = cap_union(a, b.drop_last());
        assert forall|c: Capability| #[trigger]
            cap_union(a, b).contains(c) <==> (a.contains(c) || b.contains(c)) by {
            if b.contains(c) {
                let i = choose|i: int| 0 <= i < b.len() && b[i] == c;
                if i < b.len() - 1 {
                    assert(b.drop_last()[i] == c);
                }
            }
            if b.drop_last().contains(c) {
                let i = choose|i: int| 0 <= i < b.drop_last().len() && b.drop_last()[i] == c;
                assert(b[i] == c);
            }
            if !acc.contains(b.last()) {
                if acc.push(b.last()).contains(c) {
                    let i = choose|i: int| 0 <= i < acc.push(b.last()).len() && acc.push(b.last())[i] == c;
                    if i < acc.len() {
                        assert(acc[i] == c);
                    }
                }
                if acc.contains(c) {
                    let i = choose|i: int| 0 <= i < acc.len() && acc[i] == c;
                    assert(acc.push(b.last())[i] == c);
                }
                assert(acc.push(b.last())[acc.len() as int] == b.last());
            }
            assert(b[b.len() - 1] == b.last());
        }
    }
}

/// The source union covers the repos of either side, and adds no repo
/// twice.
proof fn lemma_gguf_union(a: Seq<(Seq<char>, Seq<char>)>, b: Seq<(Seq<char>, Seq<char>)>)
    ensures
        forall|r: Seq<char>| #[trigger]
            has_repo(gguf_union(a, b), r) <==> (has_repo(a, r) || has_repo(b, r)),
        repos_distinct(a) ==> repos_distinct(gguf_union(a, b)),
    decreases b.len(),
{
    if b.len() > 0 {
        lemma_gguf_union(a, b.drop_last());
        let acc = gguf_union(a, b.drop_last());
        let l = b.last();
        assert(b[b.len() - 1] == l);
        assert forall|r: Seq<char>| #[trigger]
            has_repo(gguf_union(a, b), r) <==> (has_repo(a, r) || has_repo(b, r)) by {
            if has_repo(b, r) {
                let i = choose|i: int| 0 <= i < b.len() && (#[trigger] b[i]).0 == r;
                if i < b.len() - 1 {
                    assert(b.drop_last()[i] == b[i]);
                }
            }
            if has_repo(b.drop_last(), r) {
                let i = choose|i: int| 0 <= i < b.drop_last().len() && (#[trigger] b.drop_last()[i]).0 == r;
                assert(b[i] == b.drop_last()[i]);
            }
            if !has_repo(acc, l.0) {
                let p = acc.push(l);
                if has_repo(p, r) {
                    let i = choose|i: int| 0 <= i < p.len() && (#[trigger] p[i]).0 == r;
                    if i < acc.len() {
                        assert(acc[i] == p[i]);
                    }
                }
                if has_repo(acc, r) {
                    let i = choose|i: int| 0 <= i < acc.len() && (#[trigger] acc[i]).0 == r;
                    assert(p[i] == acc[i]);
                }
                assert(p[acc.len() as int] == l);
            }
        }
        if repos_distinct(a) && !has_repo(acc, l.0) {
            let p = acc.push(l);
            assert forall|i: int, j: int| 0 <= i < j < p.len() implies p[i].0 != p[j].0 by {
                if j == acc.len() {
                    assert(p[i] == acc[i]);
                    if p[i].0 == p[j].0 {
                        assert(has_repo(acc, l.0));
                    }
                } else {
                    assert(p[i] == acc[i]);
                    assert(p[j] == acc[j]);
                }
            }
        }
    }
}

/// `Option<String>` order is asymmetric.
proof fn lemma_opt_str_asymmetric(a: Option<Seq<char>>, b: Option<Seq<char>>)
    ensures
        !(opt_str_gt(a, b) && opt_str_gt(b, a)),
{
    match (a, b) {
        (Some(x), Some(y)) => {
            if lex_lt(x, y) && lex_lt(y, x) {
                lemma_lex_transitive(x, y, x);
                lemma_lex_irreflexive(x);
            }
        },
        _ => {},
    }
}

/// The rules by which duplicate rows merge: the higher parameter count, the
/// larger context and the larger popularity counts win; the result is MoE
/// if either row is; the release date is the later one; capabilities and
/// GGUF sources (by repo) are the union of both, with no duplicates added;
/// each architecture fact and the license come from the first row that
/// knows them; the name is the first row's.
pub proof fn lemma_merge_rules(ex: HfEntryView, en: HfEntryView)
    ensures
        ({
            let m = merge_view(ex, en);
            &&& m.name == ex.name
            &&& m.parameters_raw.unwrap_or(0) == max_u64(
                ex.parameters_raw.unwrap_or(0),
                en.parameters_raw.unwrap_or(0),
            )
            &&& m.context_length >= ex.context_length && m.context_length >= en.context_length
            &&& (m.context_length == ex.context_length || m.context_length == en.context_length)
            &&& m.is_moe == (ex.is_moe || en.is_moe)
            &&& m.hf_downloads == max_u64(ex.hf_downloads, en.hf_downloads)
            &&& m.hf_likes == max_u64(ex.hf_likes, en.hf_likes)
            &&& (m.release_date == ex.release_date || m.release_date == en.release_date)
            &&& !opt_str_gt(ex.release_date, m.release_date)
            &&& !opt_str_gt(en.release_date, m.release_date)
            &&& forall|c: Capability| #[trigger]
                m.capabilities.contains(c) <==> (ex.capabilities.contains(c)
                    || en.capabilities.contains(c))
            &&& caps_distinct(ex.capabilities) ==> caps_distinct(m.capabilities)
            &&& forall|r: Seq<char>| #[trigger]
                has_repo(m.gguf_sources, r) <==> (has_repo(ex.gguf_sources, r) || has_repo(
                    en.gguf_sources,
                    r,
                ))
            &&& repos_distinct(ex.gguf_sources) ==> repos_distinct(m.gguf_sources)
            &&& m.num_attention_heads == first_some(ex.num_attention_heads, en.num_attention_heads)
            &&& m.num_key_value_heads == first_some(ex.num_key_value_heads, en.num_key_value_heads)
            &&& m.num_hidden_layers == first_some(ex.num_hidden_layers, en.num_hidden_layers)
            &&& m.head_dim == first_some(ex.head_dim, en.head_dim)
            &&& m.license == first_some(ex.license, en.license)
        }),
{
    reveal(merge_view);
    lemma_cap_union(ex.capabilities, en.capabilities);
    lemma_gguf_union(ex.gguf_sources, en.gguf_sources);
    lemma_opt_str_asymmetric(ex.release_date, en.release_date);
    match ex.release_date {
        Some(x) => lemma_lex_irreflexive(x),
        None => {},
    }
    match en.release_date {
        Some(x) => lemma_lex_irreflexive(x),
        None => {},
    }
}

/// The plain values of each row.
pub open spec fn entry_views(v: Seq<HfModelEntry>) -> Seq<HfEntryView> {
    v.map_values(|e: HfModelEntry| e@)
}

/// The canonical slug of each row.
pub open spec fn entry_slugs(es: Seq<HfEntryView>) -> Seq<Seq<char>> {
    es.map_values(|e: HfEntryView| slug_of(e.name))
}

/// The positions of the slugs equal to `x`, in order.
pub open spec fn slug_members(sl: Seq<Seq<char>>, x: Seq<char>) -> Seq<usize>
    decreases sl.len(),
{
    if sl.len() == 0 {
        Seq::empty()
    } else if sl.last() == x {
        slug_members(sl.drop_last(), x).push((sl.len() - 1) as usize)
    } else {
        slug_members(sl.drop_last(), x)
    }
}

/// The rows at the given positions.
pub open spec fn member_views(es: Seq<HfEntryView>, ms: Seq<usize>) -> Seq<HfEntryView> {
    ms.map_values(|m: usize| es[m as int])
}

/// Rows merged from the first on, each later one into the result so far.
pub open spec fn fold_views(vs: Seq<HfEntryView>) -> HfEntryView
    decreases vs.len(),
{
    if vs.len() <= 1 {
        vs[0]
    } else {
        merge_view(fold_views(vs.drop_last()), vs.last())
    }
}

/// The slug under which a merged row stands.
pub open spec fn group_slug(d: DedupedEntry) -> Seq<char> {
    slug_of(d.entry@.name)
}

/// `out` merges the first `n` rows of `es`: one group per slug, in the
/// order the slugs first appear, each holding exactly the rows with its
/// slug, merged in input order.
pub open spec fn deduped(out: Seq<DedupedEntry>, es: Seq<HfEntryView>, n: int) -> bool {
    &&& forall|g: int|
        0 <= g < out.len() ==> (#[trigger] out[g]).members@ == slug_members(
            entry_slugs(es.subrange(0, n)),
            group_slug(out[g]),
        ) && out[g].members@.len() > 0 && out[g].entry@ == fold_views(
            member_views(es, out[g].members@),
        )
    &&& forall|a: int, b: int| 0 <= a < b < out.len() ==> group_slug(out[a]) != group_slug(out[b])
    &&& forall|a: int, b: int|
        0 <= a < b < out.len() ==> out[a].members@[0] < out[b].members@[0]
    &&& forall|j: int|
        0 <= j < n ==> exists|g: int|
            0 <= g < out.len() && group_slug(#[trigger] out[g]) == slug_of(
                (#[trigger] es[j]).name,
            )
}

/// Without `x` among the slugs there are no positions for it.
proof fn lemma_slug_members_absent(sl: Seq<Seq<char>>, x: Seq<char>)
    requires
        forall|j: int| 0 <= j < sl.len() ==> (#[trigger] sl[j]) != x,
    ensures
        slug_members(sl, x) == Seq::<usize>::empty(),
    decreases sl.len(),
{
    if sl.len() > 0 {
        assert(sl[sl.len() - 1] == sl.last());
        assert forall|j: int| 0 <= j < sl.drop_last().len() implies (#[trigger] sl.drop_last()[j]) != x by {
            assert(sl.drop_last()[j] == sl[j]);
        }
        lemma_slug_members_absent(sl.drop_last(), x);
    }
}

/// Merging keeps the name of the row merged into.
proof fn lemma_merge_name(ex: HfEntryView, en: HfEntryView)
    ensures
        merge_view(ex, en).name == ex.name,
{
    reveal(merge_view);
}

/// Merging keeps the name of the first row.
proof fn lemma_fold_name(vs: Seq<HfEntryView>)
    requires
        vs.len() > 0,
    ensures
        fold_views(vs).name == vs[0].name,
    decreases vs.len(),
{
    if vs.len() > 1 {
        lemma_fold_name(vs.drop_last());
        lemma_merge_name(fold_views(vs.drop_last()), vs.last());
    }
}

/// The merge state after `n` rows: `out` merges them, `keys` holds each
/// group's slug, and every member position is below `n`.
#[verifier::opaque]
pub open spec fn dedupe_state(
    out: Seq<DedupedEntry>,
    keys: Seq<Vec<char>>,
    es: Seq<HfEntryView>,
    n: int,
) -> bool {
    &&& deduped(out, es, n)
    &&& keys.len() == out.len()
    &&& forall|g: int| 0 <= g < keys.len() ==> (#[trigger] keys[g])@ == group_slug(out[g])
    &&& forall|g: int, t: int|
        0 <= g < out.len() && 0 <= t < out[g].members@.len() ==> (#[trigger] out[g].members@[t]) < n
}

/// Nothing merged yet.
proof fn lemma_dedupe_start(es: Seq<HfEntryView>)
    ensures
        dedupe_state(Seq::empty(), Seq::empty(), es, 0),
{
    reveal(dedupe_state);
}

/// The merge state gives the merge.
proof fn lemma_dedupe_done(out: Seq<DedupedEntry>, keys: Seq<Vec<char>>, es: Seq<HfEntryView>, n: int)
    requires
        dedupe_state(out, keys, es, n),
    ensures
        deduped(out, es, n),
{
    reveal(dedupe_state);
}

/// The group slugs are the keys.
proof fn lemma_dedupe_keys(out: Seq<DedupedEntry>, keys: Seq<Vec<char>>, es: Seq<HfEntryView>, n: int)
    requires
        dedupe_state(out, keys, es, n),
    ensures
        keys.len() == out.len(),
{
    reveal(dedupe_state);
}

/// Merging row `i` into group `k` (which has its slug) keeps the merge
/// state, one row further on.
#[verifier::spinoff_prover]
#[verifier::rlimit(40)]
proof fn lemma_add_to_group(
    o_old: Seq<DedupedEntry>,
    keys: Seq<Vec<char>>,
    k: int,
    d: DedupedEntry,
    es: Seq<HfEntryView>,
    i: usize,
)
    requires
        dedupe_state(o_old, keys, es, i as int),
        0 <= k < keys.len(),
        i < es.len(),
        keys[k]@ == slug_of(es[i as int].name),
        d.entry@ == merge_view(o_old[k].entry@, es[i as int]),
        d.members@ == o_old[k].members@.push(i),
    ensures
        dedupe_state(o_old.update(k, d), keys, es, i + 1),
{
    reveal(dedupe_state);
    let d_old = o_old[k];
    let out = o_old.update(k, d);
    let x = slug_of(es[i as int].name);
    let ev = es[i as int];
    let sl = entry_slugs(es.subrange(0, i as int));
    let sl2 = entry_slugs(es.subrange(0, i + 1));
    assert(sl2 =~= sl.push(x));
    assert(sl2.drop_last() =~= sl);
    lemma_merge_name(d_old.entry@, ev);
    assert(group_slug(d) == group_slug(d_old));
    assert(member_views(es, d.members@) =~= member_views(es, d_old.members@).push(ev));
    assert(member_views(es, d.members@).drop_last() =~= member_views(es, d_old.members@));
    assert(slug_members(sl2, x) == slug_members(sl, x).push(i));
    assert forall|g: int| 0 <= g < out.len() implies (#[trigger] out[g]).members@ == slug_members(
        sl2,
        group_slug(out[g]),
    ) && out[g].members@.len() > 0 && out[g].entry@ == fold_views(member_views(es, out[g].members@)) by {
        if g != k {
            assert(out[g] == o_old[g]);
            assert(group_slug(o_old[g]) != group_slug(o_old[k])) by {
                if g < k {
                } else {
                }
            }
        }
    }
    assert forall|a: int, b: int|
        0 <= a < b < out.len() implies group_slug(out[a]) != group_slug(out[b]) by {
        assert(group_slug(out[a]) == group_slug(o_old[a]));
        assert(group_slug(out[b]) == group_slug(o_old[b]));
    }
    assert forall|a: int, b: int| 0 <= a < b < out.len() implies out[a].members@[0] < out[b].members@[0] by {
        assert(d.members@[0] == d_old.members@[0]);
    }
    assert forall|j: int| 0 <= j < i + 1 implies exists|g: int|
        0 <= g < out.len() && group_slug(#[trigger] out[g]) == slug_of((#[trigger] es[j]).name) by {
        if j < i {
            let g = choose|g: int|
                0 <= g < o_old.len() && group_slug(#[trigger] o_old[g]) == slug_of(es[j].name);
            assert(group_slug(out[g]) == group_slug(o_old[g]));
        } else {
            assert(group_slug(out[k]) == x);
        }
    }
    assert forall|g: int| 0 <= g < keys.len() implies (#[trigger] keys[g])@ == group_slug(out[g]) by {
        assert(group_slug(out[g]) == group_slug(o_old[g]));
    }
    assert forall|g: int, t: int|
        0 <= g < out.len() && 0 <= t < out[g].members@.len() implies (#[trigger] out[g].members@[t])
        < i + 1 by {
        if g != k {
            assert(out[g] == o_old[g]);
        } else if t < d_old.members@.len() {
            assert(out[g].members@[t] == d_old.members@[t]);
        }
    }
}

/// Starting a new group with row `i`, whose slug no group has yet, keeps
/// the merge state, one row further on.
#[verifier::spinoff_prover]
#[verifier::rlimit(40)]
proof fn lemma_open_group(
    o_old: Seq<DedupedEntry>,
    k_old: Seq<Vec<char>>,
    d: DedupedEntry,
    slug: Vec<char>,
    es: Seq<HfEntryView>,
    i: usize,
)
    requires
        dedupe_state(o_old, k_old, es, i as int),
        i < es.len(),
        d.entry@ == es[i as int],
        d.members@ == seq![i],
        slug@ == slug_of(es[i as int].name),
        forall|g: int| 0 <= g < k_old.len() ==> (#[trigger] k_old[g])@ != slug@,
    ensures
        dedupe_state(o_old.push(d), k_old.push(slug), es, i + 1),
{
    reveal(dedupe_state);
    let out = o_old.push(d);
    let keys = k_old.push(slug);
    let x = slug@;
    let ev = es[i as int];
    let sl = entry_slugs(es.subrange(0, i as int));
    let sl2 = entry_slugs(es.subrange(0, i + 1));
    assert(sl2 =~= sl.push(x));
    assert(sl2.drop_last() =~= sl);
    assert forall|j: int| 0 <= j < sl.len() implies (#[trigger] sl[j]) != x by {
        assert(sl[j] == slug_of(es[j].name));
        let g = choose|g: int|
            0 <= g < o_old.len() && group_slug(#[trigger] o_old[g]) == slug_of(es[j].name);
        assert(k_old[g]@ == group_slug(o_old[g]));
    }
    lemma_slug_members_absent(sl, x);
    assert(member_views(es, d.members@) =~= seq![ev]);
    assert(group_slug(d) == x);
    assert(slug_members(sl2, x) =~= seq![i]);
    assert forall|g: int| 0 <= g < out.len() implies (#[trigger] out[g]).members@ == slug_members(
        sl2,
        group_slug(out[g]),
    ) && out[g].members@.len() > 0 && out[g].entry@ == fold_views(member_views(es, out[g].members@)) by {
        if g < o_old.len() {
            assert(out[g] == o_old[g]);
            assert(k_old[g]@ == group_slug(o_old[g]));
        }
    }
    assert forall|a: int, b: int|
        0 <= a < b < out.len() implies group_slug(out[a]) != group_slug(out[b]) by {
        if b == o_old.len() {
            assert(k_old[a]@ == group_slug(o_old[a]));
        }
    }
    assert forall|a: int, b: int| 0 <= a < b < out.len() implies out[a].members@[0] < out[b].members@[0] by {
        if b == o_old.len() {
            assert(out[a] == o_old[a]);
            assert(out[a].members@[0] < i);
        }
    }
    assert forall|j: int| 0 <= j < i + 1 implies exists|g: int|
        0 <= g < out.len() && group_slug(#[trigger] out[g]) == slug_of((#[trigger] es[j]).name) by {
        if j < i {
            let g = choose|g: int|
                0 <= g < o_old.len() && group_slug(#[trigger] o_old[g]) == slug_of(es[j].name);
            assert(out[g] == o_old[g]);
        } else {
            assert(group_slug(out[o_old.len() as int]) == x);
        }
    }
    assert forall|g: int| 0 <= g < keys.len() implies (#[trigger] keys[g])@ == group_slug(out[g]) by {
        if g < k_old.len() {
            assert(keys[g] == k_old[g]);
            assert(out[g] == o_old[g]);
        }
    }
    assert forall|g: int, t: int|
        0 <= g < out.len() && 0 <= t < out[g].members@.len() implies (#[trigger] out[g].members@[t])
        < i + 1 by {
        if g < o_old.len() {
            assert(out[g] == o_old[g]);
        }
    }
}

/// Collapse rows that name the same model (by canonical slug) into one,
/// merging their metadata by the rules of `merge_view`. The groups come in
/// the order their slugs first appear; each reports which rows it merged,
/// so that the caller can merge the memory estimates the same way.
pub fn dedupe_hf_entries(entries: Vec<HfModelEntry>) -> (r: Vec<DedupedEntry>)
    ensures
        deduped(r@, entry_views(entries@), entries@.len() as int),
{
    let ghost es = entry_views(entries@);
    let mut out: Vec<DedupedEntry> = Vec::new();
    let mut keys: Vec<Vec<char>> = Vec::new();
    proof {
        lemma_dedupe_start(es);
    }
    let mut i: usize = 0;
    while i < entries.len()
        invariant
            i <= entries@.len(),
            es == entry_views(entries@),
            dedupe_state(out@, keys@, es, i as int),
        decreases entries@.len() - i,
    {
        let slug_s = canonical_slug(entries[i].name.as_str());
        let slug = chars_of(slug_s.as_str());
        proof {
            lemma_view_name(entries@[i as int]);
            lemma_dedupe_keys(out@, keys@, es, i as int);
        }
        assert(es[i as int] == entries@[i as int]@);
        let mut k: usize = 0;
        while k < keys.len() && !eq_chars(&keys[k], &slug)
            invariant
                k <= keys@.len(),
                forall|g: int| 0 <= g < k ==> (#[trigger] keys@[g])@ != slug@,
            decreases keys@.len() - k,
        {
            k += 1;
        }
        let ghost o_old = out@;
        let ghost k_old = keys@;
        if k < keys.len() {
            let mut d = out.remove(k);
            merge_hf_entry(&mut d.entry, &entries[i]);
            d.members.push(i);
            out.insert(k, d);
            proof {
                assert(out@ =~= o_old.update(k as int, d));
                lemma_add_to_group(o_old, keys@, k as int, d, es, i);
            }
        } else {
            let mut ms: Vec<usize> = Vec::new();
            ms.push(i);
            let d = DedupedEntry { entry: copy_entry(&entries[i]), members: ms };
            out.push(d);
            proof {
                lemma_open_group(o_old, k_old, d, slug, es, i);
            }
            keys.push(slug);
        }
        i += 1;
    }
    proof {
        lemma_dedupe_done(out@, keys@, es, i as int);
    }
    out
}


/// The model catalogue.
pub struct ModelDatabase {
    models: Vec<LlmModel>,
}

impl View for ModelDatabase {
    type V = Seq<LlmModel>;

    closed spec fn view(&self) -> Seq<LlmModel> {
        self.models@
    }
}

/// A model matches a query when its name, provider or parameter count,
/// lower-cased, contains the lower-cased query.
pub open spec fn model_matches(m: LlmModel, q: Seq<char>) -> bool {
    let ql = str_lowercase(q);
    has_substring(str_lowercase(m.name@), ql) || has_substring(str_lowercase(m.provider@), ql)
        || has_substring(str_lowercase(m.parameter_count@), ql)
}

/// The models that match a query, in catalogue order.
pub open spec fn matching_models(ms: Seq<LlmModel>, q: Seq<char>) -> Seq<LlmModel>
    decreases ms.len(),
{
    if ms.len() == 0 {
        Seq::empty()
    } else if model_matches(ms.last(), q) {
        matching_models(ms.drop_last(), q).push(ms.last())
    } else {
        matching_models(ms.drop_last(), q)
    }
}

/// Some embedded model has the canonical slug `x`.
pub open spec fn slug_known(embedded: Seq<String>, x: Seq<char>) -> bool {
    exists|i: int| 0 <= i < embedded.len() && slug_of((#[trigger] embedded[i])@) == x
}

/// The positions of the cached models whose canonical slug no embedded
/// model has, in increasing order.
pub open spec fn cached_kept(embedded: Seq<String>, cached: Seq<String>) -> Seq<usize>
    decreases cached.len(),
{
    if cached.len() == 0 {
        Seq::empty()
    } else if slug_known(embedded, slug_of(cached.last()@)) {
        cached_kept(embedded, cached.drop_last())
    } else {
        cached_kept(embedded, cached.drop_last()).push((cached.len() - 1) as usize)
    }
}

/// Merging the cache keeps exactly the cached models that are new: every
/// kept position names a cached model whose slug no embedded model has,
/// each such cached model is kept, and the positions increase (cached
/// order is kept).
pub proof fn lemma_cached_kept(embedded: Seq<String>, cached: Seq<String>)
    requires
        cached.len() <= usize::MAX,
    ensures
        ({
            let keep = cached_kept(embedded, cached);
            &&& forall|t: int|
                0 <= t < keep.len() ==> (#[trigger] keep[t]) < cached.len() && !slug_known(
                    embedded,
                    slug_of(cached[keep[t] as int]@),
                )
            &&& forall|j: int|
                0 <= j < cached.len() && !slug_known(embedded, slug_of((#[trigger] cached[j])@))
                    ==> keep.contains(j as usize)
            &&& forall|a: int, b: int| 0 <= a < b < keep.len() ==> keep[a] < keep[b]
        }),
    decreases cached.len(),
{
    if cached.len() > 0 {
        let prev = cached.drop_last();
        lemma_cached_kept(embedded, prev);
        let kp = cached_kept(embedded, prev);
        assert forall|j: int|
            0 <= j < prev.len() && !slug_known(embedded, slug_of((#[trigger] cached[j])@))
            implies kp.contains(j as usize) by {
            assert(prev[j] == cached[j]);
        }
        if !slug_known(embedded, slug_of(cached.last()@)) {
            let keep = kp.push((cached.len() - 1) as usize);
            assert(keep[kp.len() as int] == (cached.len() - 1) as usize);
            assert forall|j: int|
                0 <= j < cached.len() && !slug_known(embedded, slug_of((#[trigger] cached[j])@))
                implies keep.contains(j as usize) by {
                if j < prev.len() {
                    let t = choose|t: int| 0 <= t < kp.len() && kp[t] == j as usize;
                    assert(keep[t] == kp[t]);
                } else {
                    assert(keep[kp.len() as int] == j as usize);
                }
            }
        } else {
            assert forall|j: int|
                0 <= j < cached.len() && !slug_known(embedded, slug_of((#[trigger] cached[j])@))
                implies kp.contains(j as usize) by {
                if j == prev.len() {
                    assert(cached[j] == cached.last());
                }
            }
        }
    }
}

/// Which locally cached models join the catalogue: given the names of the
/// embedded models and of the cached ones, the positions of the cached
/// models whose canonical slug is not already embedded, in order. They are
/// appended after the embedded models, so nothing is listed twice.
pub fn cached_to_keep(embedded: &Vec<String>, cached: &Vec<String>) -> (keep: Vec<usize>)
    ensures
        keep@ == cached_kept(embedded@, cached@),
{
    let mut known: Vec<Vec<char>> = Vec::new();
    let mut i: usize = 0;
    while i < embedded.len()
        invariant
            i <= embedded@.len(),
            known@.len() == i,
            forall|k: int| 0 <= k < i ==> (#[trigger] known@[k])@ == slug_of(embedded@[k]@),
        decreases embedded@.len() - i,
    {
        let slug = canonical_slug(embedded[i].as_str());
        known.push(chars_of(slug.as_str()));
        i += 1;
    }
    let mut keep: Vec<usize> = Vec::new();
    let mut j: usize = 0;
    assert(cached@.subrange(0, 0) =~= Seq::<String>::empty());
    while j < cached.len()
        invariant
            j <= cached@.len(),
            known@.len() == embedded@.len(),
            forall|k: int| 0 <= k < known@.len() ==> (#[trigger] known@[k])@ == slug_of(embedded@[k]@),
            keep@ == cached_kept(embedded@, cached@.subrange(0, j as int)),
        decreases cached@.len() - j,
    {
        let slug = canonical_slug(cached[j].as_str());
        let sv = chars_of(slug.as_str());
        let mut found = false;
        let mut k: usize = 0;
        while k < known.len() && !found
            invariant
                k <= known@.len(),
                found == exists|m: int| 0 <= m < k && known@[m]@ == sv@,
            decreases known@.len() - k,
        {
            if eq_chars(&known[k], &sv) {
                found = true;
            }
            k += 1;
        }
        assert(cached@.subrange(0, j + 1).drop_last() =~= cached@.subrange(0, j as int));
        assert(cached@.subrange(0, j + 1).last() == cached@[j as int]);
        proof {
            if found {
                let m = choose|m: int| 0 <= m < k && known@[m]@ == sv@;
                assert(slug_of(embedded@[m]@) == slug_of(cached@[j as int]@));
            } else {
                assert(k == known@.len());
                assert forall|m: int| 0 <= m < embedded@.len() implies slug_of(
                    (#[trigger] embedded@[m])@,
                ) != slug_of(cached@[j as int]@) by {
                    assert(known@[m]@ == slug_of(embedded@[m]@));
                }
            }
        }
        if !found {
            keep.push(j);
        }
        j += 1;
    }
    assert(cached@.subrange(0, j as int) =~= cached@);
    keep
}

/// Does the lower-cased text contain the already lower-cased query?
fn lower_contains(text: &str, ql: &Vec<char>) -> (r: bool)
    ensures
        r == has_substring(str_lowercase(text@), ql@),
{
    let l = to_lowercase(&chars_of(text));
    contains(&l, ql)
}

impl ModelDatabase {
    /// A catalogue of the given models, in the given order (loading and
    /// merging the catalogue data is the caller's).
    pub fn from_models(models: Vec<LlmModel>) -> (r: Self)
        ensures
            r@ == models@,
    {
        ModelDatabase { models }
    }

    /// Every model, in catalogue order.
    pub fn get_all_models(&self) -> (r: &Vec<LlmModel>)
        ensures
            r@ == self@,
    {
        &self.models
    }

    /// The models whose name, provider or parameter count contains the
    /// query, ignoring case, in catalogue order.
    pub fn find_model(&self, query: &str) -> (r: Vec<&LlmModel>)
        ensures
            r@.map_values(|m: &LlmModel| *m) == matching_models(self@, query@),
    {
        let ql = to_lowercase(&chars_of(query));
        let mut r: Vec<&LlmModel> = Vec::new();
        let mut i: usize = 0;
        assert(self.models@.subrange(0, 0) =~= Seq::<LlmModel>::empty());
        while i < self.models.len()
            invariant
                i <= self.models@.len(),
                ql@ == str_lowercase(query@),
                r@.map_values(|m: &LlmModel| *m) == matching_models(
                    self.models@.subrange(0, i as int),
                    query@,
                ),
            decreases self.models@.len() - i,
        {
            let m = &self.models[i];
            let ghost before = r@;
            assert(self.models@.subrange(0, i + 1).drop_last() =~= self.models@.subrange(0, i as int));
            assert(self.models@.subrange(0, i + 1).last() == *m);
            if lower_contains(m.name.as_str(), &ql) || lower_contains(m.provider.as_str(), &ql)
                || lower_contains(m.parameter_count.as_str(), &ql) {
                r.push(m);
                assert(r@.map_values(|m: &LlmModel| *m) =~= before.map_values(|m: &LlmModel| *m).push(*m));
            }
            i += 1;
        }
        assert(self.models@.subrange(0, i as int) =~= self.models@);
        r
    }
}

} // verus!
