//! Display helpers of the terminal interface: truncation and scrolling of
//! names, fit indicators, comparison badges, date formatting and the status
//! bar's key hints.
use vstd::prelude::*;
use crate::models::LlmModel;
use crate::text::{chars_of, decimal, decimal_of, push_chars, push_str, slice_of, string_of, zero_padded, zero_padded_of};

verus! {

/// At most `max_len` characters of `s`: `s` itself when it fits, nothing
/// when `max_len` is zero, else its first `max_len - 1` characters followed
/// by `~`.
pub open spec fn truncated_with_tilde(s: Seq<char>, max_len: nat) -> Seq<char> {
    if s.len() <= max_len {
        s
    } else if max_len == 0 {
        Seq::empty()
    } else {
        s.subrange(0, max_len - 1).push('~')
    }
}

/// Returns at most `max_len` characters of `s`, appending `~` if truncated.
/// Slices by characters, so multi-byte characters are never split.
pub fn truncate_str(s: &str, max_len: usize) -> (r: String)
    ensures
        r@ == truncated_with_tilde(s@, max_len as nat),
        r@.len() <= max_len,
        s@.len() > max_len && max_len >= 1 ==> r@.len() == max_len,
{
    let v = chars_of(s);
    if v.len() <= max_len {
        string_of(&v)
    } else if max_len == 0 {
        string_of(&Vec::new())
    } else {
        let mut head = slice_of(&v, 0, max_len - 1);
        head.push('~');
        string_of(&head)
    }
}

/// `text` cut to `max_chars` characters, the last one replaced by `…` when
/// cut.
pub open spec fn truncated_with_ellipsis(text: Seq<char>, max_chars: nat) -> Seq<char> {
    if max_chars == 0 {
        Seq::empty()
    } else if text.len() <= max_chars {
        text
    } else if max_chars == 1 {
        seq!['…']
    } else {
        text.subrange(0, max_chars - 1).push('…')
    }
}

/// Truncates to `max_chars` characters, ending with `…` when cut.
pub fn truncate_with_ellipsis(text: &str, max_chars: usize) -> (r: String)
    ensures
        r@ == truncated_with_ellipsis(text@, max_chars as nat),
        r@.len() <= max_chars,
{
    if max_chars == 0 {
        return string_of(&Vec::new());
    }
    let chars = chars_of(text);
    if chars.len() <= max_chars {
        return string_of(&chars);
    }
    if max_chars == 1 {
        let mut e: Vec<char> = Vec::new();
        e.push('…');
        return string_of(&e);
    }
    let mut head = slice_of(&chars, 0, max_chars - 1);
    head.push('…');
    string_of(&head)
}

/// The text, three spaces, and the text again: the ring a marquee scrolls
/// over.
pub open spec fn marquee_ring(t: Seq<char>) -> Seq<char> {
    t + seq![' ', ' ', ' '] + t
}

/// The window of a scrolling marquee at a given tick: `text` when it fits,
/// else `window_chars` characters of the ring starting at `(tick / 4) mod
/// (len + 3)`.
pub open spec fn marquee_window(text: Seq<char>, window_chars: nat, tick: u64) -> Seq<char> {
    if window_chars == 0 {
        Seq::empty()
    } else if text.len() <= window_chars {
        text
    } else {
        let start = ((tick / 4) as usize) as int % ((text.len() + 3) as int);
        marquee_ring(text).subrange(start, start + window_chars)
    }
}

/// A scrolling window over a name too long for its column; it advances one
/// character every 4 ticks.
pub fn marquee_text(text: &str, window_chars: usize, tick: u64) -> (r: String)
    ensures
        r@ == marquee_window(text@, window_chars as nat, tick),
        text@.len() > window_chars ==> r@.len() == window_chars,
{
    if window_chars == 0 {
        return string_of(&Vec::new());
    }
    let chars = chars_of(text);
    if chars.len() <= window_chars {
        return string_of(&chars);
    }
    let mut ring: Vec<char> = Vec::new();
    push_chars(&mut ring, &chars);
    ring.push(' ');
    ring.push(' ');
    ring.push(' ');
    push_chars(&mut ring, &chars);
    assert(ring@ =~= marquee_ring(text@));
    let ring_len = ring.len();
    assert(ring_len == 2 * chars@.len() + 3);
    let cycle = chars.len() + 3;
    let start = ((tick / 4) as usize) % cycle;
    let window = slice_of(&ring, start, start + window_chars);
    string_of(&window)
}

/// How well a model fits the system.
#[derive(Debug, Clone, Copy, PartialEq, Eq, Structural)]
pub enum FitLevel {
    Perfect,
    Good,
    Marginal,
    TooTight,
}

/// The fit indicator glyph (the same dot for every level; the colour tells
/// them apart).
pub fn fit_indicator(level: FitLevel) -> (r: &'static str)
    ensures
        r@ == "●"@,
{
    match level {
        FitLevel::Perfect => "●",
        FitLevel::Good => "●",
        FitLevel::Marginal => "●",
        FitLevel::TooTight => "●",
    }
}

/// The braille spinner frames of the download indicator.
pub open spec fn spinner_frames() -> Seq<char> {
    seq!['⠋', '⠙', '⠹', '⠸', '⠼', '⠴', '⠦', '⠧', '⠇', '⠏']
}

/// The spinner frame of the animated download indicator: it advances every
/// third tick and cycles through ten frames.
pub fn pull_spinner(tick: u64) -> (r: char)
    ensures
        r == spinner_frames()[(((tick as usize) / 3) % 10) as int],
{
    let frames: [char; 10] = ['⠋', '⠙', '⠹', '⠸', '⠼', '⠴', '⠦', '⠧', '⠇', '⠏'];
    let k = (tick as usize / 3) % 10;
    assert(frames@ =~= spinner_frames());
    frames[k]
}

/// How a model would be run.
#[derive(Debug, Clone, Copy, PartialEq, Eq, Structural)]
pub enum RunMode {
    Gpu,
    TensorParallel,
    MoeOffload,
    CpuOffload,
    CpuOnly,
}

/// A fit result, as far as the comparison view reads it.
pub struct ModelFit {
    pub model: LlmModel,
    pub fit_level: FitLevel,
    pub run_mode: RunMode,
    pub notes: Vec<String>,
}

/// The badges of a compared model: "MoE", "Offload" (experts offloaded) and
/// "Notes", joined by ", ", or "-" when there are none.
pub open spec fn badges(is_moe: bool, offload: bool, has_notes: bool) -> Seq<char> {
    let tags = (if is_moe {
        seq!["MoE"@]
    } else {
        Seq::empty()
    }) + (if offload {
        seq!["Offload"@]
    } else {
        Seq::empty()
    }) + (if has_notes {
        seq!["Notes"@]
    } else {
        Seq::empty()
    });
    if tags.len() == 0 {
        "-"@
    } else {
        joined(tags)
    }
}

/// The pieces joined by ", ".
pub open spec fn joined(tags: Seq<Seq<char>>) -> Seq<char>
    decreases tags.len(),
{
    if tags.len() == 0 {
        Seq::empty()
    } else if tags.len() == 1 {
        tags[0]
    } else {
        joined(tags.drop_last()) + ", "@ + tags.last()
    }
}

/// Badges for the comparison view.
pub fn compare_badges(fit: &ModelFit) -> (r: String)
    ensures
        r@ == badges(fit.model.is_moe, fit.run_mode == RunMode::MoeOffload, fit.notes@.len() > 0),
{
    let mut tags: Vec<&str> = Vec::new();
    if fit.model.is_moe {
        tags.push("MoE");
    }
    if fit.run_mode == RunMode::MoeOffload {
        tags.push("Offload");
    }
    if fit.notes.len() > 0 {
        tags.push("Notes");
    }
    let ghost tag_views = tags@.map_values(|t: &str| t@);
    assert(tag_views =~= (if fit.model.is_moe {
        seq!["MoE"@]
    } else {
        Seq::empty()
    }) + (if fit.run_mode == RunMode::MoeOffload {
        seq!["Offload"@]
    } else {
        Seq::empty()
    }) + (if fit.notes@.len() > 0 {
        seq!["Notes"@]
    } else {
        Seq::empty()
    }));
    let mut out: Vec<char> = Vec::new();
    if tags.len() == 0 {
        push_str(&mut out, "-");
        return string_of(&out);
    }
    let mut i: usize = 0;
    assert(tag_views.subrange(0, 0) =~= Seq::<Seq<char>>::empty());
    while i < tags.len()
        invariant
            i <= tags@.len(),
            tag_views == tags@.map_values(|t: &str| t@),
            out@ == joined(tag_views.subrange(0, i as int)),
        decreases tags@.len() - i,
    {
        assert(tag_views.subrange(0, i + 1).drop_last() =~= tag_views.subrange(0, i as int));
        if i > 0 {
            push_str(&mut out, ", ");
        }
        push_str(&mut out, tags[i]);
        i += 1;
        if i == 1 {
            assert(out@ =~= tag_views.subrange(0, 1)[0]);
        }
    }
    assert(tag_views.subrange(0, i as int) =~= tag_views);
    string_of(&out)
}


/// Gregorian leap years.
pub open spec fn is_leap(y: int) -> bool {
    y % 4 == 0 && (y % 100 != 0 || y % 400 == 0)
}

/// Days in year `y`.
pub open spec fn year_len(y: int) -> nat {
    if is_leap(y) {
        366
    } else {
        365
    }
}

/// The year and day of that year (from 0) that lie `days` days after the
/// first of January of year `y`.
pub open spec fn year_and_day(y: int, days: nat) -> (int, nat)
    decreases days,
{
    if days < year_len(y) {
        (y, days)
    } else {
        year_and_day(y + 1, (days - year_len(y)) as nat)
    }
}

/// Days in month `m` (0 = January).
pub open spec fn month_len(leap: bool, m: int) -> nat {
    if m == 1 {
        if leap {
            29
        } else {
            28
        }
    } else if m == 3 || m == 5 || m == 8 || m == 10 {
        30
    } else {
        31
    }
}

/// Days in the months from `m` to December.
pub open spec fn months_len_from(leap: bool, m: int) -> nat
    decreases 12 - m,
{
    if m >= 12 {
        0
    } else {
        month_len(leap, m) + months_len_from(leap, m + 1)
    }
}

/// The month (from 0) and day of month (from 0) of day `d` counted from
/// month `m`.
pub open spec fn month_and_day(leap: bool, m: int, d: nat) -> (int, nat)
    decreases 12 - m,
{
    if m < 12 && d >= month_len(leap, m) {
        month_and_day(leap, m + 1, (d - month_len(leap, m)) as nat)
    } else {
        (m, d)
    }
}

/// The calendar date (year, month from 1, day from 1) of a Unix timestamp.
pub open spec fn epoch_date(epoch: u64) -> (int, int, int) {
    let (y, doy) = year_and_day(1970, (epoch / 86400) as nat);
    let (m, d) = month_and_day(is_leap(y), 0, doy);
    (y, m + 1, (d + 1) as int)
}

/// The date of a timestamp as `YYYY-MM-DD`.
pub open spec fn formatted_epoch(epoch: u64) -> Seq<char> {
    let (y, m, d) = epoch_date(epoch);
    zero_padded(y as nat, 4) + seq!['-'] + zero_padded(m as nat, 2) + seq!['-'] + zero_padded(
        d as nat,
        2,
    )
}

/// The year a day count reaches is never before the starting year, and the
/// day of that year is within it.
proof fn lemma_year_and_day(y: int, days: nat)
    ensures
        year_and_day(y, days).0 >= y,
        year_and_day(y, days).1 < year_len(year_and_day(y, days).0),
    decreases days,
{
    if days >= year_len(y) {
        lemma_year_and_day(y + 1, (days - year_len(y)) as nat);
    }
}

/// A day within the months from `m` on falls in a month from `m` to
/// December, within that month.
proof fn lemma_month_and_day(leap: bool, m: int, d: nat)
    requires
        0 <= m <= 12,
        d < months_len_from(leap, m),
    ensures
        m <= month_and_day(leap, m, d).0 < 12,
        month_and_day(leap, m, d).1 < month_len(leap, month_and_day(leap, m, d).0),
    decreases 12 - m,
{
    if m < 12 && d >= month_len(leap, m) {
        lemma_month_and_day(leap, m + 1, (d - month_len(leap, m)) as nat);
    }
}

/// Format epoch seconds as a `YYYY-MM-DD` date (UTC). The month is 1 to 12
/// and the day lies within that month.
pub fn format_epoch(epoch: u64) -> (r: String)
    requires
        year_and_day(1970, (epoch / 86400) as nat).0 <= i32::MAX,
    ensures
        r@ == formatted_epoch(epoch),
        1 <= epoch_date(epoch).1 <= 12,
        1 <= epoch_date(epoch).2 <= month_len(is_leap(epoch_date(epoch).0), epoch_date(epoch).1 - 1),
{
    let secs_per_day: u64 = 86400;
    let days = epoch / secs_per_day;
    let mut y: i32 = 1970;
    let mut remaining: u64 = days;
    proof {
        lemma_year_and_day(1970, days as nat);
    }
    loop
        invariant
            1970 <= y,
            year_and_day(y as int, remaining as nat) == year_and_day(1970, days as nat),
            year_and_day(1970, days as nat).0 <= i32::MAX,
        ensures
            1970 <= y,
            year_and_day(y as int, remaining as nat) == year_and_day(1970, days as nat),
            remaining < year_len(y as int),
        decreases remaining,
    {
        let days_in_year: u64 = if y % 4 == 0 && (y % 100 != 0 || y % 400 == 0) {
            366
        } else {
            365
        };
        assert(days_in_year == year_len(y as int));
        if remaining < days_in_year {
            break;
        }
        proof {
            lemma_year_and_day(y as int + 1, (remaining - days_in_year) as nat);
        }
        remaining -= days_in_year;
        y += 1;
    }
    let leap = y % 4 == 0 && (y % 100 != 0 || y % 400 == 0);
    let ghost doy = remaining as nat;
    assert(year_and_day(1970, days as nat) == (y as int, doy));
    assert(months_len_from(leap, 0) == year_len(y as int)) by {
        reveal_with_fuel(months_len_from, 13);
    }
    proof {
        lemma_month_and_day(leap, 0, doy);
    }
    let month_days: [u64; 12] = [
        31,
        if leap {
            29
        } else {
            28
        },
        31,
        30,
        31,
        30,
        31,
        31,
        30,
        31,
        30,
        31,
    ];
    let mut m: usize = 0;
    while m < 12
        invariant
            m <= 12,
            forall|k: int| 0 <= k < 12 ==> month_days@[k] == month_len(leap, k),
            month_and_day(leap, m as int, remaining as nat) == month_and_day(leap, 0, doy),
        ensures
            m <= 12,
            month_and_day(leap, m as int, remaining as nat) == month_and_day(leap, 0, doy),
            m < 12 ==> remaining < month_len(leap, m as int),
        decreases 12 - m,
    {
        let md = month_days[m];
        if remaining < md {
            break;
        }
        remaining -= md;
        m += 1;
    }
    assert(m < 12 && remaining < 31);
    let mut out = zero_padded_of(y as u64, 4);
    out.push('-');
    let mm = zero_padded_of((m + 1) as u64, 2);
    push_chars(&mut out, &mm);
    out.push('-');
    let dd = zero_padded_of(remaining + 1, 2);
    push_chars(&mut out, &dd);
    proof {
        assert(month_and_day(leap, 0, doy) == (m as int, remaining as nat));
    }
    string_of(&out)
}


/// The interface's input modes.
#[derive(Debug, Clone, Copy, PartialEq, Eq, Structural)]
pub enum InputMode {
    Normal,
    Visual,
    Select,
    Search,
    Plan,
    ProviderPopup,
    UseCasePopup,
    CapabilityPopup,
    DownloadProviderPopup,
    QuantPopup,
    RunModePopup,
    ParamsBucketPopup,
    LicensePopup,
    RuntimePopup,
    HelpPopup,
    Simulation,
    AdvancedConfig,
    DownloadManager,
    FilterPopup,
    Benchmarks,
}

/// What the live-bench view shows.
#[derive(Debug, Clone, Copy, PartialEq, Eq, Structural)]
pub enum BenchViewMode {
    Results,
    Routing,
}

/// The interface state that the status bar's key hints depend on.
#[derive(Debug, Clone, Copy)]
pub struct StatusState {
    pub input_mode: InputMode,
    pub show_bench: bool,
    pub bench_view_mode: BenchViewMode,
    pub bench_show_detail: bool,
    pub show_multi_compare: bool,
    pub show_detail: bool,
    pub ollama_available: bool,
    pub mlx_available: bool,
    pub llamacpp_available: bool,
    pub docker_mr_available: bool,
    pub lmstudio_available: bool,
    pub vllm_available: bool,
    pub installed_first: bool,
    pub sim_active: bool,
    /// How many rows the visual selection spans.
    pub visual_selection_count: usize,
    /// The table column picked in select mode.
    pub select_column: usize,
}

/// The header of table column `c` ("" past the last one).
pub open spec fn column_name(c: usize) -> Seq<char> {
    if c == 0 {
        ""@
    } else if c == 1 {
        "Inst"@
    } else if c == 2 {
        "Model"@
    } else if c == 3 {
        "Provider"@
    } else if c == 4 {
        "Params"@
    } else if c == 5 {
        "Score"@
    } else if c == 6 {
        "tok/s*"@
    } else if c == 7 {
        "Quant"@
    } else if c == 8 {
        "Mode"@
    } else if c == 9 {
        "Mem %"@
    } else if c == 10 {
        "Ctx"@
    } else if c == 11 {
        "Date"@
    } else if c == 12 {
        "Fit"@
    } else if c == 13 {
        "Use Case"@
    } else {
        ""@
    }
}

/// The key hints in normal mode.
pub open spec fn normal_hints(st: StatusState) -> (Seq<char>, Seq<char>) {
    if st.show_bench {
        (
            match st.bench_view_mode {
                BenchViewMode::Results => if st.bench_show_detail {
                    " j/k:scroll  Enter/q:close detail  r:routing"@
                } else {
                    " j/k:select  Enter:detail  r:routing  I:rerun  q:back"@
                },
                BenchViewMode::Routing => " r:results  q:back"@,
            },
            "INFERENCE BENCH"@,
        )
    } else if st.show_multi_compare {
        (" ←/→/hl:scroll  q/Esc:close"@, "COMPARE"@)
    } else {
        let detail_key = if st.show_detail {
            "Enter:table"@
        } else {
            "Enter:detail"@
        };
        let any_provider = st.ollama_available || st.mlx_available || st.llamacpp_available
            || st.docker_mr_available || st.lmstudio_available || st.vllm_available;
        let provider_keys = if any_provider {
            "  "@ + (if st.installed_first {
                "i:all"@
            } else {
                "i:installed↑"@
            }) + "  d:pull  D:downloads  r:refresh"@
        } else {
            Seq::empty()
        };
        (
            " S:simulate  A:config  b:benchmarks  I:live-bench  h:help  "@ + detail_key
                + "  /:search  f:fit  F:filter  s:sort"@ + provider_keys
                + "  P:providers  U:use cases  C:caps  R:runtime  q:quit"@,
            if st.sim_active {
                "NORMAL [SIM]"@
            } else {
                "NORMAL"@
            },
        )
    }
}

/// The status bar's key hints and mode label for a state.
pub open spec fn status_hints(st: StatusState) -> (Seq<char>, Seq<char>) {
    match st.input_mode {
        InputMode::Normal => normal_hints(st),
        InputMode::Visual => (
            " ↑↓/jk:extend  c:compare  m:mark  Esc:exit  ("@ + decimal(
                st.visual_selection_count as nat,
            ) + " selected)"@,
            "VISUAL"@,
        ),
        InputMode::Select => (
            " ←/→:column  ↑↓:nav  Enter:filter ["@ + column_name(st.select_column)
                + "]  Esc:exit"@,
            "SELECT"@,
        ),
        InputMode::Search => ("  Type to search  Esc:done  Ctrl-U:clear"@, "SEARCH"@),
        InputMode::Plan => ("  Tab/jk:field  ←/→:cursor  type:edit  Backspace/Delete  Ctrl-U:clear  Esc:close"@, "PLAN"@),
        InputMode::ProviderPopup => ("  ↑↓:navigate (+Shift:speed up)  Space:toggle  a:all/none  Esc:close"@, "PROVIDERS"@),
        InputMode::UseCasePopup => ("  ↑↓/jk:navigate  Space:toggle  a:all/none  Esc:close"@, "USE CASES"@),
        InputMode::CapabilityPopup => ("  ↑↓/jk:navigate  Space:toggle  a:all/none  Esc:close"@, "CAPABILITIES"@),
        InputMode::DownloadProviderPopup => ("  ↑↓/jk:choose  Enter:download  Esc:cancel"@, "DOWNLOAD"@),
        InputMode::QuantPopup => ("  ↑↓/jk:navigate  Space:toggle  a:all/none  Esc:close"@, "QUANT"@),
        InputMode::RunModePopup => ("  ↑↓/jk:navigate  Space:toggle  a:all/none  Esc:close"@, "RUN MODE"@),
        InputMode::ParamsBucketPopup => ("  ↑↓/jk:navigate  Space:toggle  a:all/none  Esc:close"@, "PARAMS"@),
        InputMode::LicensePopup => ("  ↑↓/jk:navigate  Space:toggle  a:all/none  Esc:close"@, "LICENSE"@),
        InputMode::RuntimePopup => ("  ↑↓/jk:navigate  Space:toggle  a:all/none  Esc:close"@, "RUNTIME"@),
        InputMode::HelpPopup => ("  ↑↓/jk:scroll  Esc/h/q:close"@, "HELP"@),
        InputMode::Simulation => ("  Tab/jk:field  type:edit  Enter:apply  Ctrl-R:reset  Esc:close"@, "SIMULATION"@),
        InputMode::AdvancedConfig => ("  Tab/jk:field  type:edit  Enter:apply  Ctrl-R:reset  Esc:close"@, "ADV CONFIG"@),
        InputMode::DownloadManager => ("  Tab:section  jk:navigate  x:delete  e:edit dir  D/Esc:close"@, "DOWNLOADS"@),
        InputMode::FilterPopup => ("  Tab/jk:nav  type:range  Space:toggle  Enter:apply  Ctrl-U:clear  Esc:close"@, "FILTER"@),
        InputMode::Benchmarks => (" ↑/k:up  ↓/j:down  H:change GPU  r:refresh  b/q/Esc:close"@, "COMMUNITY LEADERBOARD"@),
    }
}

/// The header of a table column.
fn column_header(c: usize) -> (r: &'static str)
    ensures
        r@ == column_name(c),
{
    if c == 0 {
        ""
    } else if c == 1 {
        "Inst"
    } else if c == 2 {
        "Model"
    } else if c == 3 {
        "Provider"
    } else if c == 4 {
        "Params"
    } else if c == 5 {
        "Score"
    } else if c == 6 {
        "tok/s*"
    } else if c == 7 {
        "Quant"
    } else if c == 8 {
        "Mode"
    } else if c == 9 {
        "Mem %"
    } else if c == 10 {
        "Ctx"
    } else if c == 11 {
        "Date"
    } else if c == 12 {
        "Fit"
    } else if c == 13 {
        "Use Case"
    } else {
        ""
    }
}

/// Builds a pair of strings from literals.
fn hint_pair(keys: &str, mode: &str) -> (r: (String, String))
    ensures
        r.0@ == keys@,
        r.1@ == mode@,
{
    let k = chars_of(keys);
    let m = chars_of(mode);
    (string_of(&k), string_of(&m))
}

/// The key hints in normal mode.
fn normal_status(st: &StatusState) -> (r: (String, String))
    ensures
        (r.0@, r.1@) == normal_hints(*st),
{
    if st.show_bench {
        let keys = match st.bench_view_mode {
            BenchViewMode::Results => {
                if st.bench_show_detail {
                    " j/k:scroll  Enter/q:close detail  r:routing"
                } else {
                    " j/k:select  Enter:detail  r:routing  I:rerun  q:back"
                }
            },
            BenchViewMode::Routing => " r:results  q:back",
        };
        return hint_pair(keys, "INFERENCE BENCH");
    }
    if st.show_multi_compare {
        return hint_pair(" ←/→/hl:scroll  q/Esc:close", "COMPARE");
    }
    let detail_key = if st.show_detail {
        "Enter:table"
    } else {
        "Enter:detail"
    };
    let any_provider = st.ollama_available || st.mlx_available || st.llamacpp_available
        || st.docker_mr_available || st.lmstudio_available || st.vllm_available;
    let mut provider_keys: Vec<char> = Vec::new();
    if any_provider {
        let installed_key = if st.installed_first {
            "i:all"
        } else {
            "i:installed↑"
        };
        push_str(&mut provider_keys, "  ");
        push_str(&mut provider_keys, installed_key);
        push_str(&mut provider_keys, "  d:pull  D:downloads  r:refresh");
    }
    let mut keys: Vec<char> = Vec::new();
    push_str(&mut keys, " S:simulate  A:config  b:benchmarks  I:live-bench  h:help  ");
    push_str(&mut keys, detail_key);
    push_str(&mut keys, "  /:search  f:fit  F:filter  s:sort");
    push_chars(&mut keys, &provider_keys);
    push_str(&mut keys, "  P:providers  U:use cases  C:caps  R:runtime  q:quit");
    let mode = if st.sim_active {
        "NORMAL [SIM]"
    } else {
        "NORMAL"
    };
    let m = chars_of(mode);
    (string_of(&keys), string_of(&m))
}

/// The status bar's key hints and mode label for the current state.
pub fn status_keys_and_mode(st: &StatusState) -> (r: (String, String))
    ensures
        (r.0@, r.1@) == status_hints(*st),
{
    match st.input_mode {
        InputMode::Normal => normal_status(st),
        InputMode::Visual => {
            let mut keys: Vec<char> = Vec::new();
            push_str(&mut keys, " ↑↓/jk:extend  c:compare  m:mark  Esc:exit  (");
            let count = decimal_of(st.visual_selection_count as u64);
            push_chars(&mut keys, &count);
            push_str(&mut keys, " selected)");
            let m = chars_of("VISUAL");
            (string_of(&keys), string_of(&m))
        },
        InputMode::Select => {
            let mut keys: Vec<char> = Vec::new();
            push_str(&mut keys, " ←/→:column  ↑↓:nav  Enter:filter [");
            push_str(&mut keys, column_header(st.select_column));
            push_str(&mut keys, "]  Esc:exit");
            let m = chars_of("SELECT");
            (string_of(&keys), string_of(&m))
        },
        InputMode::Search => hint_pair("  Type to search  Esc:done  Ctrl-U:clear", "SEARCH"),
        InputMode::Plan => hint_pair("  Tab/jk:field  ←/→:cursor  type:edit  Backspace/Delete  Ctrl-U:clear  Esc:close", "PLAN"),
        InputMode::ProviderPopup => hint_pair("  ↑↓:navigate (+Shift:speed up)  Space:toggle  a:all/none  Esc:close", "PROVIDERS"),
        InputMode::UseCasePopup => hint_pair("  ↑↓/jk:navigate  Space:toggle  a:all/none  Esc:close", "USE CASES"),
        InputMode::CapabilityPopup => hint_pair("  ↑↓/jk:navigate  Space:toggle  a:all/none  Esc:close", "CAPABILITIES"),
        InputMode::DownloadProviderPopup => hint_pair("  ↑↓/jk:choose  Enter:download  Esc:cancel", "DOWNLOAD"),
        InputMode::QuantPopup => hint_pair("  ↑↓/jk:navigate  Space:toggle  a:all/none  Esc:close", "QUANT"),
        InputMode::RunModePopup => hint_pair("  ↑↓/jk:navigate  Space:toggle  a:all/none  Esc:close", "RUN MODE"),
        InputMode::ParamsBucketPopup => hint_pair("  ↑↓/jk:navigate  Space:toggle  a:all/none  Esc:close", "PARAMS"),
        InputMode::LicensePopup => hint_pair("  ↑↓/jk:navigate  Space:toggle  a:all/none  Esc:close", "LICENSE"),
        InputMode::RuntimePopup => hint_pair("  ↑↓/jk:navigate  Space:toggle  a:all/none  Esc:close", "RUNTIME"),
        InputMode::HelpPopup => hint_pair("  ↑↓/jk:scroll  Esc/h/q:close", "HELP"),
        InputMode::Simulation => hint_pair("  Tab/jk:field  type:edit  Enter:apply  Ctrl-R:reset  Esc:close", "SIMULATION"),
        InputMode::AdvancedConfig => hint_pair("  Tab/jk:field  type:edit  Enter:apply  Ctrl-R:reset  Esc:close", "ADV CONFIG"),
        InputMode::DownloadManager => hint_pair("  Tab:section  jk:navigate  x:delete  e:edit dir  D/Esc:close", "DOWNLOADS"),
        InputMode::FilterPopup => hint_pair("  Tab/jk:nav  type:range  Space:toggle  Enter:apply  Ctrl-U:clear  Esc:close", "FILTER"),
        InputMode::Benchmarks => hint_pair(" ↑/k:up  ↓/j:down  H:change GPU  r:refresh  b/q/Esc:close", "COMMUNITY LEADERBOARD"),
    }
}


/// How many entries are switched on.
pub open spec fn count_on(s: Seq<bool>) -> nat
    decreases s.len(),
{
    if s.len() == 0 {
        0
    } else {
        count_on(s.drop_last()) + if s.last() {
            1nat
        } else {
            0nat
        }
    }
}

/// The colour class of a filter summary: everything selected, nothing
/// selected, or a part.
#[derive(Debug, Clone, Copy, PartialEq, Eq, Structural)]
pub enum FilterTone {
    All,
    Nothing,
    Part,
}

/// A filter's summary in the filter bar: "All" when every option is
/// selected, else "selected/total"; with its colour class.
pub open spec fn filter_summary_of(active: nat, total: nat) -> (Seq<char>, FilterTone) {
    if active == total {
        ("All"@, FilterTone::All)
    } else {
        (
            decimal(active) + "/"@ + decimal(total),
            if active == 0 {
                FilterTone::Nothing
            } else {
                FilterTone::Part
            },
        )
    }
}

/// The summary of a filter (providers, use cases, capabilities) with
/// `selected` flags over `total` options.
pub fn filter_summary(selected: &Vec<bool>, total: usize) -> (r: (String, FilterTone))
    ensures
        (r.0@, r.1) == filter_summary_of(count_on(selected@), total as nat),
{
    let mut active: usize = 0;
    let mut i: usize = 0;
    assert(selected@.subrange(0, 0) =~= Seq::<bool>::empty());
    while i < selected.len()
        invariant
            i <= selected@.len(),
            active <= i,
            active == count_on(selected@.subrange(0, i as int)),
        decreases selected@.len() - i,
    {
        assert(selected@.subrange(0, i + 1).drop_last() =~= selected@.subrange(0, i as int));
        if selected[i] {
            active += 1;
        }
        i += 1;
    }
    assert(selected@.subrange(0, i as int) =~= selected@);
    if active == total {
        return (string_of(&chars_of("All")), FilterTone::All);
    }
    let mut v = decimal_of(active as u64);
    push_str(&mut v, "/");
    let t = decimal_of(total as u64);
    push_chars(&mut v, &t);
    let tone = if active == 0 {
        FilterTone::Nothing
    } else {
        FilterTone::Part
    };
    (string_of(&v), tone)
}

} // verus!
