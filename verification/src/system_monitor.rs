//! What the telemetry report keeps of the machine's state: the processes
//! listed (the heaviest by memory), the browser windows counted, disk totals,
//! battery state and graphics adapter names.
use vstd::prelude::*;
use crate::text;
use crate::text::{chars_of, contains_str, string_of, trim, slice_chars};

verus! {

/// A graphics adapter and its dedicated video memory.
#[derive(Clone, Debug, PartialEq, Eq)]
pub struct GpuInfo {
    pub name: String,
    pub vram_dedicated_bytes: u64,
}

/// How many processes the report lists.
pub const MAX_LISTED_PROCESSES: usize = 15;

// ---------------------------------------------------------------------------
// The heaviest processes
// ---------------------------------------------------------------------------

/// Process `a` is listed before process `b`: it uses more memory, or as much
/// and was enumerated earlier (the order of a stable sort by descending
/// memory).
pub open spec fn listed_before(mem: Seq<u64>, a: int, b: int) -> bool {
    mem[a] > mem[b] || (mem[a] == mem[b] && a < b)
}

/// `top` is the listing of the processes with memory use `mem`: the first
/// `min(limit, n)` positions of a stable sort by descending memory, in order.
pub open spec fn is_top_listing(mem: Seq<u64>, limit: int, top: Seq<usize>) -> bool {
    &&& top.len() == (if limit < mem.len() { limit } else { mem.len() as int })
    &&& forall|i: int| 0 <= i < top.len() ==> #[trigger] top[i] < mem.len()
    &&& forall|i: int, j: int|
        0 <= i < j < top.len() ==> listed_before(mem, #[trigger] top[i] as int, #[trigger] top[j] as int)
    &&& forall|p: int, i: int|
        0 <= p < mem.len() && !top.contains(p as usize) && 0 <= i < top.len() ==> #[trigger] listed_before(
            mem,
            top[i] as int,
            p,
        )
}

/// Positions of the processes the report lists, heaviest first (ties in
/// enumeration order), at most `limit` of them.
pub fn top_processes(mem: &Vec<u64>, limit: usize) -> (res: Vec<usize>)
    ensures
        is_top_listing(mem@, limit as int, res@),
{
    let n = mem.len();
    let mut rem: Vec<usize> = Vec::new();
    let mut p: usize = 0;
    while p < n
        invariant
            n == mem@.len(),
            p <= n,
            rem@.len() == p,
            forall|k: int| 0 <= k < p ==> rem@[k] == k,
        decreases n - p,
    {
        rem.push(p);
        p = p + 1;
    }
    let mut top: Vec<usize> = Vec::new();
    proof {
        assert forall|q: usize| q < n implies (#[trigger] top@.contains(q) <==> !rem@.contains(q)) by {
            assert(rem@[q as int] == q);
        }
    }
    while top.len() < limit && rem.len() > 0
        invariant
            n == mem@.len(),
            top@.len() + rem@.len() == n,
            top@.len() <= limit,
            forall|i: int| 0 <= i < top@.len() ==> #[trigger] top@[i] < n,
            forall|k: int| 0 <= k < rem@.len() ==> #[trigger] rem@[k] < n,
            forall|k1: int, k2: int| 0 <= k1 < k2 < rem@.len() ==> rem@[k1] != rem@[k2],
            forall|q: usize| q < n ==> (#[trigger] top@.contains(q) <==> !rem@.contains(q)),
            forall|i: int, j: int|
                0 <= i < j < top@.len() ==> listed_before(mem@, #[trigger] top@[i] as int, #[trigger] top@[j] as int),
            forall|i: int, k: int|
                0 <= i < top@.len() && 0 <= k < rem@.len() ==> listed_before(
                    mem@,
                    #[trigger] top@[i] as int,
                    #[trigger] rem@[k] as int,
                ),
        decreases rem@.len(),
    {
        let mut bi: usize = 0;
        let mut k: usize = 1;
        while k < rem.len()
            invariant
                n == mem@.len(),
                0 <= bi < k <= rem@.len(),
                forall|j: int| 0 <= j < rem@.len() ==> #[trigger] rem@[j] < n,
                forall|k1: int, k2: int| 0 <= k1 < k2 < rem@.len() ==> rem@[k1] != rem@[k2],
                forall|j: int| 0 <= j < k && j != bi ==> listed_before(mem@, rem@[bi as int] as int, #[trigger] rem@[j] as int),
            decreases rem@.len() - k,
        {
            let c = rem[k];
            let b = rem[bi];
            if mem[c] > mem[b] || (mem[c] == mem[b] && c < b) {
                bi = k;
            }
            k = k + 1;
        }
        let ghost old_top = top@;
        let ghost old_rem = rem@;
        let b = rem.remove(bi);
        top.push(b);
        proof {
            assert forall|j: int| 0 <= j < old_rem.len() && j != bi implies old_rem[j] != b by {}
            assert forall|q: usize| q < n implies (#[trigger] top@.contains(q) <==> !rem@.contains(q)) by {
                if top@.contains(q) {
                    let i = choose|i: int| 0 <= i < top@.len() && top@[i] == q;
                    if i < old_top.len() {
                        assert(old_top.contains(q));
                        assert(!old_rem.contains(q));
                        if rem@.contains(q) {
                            let k2 = choose|k2: int| 0 <= k2 < rem@.len() && rem@[k2] == q;
                            if k2 < bi {
                                assert(old_rem[k2] == q);
                            } else {
                                assert(old_rem[k2 + 1] == q);
                            }
                        }
                    } else {
                        if rem@.contains(q) {
                            let k2 = choose|k2: int| 0 <= k2 < rem@.len() && rem@[k2] == q;
                            if k2 < bi {
                                assert(old_rem[k2] == b);
                            } else {
                                assert(old_rem[k2 + 1] == b);
                            }
                        }
                    }
                } else {
                    assert(!old_top.contains(q)) by {
                        if old_top.contains(q) {
                            let i = choose|i: int| 0 <= i < old_top.len() && old_top[i] == q;
                            assert(top@[i] == q);
                        }
                    }
                    assert(old_rem.contains(q));
                    let k2 = choose|k2: int| 0 <= k2 < old_rem.len() && old_rem[k2] == q;
                    assert(k2 != bi) by {
                        if k2 == bi {
                            assert(top@[top@.len() - 1] == q);
                        }
                    }
                    if k2 < bi {
                        assert(rem@[k2] == q);
                    } else {
                        assert(rem@[k2 - 1] == q);
                    }
                }
            }
            assert forall|i: int, j: int| 0 <= i < j < top@.len() implies listed_before(
                mem@,
                #[trigger] top@[i] as int,
                #[trigger] top@[j] as int,
            ) by {
                if j == top@.len() - 1 {
                    assert(old_rem[bi as int] == b);
                    assert(listed_before(mem@, old_top[i] as int, old_rem[bi as int] as int));
                }
            }
            assert forall|i: int, k2: int| 0 <= i < top@.len() && 0 <= k2 < rem@.len() implies listed_before(
                mem@,
                #[trigger] top@[i] as int,
                #[trigger] rem@[k2] as int,
            ) by {
                let ko = if k2 < bi { k2 } else { k2 + 1 };
                assert(rem@[k2] == old_rem[ko]);
                if i == top@.len() - 1 {
                    assert(ko != bi);
                } else {
                    assert(listed_before(mem@, old_top[i] as int, old_rem[ko] as int));
                }
            }
            assert forall|k1: int, k2: int| 0 <= k1 < k2 < rem@.len() implies rem@[k1] != rem@[k2] by {
                let o1 = if k1 < bi { k1 } else { k1 + 1 };
                let o2 = if k2 < bi { k2 } else { k2 + 1 };
                assert(rem@[k1] == old_rem[o1]);
                assert(rem@[k2] == old_rem[o2]);
            }
        }
    }
    proof {
        assert forall|q: int, i: int|
            0 <= q < n && !top@.contains(q as usize) && 0 <= i < top@.len() implies #[trigger] listed_before(
            mem@,
            top@[i] as int,
            q,
        ) by {
            assert(!top@.contains(q as usize));
            assert(rem@.contains(q as usize));
            let k2 = choose|k2: int| 0 <= k2 < rem@.len() && rem@[k2] == q as usize;
            assert(listed_before(mem@, top@[i] as int, rem@[k2] as int));
        }
    }
    top
}

// ---------------------------------------------------------------------------
// Browser windows
// ---------------------------------------------------------------------------

/// A process whose lowercase name contains one of the known browser names.
pub open spec fn browser_process(name: Seq<char>) -> bool {
    let l = text::lowercase(name);
    text::contains_seq(l, "chrome"@) || text::contains_seq(l, "msedge"@) || text::contains_seq(
        l,
        "firefox"@,
    ) || text::contains_seq(l, "brave"@) || text::contains_seq(l, "opera"@)
}

/// Whether a window's process is a web browser.
pub fn is_browser_process(name: &str) -> (res: bool)
    ensures
        res == browser_process(name@),
{
    let l = chars_of(text::to_lowercase(name).as_str());
    contains_str(&l, "chrome") || contains_str(&l, "msedge") || contains_str(&l, "firefox")
        || contains_str(&l, "brave") || contains_str(&l, "opera")
}

/// Every title in the list is non-empty, trimmed, and listed once.
pub open spec fn titles_wf(titles: Seq<String>) -> bool {
    &&& forall|i: int| 0 <= i < titles.len() ==> #[trigger] titles[i]@.len() > 0
    &&& forall|i: int, j: int| 0 <= i < j < titles.len() ==> titles[i]@ != titles[j]@
}

/// Counts a browser window: its trimmed title is added unless empty or
/// already listed.  A list of distinct non-empty titles stays one.
pub fn add_browser_title(titles: &mut Vec<String>, title: &str)
    ensures
        ({
            let t = text::trim_seq(title@);
            if t.len() == 0 || (exists|i: int| 0 <= i < old(titles)@.len() && old(titles)@[i]@ == t) {
                final(titles)@ == old(titles)@
            } else {
                final(titles)@.len() == old(titles)@.len() + 1 && final(titles)@.take(
                    old(titles)@.len() as int,
                ) == old(titles)@ && final(titles)@.last()@ == t
            }
        }),
        titles_wf(old(titles)@) ==> titles_wf(final(titles)@),
{
    let t = string_of(&trim(&chars_of(title)));
    if t.as_str().is_empty() {
        return;
    }
    if text::vec_contains_string(titles, &t) {
        return;
    }
    let ghost before = titles@;
    titles.push(t);
    proof {
        assert(titles@.take(before.len() as int) =~= before);
        assert forall|i: int, j: int| 0 <= i < j < titles@.len() && titles_wf(before) implies titles@[i]@
            != titles@[j]@ by {
            if j == before.len() {
                assert(before[i] == titles@[i]);
            }
        }
    }
}

// ---------------------------------------------------------------------------
// Disks, battery, adapters
// ---------------------------------------------------------------------------

/// Total space of the disks `(total, available)`.
pub open spec fn total_space(disks: Seq<(u64, u64)>) -> int
    decreases disks.len(),
{
    if disks.len() == 0 {
        0
    } else {
        total_space(disks.drop_last()) + disks.last().0
    }
}

/// Used space of the disks: total minus available, summed.
pub open spec fn used_space(disks: Seq<(u64, u64)>) -> int
    decreases disks.len(),
{
    if disks.len() == 0 {
        0
    } else {
        used_space(disks.drop_last()) + disks.last().0 - disks.last().1
    }
}

proof fn lemma_space_prefix(disks: Seq<(u64, u64)>, i: int)
    requires
        0 <= i <= disks.len(),
        forall|k: int| 0 <= k < disks.len() ==> #[trigger] disks[k].1 <= disks[k].0,
    ensures
        0 <= total_space(disks.take(i)) <= total_space(disks),
        0 <= used_space(disks.take(i)) <= used_space(disks),
    decreases disks.len() - i,
{
    if i < disks.len() {
        lemma_space_prefix(disks, i + 1);
        assert(disks.take(i + 1).drop_last() =~= disks.take(i));
    } else {
        assert(disks.take(i) =~= disks);
    }
    lemma_space_nonneg(disks.take(i));
}

proof fn lemma_space_nonneg(disks: Seq<(u64, u64)>)
    requires
        forall|k: int| 0 <= k < disks.len() ==> #[trigger] disks[k].1 <= disks[k].0,
    ensures
        total_space(disks) >= 0,
        used_space(disks) >= 0,
    decreases disks.len(),
{
    if disks.len() > 0 {
        lemma_space_nonneg(disks.drop_last());
    }
}

/// The total and used space of the disks `(total, available)`.
pub fn disk_totals(disks: &Vec<(u64, u64)>) -> (res: (u64, u64))
    requires
        forall|k: int| 0 <= k < disks@.len() ==> #[trigger] disks@[k].1 <= disks@[k].0,
        total_space(disks@) <= u64::MAX,
        used_space(disks@) <= u64::MAX,
    ensures
        res.0 == total_space(disks@),
        res.1 == used_space(disks@),
{
    let mut total: u64 = 0;
    let mut used: u64 = 0;
    let mut i: usize = 0;
    while i < disks.len()
        invariant
            i <= disks@.len(),
            forall|k: int| 0 <= k < disks@.len() ==> #[trigger] disks@[k].1 <= disks@[k].0,
            total_space(disks@) <= u64::MAX,
            used_space(disks@) <= u64::MAX,
            total == total_space(disks@.take(i as int)),
            used == used_space(disks@.take(i as int)),
        decreases disks.len() - i,
    {
        proof {
            lemma_space_prefix(disks@, i + 1);
            assert(disks@.take(i + 1).drop_last() =~= disks@.take(i as int));
        }
        let (t, a) = disks[i];
        total = total + t;
        used = used + (t - a);
        i = i + 1;
    }
    proof {
        assert(disks@.take(disks@.len() as int) =~= disks@);
    }
    (total, used)
}

/// The battery level reported for a raw percentage (255, unknown, counts as
/// full).
pub fn battery_level(raw_percent: u8) -> (res: u8)
    ensures
        res == if raw_percent == 255 { 100 } else { raw_percent },
{
    if raw_percent == 255 {
        100
    } else {
        raw_percent
    }
}

/// Whether the machine charges: on mains power, or the battery reports
/// charging.
pub fn is_charging(ac_line_status: u8, battery_flag: u8) -> (res: bool)
    ensures
        res == (ac_line_status == 1 || battery_flag & 8 != 0),
{
    ac_line_status == 1 || battery_flag & 8 != 0
}

/// A text without leading and trailing NUL characters.
pub open spec fn trim_nul_seq(s: Seq<char>) -> Seq<char> {
    s.subrange(nul_prefix(s, 0), nul_suffix_start(s, s.len() as int, nul_prefix(s, 0)))
}

/// The end of the run of NULs starting at `i`.
pub open spec fn nul_prefix(s: Seq<char>, i: int) -> int
    decreases s.len() - i,
{
    if i < 0 || i >= s.len() || s[i] != '\0' {
        i
    } else {
        nul_prefix(s, i + 1)
    }
}

/// The start of the run of NULs ending at `j`, not before `lo`.
pub open spec fn nul_suffix_start(s: Seq<char>, j: int, lo: int) -> int
    decreases j - lo,
{
    if j <= lo || j > s.len() || s[j - 1] != '\0' {
        j
    } else {
        nul_suffix_start(s, j - 1, lo)
    }
}

/// An adapter's name as the system describes it, without the NUL padding
/// around it.
pub fn gpu_name(raw: &str) -> (res: String)
    ensures
        res@ == trim_nul_seq(raw@),
{
    let v = chars_of(raw);
    let mut lo: usize = 0;
    while lo < v.len() && v[lo] == '\0'
        invariant
            lo <= v@.len(),
            nul_prefix(v@, lo as int) == nul_prefix(v@, 0),
        decreases v.len() - lo,
    {
        lo = lo + 1;
    }
    let mut hi: usize = v.len();
    while hi > lo && v[hi - 1] == '\0'
        invariant
            lo <= hi <= v@.len(),
            lo == nul_prefix(v@, 0),
            nul_suffix_start(v@, hi as int, lo as int) == nul_suffix_start(v@, v@.len() as int, lo as int),
        decreases hi,
    {
        hi = hi - 1;
    }
    string_of(&slice_chars(&v, lo, hi))
}

} // verus!
