//! What a node reports about its GPUs: the lines `nvidia-smi` prints, the
//! Apple chip a Mac runs on, and the summary sent to the coordinator.
use vstd::prelude::*;
use crate::text::{chars_of, string_of, split_char, split_bounds, pieces_of, trim, trim_bounds};
use crate::node::script_discovery::first_line;

verus! {

/// Information about one GPU.
#[derive(Debug, Clone)]
pub struct GpuInfo {
    pub name: String,
    pub vram_mb: u64,
    pub compute_capability: String,
}

/// The content of a [`GpuInfo`].
pub struct GpuInfoView {
    pub name: Seq<char>,
    pub vram_mb: u64,
    pub compute_capability: Seq<char>,
}

impl View for GpuInfo {
    type V = GpuInfoView;

    open spec fn view(&self) -> GpuInfoView {
        GpuInfoView { name: self.name@, vram_mb: self.vram_mb, compute_capability: self.compute_capability@ }
    }
}

/// What a machine without a GPU reports.
pub open spec fn placeholder_view() -> GpuInfoView {
    GpuInfoView { name: "CPU-only (no GPU detected)"@, vram_mb: 0, compute_capability: "0.0"@ }
}

/// A placeholder GPU for systems without NVIDIA GPUs (e.g. development).
pub fn placeholder_gpu() -> (r: GpuInfo)
    ensures
        r@ == placeholder_view(),
{
    GpuInfo {
        name: String::from_str("CPU-only (no GPU detected)"),
        vram_mb: 0,
        compute_capability: String::from_str("0.0"),
    }
}

/// The number that a string of decimal digits stands for.
pub open spec fn digits_value(d: Seq<char>) -> nat
    decreases d.len(),
{
    if d.len() == 0 {
        0
    } else {
        digits_value(d.drop_last()) * 10 + (d.last() as nat - 48) as nat
    }
}

/// Whether every character of `d` is an ASCII digit.
pub open spec fn all_digits(d: Seq<char>) -> bool {
    forall|i: int| 0 <= i < d.len() ==> '0' <= #[trigger] d[i] <= '9'
}

/// The unsigned integer that `s` spells (`str::parse::<u64>`): an optional
/// `+` followed by at least one digit, within range.
pub open spec fn parse_u64(s: Seq<char>) -> Option<u64> {
    parse_digits(
        if s.len() > 0 && s[0] == '+' {
            s.drop_first()
        } else {
            s
        },
    )
}

/// The unsigned integer that the digit string `d` spells, if it is one and
/// fits in 64 bits.
pub open spec fn parse_digits(d: Seq<char>) -> Option<u64> {
    if d.len() == 0 || !all_digits(d) || digits_value(d) > u64::MAX {
        None
    } else {
        Some(digits_value(d) as u64)
    }
}

/// Reads the unsigned integer that `cs[a..b]` spells.
pub fn parse_u64_at(cs: &Vec<char>, a: usize, b: usize) -> (r: Option<u64>)
    requires
        a <= b <= cs@.len(),
    ensures
        r == parse_u64(cs@.subrange(a as int, b as int)),
{
    let ghost s = cs@.subrange(a as int, b as int);
    let start = if a < b && cs[a] == '+' {
        a + 1
    } else {
        a
    };
    let ghost d = cs@.subrange(start as int, b as int);
    proof {
        if a < b && cs@[a as int] == '+' {
            assert(s.drop_first() =~= d);
        } else {
            assert(s =~= d);
        }
    }
    if start == b {
        return None;
    }
    let mut v: u64 = 0;
    let mut i: usize = start;
    while i < b
        invariant
            start <= i <= b <= cs@.len(),
            d == cs@.subrange(start as int, b as int),
            parse_u64(cs@.subrange(a as int, b as int)) == parse_digits(d),
            d.len() > 0,
            all_digits(cs@.subrange(start as int, i as int)),
            v == digits_value(cs@.subrange(start as int, i as int)),
        decreases b - i,
    {
        let c = cs[i];
        let ghost prefix = cs@.subrange(start as int, i + 1);
        proof {
            assert(prefix.drop_last() =~= cs@.subrange(start as int, i as int));
        }
        if !('0' <= c && c <= '9') {
            proof {
                assert(d[i - start] == c);
                assert(!all_digits(d));
            }
            return None;
        }
        proof {
            assert(digits_value(prefix) == v * 10 + (c as nat - 48));
        }
        let digit: u64 = (c as u32 - 48) as u64;
        let m = v.checked_mul(10);
        match m {
            None => {
                proof {
                    lemma_digits_value_prefix(d, i + 1 - start);
                    assert(d.subrange(0, i + 1 - start) =~= prefix);
                }
                return None;
            },
            Some(m) => match m.checked_add(digit) {
                None => {
                    proof {
                        lemma_digits_value_prefix(d, i + 1 - start);
                        assert(d.subrange(0, i + 1 - start) =~= prefix);
                    }
                    return None;
                },
                Some(n) => {
                    v = n;
                },
            },
        }
        i = i + 1;
        proof {
            assert(all_digits(cs@.subrange(start as int, i as int))) by {
                assert forall|j: int| 0 <= j < cs@.subrange(start as int, i as int).len() implies '0'
                    <= #[trigger] cs@.subrange(start as int, i as int)[j] <= '9' by {
                    if j < i - 1 - start {
                        assert(cs@.subrange(start as int, i as int)[j] == cs@.subrange(start as int, i - 1)[j]);
                    }
                }
            }
        }
    }
    proof {
        assert(cs@.subrange(start as int, b as int) =~= d);
    }
    Some(v)
}

/// A prefix of a digit string stands for no more than the whole.
proof fn lemma_digits_value_prefix(d: Seq<char>, k: int)
    requires
        0 <= k <= d.len(),
    ensures
        digits_value(d.subrange(0, k)) <= digits_value(d) || !all_digits(d),
    decreases d.len() - k,
{
    if k < d.len() {
        lemma_digits_value_prefix(d, k + 1);
        assert(d.subrange(0, k + 1).drop_last() =~= d.subrange(0, k));
    } else {
        assert(d.subrange(0, k) =~= d);
    }
}

/// The last `M` or `A` in a CPU brand string, naming the Apple chip family.
pub open spec fn chip_letter(s: Seq<char>) -> Option<char>
    decreases s.len(),
{
    if s.len() == 0 {
        None
    } else if s.last() == 'M' || s.last() == 'A' {
        Some(s.last())
    } else {
        chip_letter(s.drop_last())
    }
}

/// `c` with ASCII upper case turned to lower case.
pub open spec fn ascii_lower(c: char) -> char {
    if 'A' <= c <= 'Z' {
        ((c as u32) + 32) as char
    } else {
        c
    }
}

/// Whether `t`, lower-cased, is the lower-case ASCII word `word`. (No
/// character outside ASCII lower-cases to a letter of the words compared here.)
pub open spec fn lower_is(t: Seq<char>, word: Seq<char>) -> bool {
    t.len() == word.len() && forall|i: int| 0 <= i < t.len() ==> ascii_lower(#[trigger] t[i]) == word[i]
}

/// The last space-separated word of a CPU brand string.
pub open spec fn brand_tier(s: Seq<char>) -> Seq<char> {
    split_char(s, ' ').last()
}

/// The CUDA-like compute capability assigned to an Apple chip, from its CPU
/// brand string: an M-series chip with a 5 in an Ultra tier counts as 10,
/// other Ultras as 8.9, Max chips and M chips outside the Pro tier as 8.6,
/// any other named tier as 8.0, and an empty tier as 7.5.
pub open spec fn compute_capability_for(brand: Seq<char>) -> Seq<char> {
    let chip = chip_letter(brand);
    let t = brand_tier(brand);
    let is_m5 = chip == Some('M') && brand.contains('5');
    let ultra = seq!['u', 'l', 't', 'r', 'a'];
    if is_m5 && lower_is(t, ultra) {
        "10"@
    } else if !is_m5 && lower_is(t, ultra) {
        "8.9"@
    } else if lower_is(t, seq!['m', 'a', 'x']) || (chip == Some('M') && !lower_is(t, seq!['p', 'r', 'o'])) {
        "8.6"@
    } else if lower_is(t, seq!['p', 'r', 'o']) || lower_is(t, seq!['b', 'a', 's', 'e']) || t.len() != 0 {
        "8.0"@
    } else {
        "7.5"@
    }
}

/// Whether `cs[a..b]`, lower-cased, is the word `lower`, whose upper-case
/// form is `upper`.
fn lower_matches(cs: &Vec<char>, a: usize, b: usize, lower: &Vec<char>, upper: &Vec<char>) -> (r: bool)
    requires
        a <= b <= cs@.len(),
        lower@.len() == upper@.len(),
        forall|i: int| 0 <= i < lower@.len() ==> 'a' <= #[trigger] lower@[i] <= 'z' && upper@[i] == ((
        lower@[i] as u32) - 32) as char,
    ensures
        r == lower_is(cs@.subrange(a as int, b as int), lower@),
{
    let ghost t = cs@.subrange(a as int, b as int);
    if b - a != lower.len() {
        return false;
    }
    let mut k: usize = 0;
    while k < lower.len()
        invariant
            a <= b <= cs@.len(),
            t == cs@.subrange(a as int, b as int),
            b - a == lower@.len() == upper@.len(),
            forall|i: int| 0 <= i < lower@.len() ==> 'a' <= #[trigger] lower@[i] <= 'z' && upper@[i] == ((
            lower@[i] as u32) - 32) as char,
            k <= lower@.len(),
            forall|i: int| 0 <= i < k ==> ascii_lower(#[trigger] t[i]) == lower@[i],
        decreases lower@.len() - k,
    {
        let c = cs[a + k];
        proof {
            assert(t[k as int] == c);
        }
        if c != lower[k] && c != upper[k] {
            return false;
        }
        k = k + 1;
    }
    true
}

/// The compute capability assigned to the Apple chip named by `cpu_brand`.
pub fn parse_compute_capability(cpu_brand: &str) -> (r: String)
    ensures
        r@ == compute_capability_for(cpu_brand@),
{
    let cs = chars_of(cpu_brand);
    let mut chip: Option<char> = None;
    let mut five = false;
    let mut i: usize = 0;
    while i < cs.len()
        invariant
            i <= cs@.len(),
            chip == chip_letter(cs@.take(i as int)),
            five == cs@.take(i as int).contains('5'),
        decreases cs@.len() - i,
    {
        let c = cs[i];
        proof {
            assert(cs@.take(i + 1).drop_last() =~= cs@.take(i as int));
            assert(cs@.take(i + 1).last() == c);
        }
        if c == 'M' || c == 'A' {
            chip = Some(c);
        } else if c == '5' {
            five = true;
        }
        proof {
            if cs@.take(i + 1).contains('5') {
                let j = choose|j: int| 0 <= j < cs@.take(i + 1).len() && #[trigger] cs@.take(i + 1)[j] == '5';
                if j < i {
                    assert(cs@.take(i as int)[j] == '5');
                }
            }
            if cs@.take(i as int).contains('5') {
                let j = choose|j: int| 0 <= j < cs@.take(i as int).len() && #[trigger] cs@.take(i as int)[j] == '5';
                assert(cs@.take(i + 1)[j] == '5');
            }
            if c == '5' {
                assert(cs@.take(i + 1)[i as int] == '5');
            }
        }
        i = i + 1;
    }
    proof {
        assert(cs@.take(i as int) =~= cs@);
    }
    let b = split_bounds(&cs, ' ');
    proof {
        crate::text::lemma_split_char_nonempty(cs@, ' ');
        assert(pieces_of(cs@, b@).last() == cs@.subrange(b@.last().0 as int, b@.last().1 as int));
    }
    let (ts, te) = b[b.len() - 1];
    let is_m5 = chip == Some('M') && five;
    let ultra_l = vec!['u', 'l', 't', 'r', 'a'];
    let ultra_u = vec!['U', 'L', 'T', 'R', 'A'];
    let max_l = vec!['m', 'a', 'x'];
    let max_u = vec!['M', 'A', 'X'];
    let pro_l = vec!['p', 'r', 'o'];
    let pro_u = vec!['P', 'R', 'O'];
    let base_l = vec!['b', 'a', 's', 'e'];
    let base_u = vec!['B', 'A', 'S', 'E'];
    proof {
        assert(ultra_l@ =~= seq!['u', 'l', 't', 'r', 'a']);
        assert(max_l@ =~= seq!['m', 'a', 'x']);
        assert(pro_l@ =~= seq!['p', 'r', 'o']);
        assert(base_l@ =~= seq!['b', 'a', 's', 'e']);
    }
    let ultra = lower_matches(&cs, ts, te, &ultra_l, &ultra_u);
    let max = lower_matches(&cs, ts, te, &max_l, &max_u);
    let pro = lower_matches(&cs, ts, te, &pro_l, &pro_u);
    let base = lower_matches(&cs, ts, te, &base_l, &base_u);
    if is_m5 && ultra {
        String::from_str("10")
    } else if !is_m5 && ultra {
        String::from_str("8.9")
    } else if max || (chip == Some('M') && !pro) {
        String::from_str("8.6")
    } else if pro || base || te > ts {
        String::from_str("8.0")
    } else {
        String::from_str("7.5")
    }
}

/// The GPU a Mac reports: its chip (named by the CPU brand string, or
/// "Apple Silicon" when that is empty), its memory in MiB, and the compute
/// capability assigned to the chip.
pub open spec fn apple_gpu_view(cpu_brand: Seq<char>, mem_bytes: u64) -> GpuInfoView {
    GpuInfoView {
        name: if cpu_brand.len() == 0 {
            "Apple Silicon"@
        } else {
            cpu_brand
        },
        vram_mb: mem_bytes / 1024 / 1024,
        compute_capability: compute_capability_for(cpu_brand),
    }
}

/// Describes the GPU of a Mac from its CPU brand string and memory size.
pub fn apple_gpu(cpu_brand: &str, mem_bytes: u64) -> (r: GpuInfo)
    ensures
        r@ == apple_gpu_view(cpu_brand@, mem_bytes),
{
    let name = if cpu_brand.unicode_len() == 0 {
        String::from_str("Apple Silicon")
    } else {
        String::from_str(cpu_brand)
    };
    GpuInfo { name, vram_mb: mem_bytes / 1024 / 1024, compute_capability: parse_compute_capability(cpu_brand) }
}

/// The GPU that one line of `nvidia-smi --query-gpu=name,memory.total,compute_cap
/// --format=csv,noheader,nounits` describes: its first three comma-separated
/// fields, trimmed, with a memory size that does not parse counted as zero.
/// A line with fewer fields describes none.
pub open spec fn gpu_line(line: Seq<char>) -> Option<GpuInfoView> {
    let parts = split_char(line, ',');
    if parts.len() >= 3 {
        Some(
            GpuInfoView {
                name: trim(parts[0]),
                vram_mb: match parse_u64(trim(parts[1])) {
                    Some(v) => v,
                    None => 0,
                },
                compute_capability: trim(parts[2]),
            },
        )
    } else {
        None
    }
}

/// The GPUs that the lines of `nvidia-smi`'s output describe, blank lines
/// skipped, in order.
pub open spec fn gpus_from_lines(lines: Seq<Seq<char>>) -> Seq<GpuInfoView>
    decreases lines.len(),
{
    if lines.len() == 0 {
        Seq::<GpuInfoView>::empty()
    } else {
        let acc = gpus_from_lines(lines.drop_last());
        if trim(lines.last()).len() == 0 {
            acc
        } else {
            match gpu_line(lines.last()) {
                Some(g) => acc.push(g),
                None => acc,
            }
        }
    }
}

/// The GPUs that `nvidia-smi`'s output lists.
pub open spec fn nvidia_gpus(out: Seq<char>) -> Seq<GpuInfoView> {
    gpus_from_lines(split_char(out, '\n'))
}

/// The contents of a list of GPUs.
pub open spec fn gpu_views(v: Seq<GpuInfo>) -> Seq<GpuInfoView> {
    v.map_values(|g: GpuInfo| g@)
}

/// Reads the GPU that the line `cs[a..b]` describes.
fn parse_gpu_line(cs: &Vec<char>, a: usize, b: usize) -> (r: Option<GpuInfo>)
    requires
        a <= b <= cs@.len(),
    ensures
        match gpu_line(cs@.subrange(a as int, b as int)) {
            Some(g) => r matches Some(x) && x@ == g,
            None => r is None,
        },
{
    let ghost line = cs@.subrange(a as int, b as int);
    let mut piece: Vec<char> = Vec::new();
    let mut k: usize = a;
    while k < b
        invariant
            a <= k <= b <= cs@.len(),
            piece@ == cs@.subrange(a as int, k as int),
        decreases b - k,
    {
        piece.push(cs[k]);
        k = k + 1;
        proof {
            assert(piece@ =~= cs@.subrange(a as int, k as int));
        }
    }
    let parts = split_bounds(&piece, ',');
    if parts.len() < 3 {
        return None;
    }
    proof {
        assert(pieces_of(piece@, parts@)[0] == piece@.subrange(parts@[0].0 as int, parts@[0].1 as int));
        assert(pieces_of(piece@, parts@)[1] == piece@.subrange(parts@[1].0 as int, parts@[1].1 as int));
        assert(pieces_of(piece@, parts@)[2] == piece@.subrange(parts@[2].0 as int, parts@[2].1 as int));
    }
    let (n0, n1) = trim_bounds(&piece, parts[0].0, parts[0].1);
    let (v0, v1) = trim_bounds(&piece, parts[1].0, parts[1].1);
    let (c0, c1) = trim_bounds(&piece, parts[2].0, parts[2].1);
    let vram = match parse_u64_at(&piece, v0, v1) {
        Some(v) => v,
        None => 0,
    };
    Some(GpuInfo { name: string_of(&piece, n0, n1), vram_mb: vram, compute_capability: string_of(&piece, c0, c1) })
}

/// The GPUs that `nvidia-smi`'s output lists, in order.
pub fn parse_nvidia_smi(out: &str) -> (r: Vec<GpuInfo>)
    ensures
        gpu_views(r@) == nvidia_gpus(out@),
{
    let cs = chars_of(out);
    let lines = split_bounds(&cs, '\n');
    let ghost pieces = pieces_of(cs@, lines@);
    let mut gpus: Vec<GpuInfo> = Vec::new();
    let mut i: usize = 0;
    while i < lines.len()
        invariant
            i <= lines@.len(),
            pieces == pieces_of(cs@, lines@),
            crate::text::bounds_within(lines@, cs@.len()),
            gpu_views(gpus@) == gpus_from_lines(pieces.take(i as int)),
        decreases lines@.len() - i,
    {
        let (a, b) = lines[i];
        proof {
            assert(pieces.take(i + 1).drop_last() =~= pieces.take(i as int));
            assert(pieces.take(i + 1).last() == cs@.subrange(a as int, b as int));
        }
        let (ta, tb) = trim_bounds(&cs, a, b);
        if ta < tb {
            let ghost prev = gpu_views(gpus@);
            match parse_gpu_line(&cs, a, b) {
                Some(g) => {
                    gpus.push(g);
                    proof {
                        assert(gpu_views(gpus@) =~= prev.push(gpus@.last()@));
                    }
                },
                None => {},
            }
        }
        i = i + 1;
    }
    proof {
        assert(pieces.take(i as int) =~= pieces);
    }
    gpus
}

/// The driver version that `nvidia-smi --query-gpu=driver_version
/// --format=csv,noheader` prints: its first line, trimmed, unless that is
/// empty.
pub open spec fn driver_version_of(out: Seq<char>) -> Option<Seq<char>> {
    match first_line(out) {
        Some(l) => if trim(l).len() == 0 {
            None
        } else {
            Some(trim(l))
        },
        None => None,
    }
}

/// Reads the driver version from `nvidia-smi`'s output.
pub fn parse_driver_version(out: &str) -> (r: Option<String>)
    ensures
        match driver_version_of(out@) {
            Some(v) => r matches Some(s) && s@ == v,
            None => r is None,
        },
{
    let cs = chars_of(out);
    if cs.len() == 0 {
        return None;
    }
    let b = split_bounds(&cs, '\n');
    proof {
        crate::text::lemma_split_char_nonempty(cs@, '\n');
        assert(pieces_of(cs@, b@)[0] == cs@.subrange(b@[0].0 as int, b@[0].1 as int));
    }
    let (ls, le0) = b[0];
    let le = if le0 > ls && cs[le0 - 1] == '\r' {
        le0 - 1
    } else {
        le0
    };
    proof {
        let l = cs@.subrange(ls as int, le0 as int);
        if le0 > ls && cs@[le0 - 1] == '\r' {
            assert(l.drop_last() =~= cs@.subrange(ls as int, le as int));
        }
    }
    let (s, e) = trim_bounds(&cs, ls, le);
    if s == e {
        return None;
    }
    Some(string_of(&cs, s, e))
}

/// The total memory of a list of GPUs.
pub open spec fn total_vram(gpus: Seq<GpuInfoView>) -> nat
    decreases gpus.len(),
{
    if gpus.len() == 0 {
        0
    } else {
        total_vram(gpus.drop_last()) + gpus.last().vram_mb as nat
    }
}

/// What a node tells the coordinator about its GPUs.
#[derive(Debug, Clone)]
pub struct GpuSummary {
    /// The first GPU's name, or the placeholder's.
    pub gpu_name: String,
    /// The first GPU's memory in MiB, or zero.
    pub gpu_vram_mb: u64,
    /// The first GPU's compute capability, or the placeholder's.
    pub gpu_compute_capability: String,
    /// The memory of all GPUs together.
    pub total_vram_mb: u64,
    /// The memory reported to the coordinator: the larger of the two above.
    pub reported_vram_mb: u64,
}

/// Summarises the detected GPUs: the first one (or the placeholder when there
/// is none) and the memory of all of them together.
pub fn summarize_gpus(gpus: &Vec<GpuInfo>) -> (r: GpuSummary)
    requires
        total_vram(gpu_views(gpus@)) <= u64::MAX,
    ensures
        r.total_vram_mb == total_vram(gpu_views(gpus@)),
        gpus@.len() == 0 ==> r.gpu_name@ == placeholder_view().name && r.gpu_vram_mb == 0
            && r.gpu_compute_capability@ == placeholder_view().compute_capability,
        gpus@.len() > 0 ==> r.gpu_name@ == gpus@[0].name@ && r.gpu_vram_mb == gpus@[0].vram_mb
            && r.gpu_compute_capability@ == gpus@[0].compute_capability@,
        r.reported_vram_mb == if r.total_vram_mb >= r.gpu_vram_mb {
            r.total_vram_mb
        } else {
            r.gpu_vram_mb
        },
{
    let first = if gpus.len() > 0 {
        GpuInfo {
            name: gpus[0].name.clone(),
            vram_mb: gpus[0].vram_mb,
            compute_capability: gpus[0].compute_capability.clone(),
        }
    } else {
        placeholder_gpu()
    };
    let mut total: u64 = 0;
    let mut i: usize = 0;
    while i < gpus.len()
        invariant
            i <= gpus@.len(),
            total_vram(gpu_views(gpus@)) <= u64::MAX,
            total == total_vram(gpu_views(gpus@).take(i as int)),
        decreases gpus@.len() - i,
    {
        proof {
            assert(gpu_views(gpus@).take(i + 1).drop_last() =~= gpu_views(gpus@).take(i as int));
            lemma_total_vram_prefix(gpu_views(gpus@), i + 1);
        }
        total = total + gpus[i].vram_mb;
        i = i + 1;
    }
    proof {
        assert(gpu_views(gpus@).take(i as int) =~= gpu_views(gpus@));
    }
    let reported = if total >= first.vram_mb {
        total
    } else {
        first.vram_mb
    };
    GpuSummary {
        gpu_name: first.name,
        gpu_vram_mb: first.vram_mb,
        gpu_compute_capability: first.compute_capability,
        total_vram_mb: total,
        reported_vram_mb: reported,
    }
}

/// The memory of the first GPUs is at most that of all of them.
proof fn lemma_total_vram_prefix(gpus: Seq<GpuInfoView>, k: int)
    requires
        0 <= k <= gpus.len(),
    ensures
        total_vram(gpus.take(k)) <= total_vram(gpus),
    decreases gpus.len() - k,
{
    if k < gpus.len() {
        lemma_total_vram_prefix(gpus, k + 1);
        assert(gpus.take(k + 1).drop_last() =~= gpus.take(k));
    } else {
        assert(gpus.take(k) =~= gpus);
    }
}

} // verus!

verus! {

/// Whether the machine type that `sysctl -n hw.machine` printed is an ARM
/// one: the output, trimmed, starts with `arm`.
pub open spec fn is_arm_machine_text(out: Seq<char>) -> bool {
    trim(out).len() >= 3 && trim(out).take(3) == "arm"@
}

/// Reads whether `sysctl -n hw.machine` names an ARM machine.
pub fn is_arm_machine(out: &str) -> (r: bool)
    ensures
        r == is_arm_machine_text(out@),
{
    let cs = chars_of(out);
    let (a, b) = trim_bounds(&cs, 0, cs.len());
    proof {
        assert(cs@.subrange(0, cs@.len() as int) =~= cs@);
    }
    if b - a < 3 {
        return false;
    }
    let r = cs[a] == 'a' && cs[a + 1] == 'r' && cs[a + 2] == 'm';
    proof {
        let t = cs@.subrange(a as int, b as int);
        assert(t.take(3) =~= seq![cs@[a as int], cs@[a + 1], cs@[a + 2]]);
        reveal_strlit("arm");
        assert("arm"@ =~= seq!['a', 'r', 'm']);
    }
    r
}

/// The memory size in bytes that `sysctl -n hw.memsize` printed: the trimmed
/// output read as an unsigned integer, or zero when it is not one.
pub open spec fn mem_size_of(out: Seq<char>) -> u64 {
    match parse_u64(trim(out)) {
        Some(v) => v,
        None => 0,
    }
}

/// Reads the memory size that `sysctl -n hw.memsize` printed.
pub fn parse_mem_size(out: &str) -> (r: u64)
    ensures
        r == mem_size_of(out@),
{
    let cs = chars_of(out);
    let (a, b) = trim_bounds(&cs, 0, cs.len());
    proof {
        assert(cs@.subrange(0, cs@.len() as int) =~= cs@);
    }
    match parse_u64_at(&cs, a, b) {
        Some(v) => v,
        None => 0,
    }
}

} // verus!
