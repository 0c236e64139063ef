//! Judgements of the environment check: enough memory and disk, a usable
//! training kernel. Probing the machine and printing is left to the caller.

use vstd::prelude::*;

use crate::captions::{find_char, first_of, lemma_first_of, matches_at, replace_text, replaced};
use crate::compat::escape::{trim_text, trimmed};
use crate::text::{parse_unsigned, parse_unsigned_text};

verus! {

/// Bytes in a gibibyte.
pub const GIB: u64 = 1073741824;

/// Training wants more than 8 GiB of free memory.
pub fn memory_ok(available: u64) -> (r: bool)
    ensures
        r == (available > 8 * 1073741824),
{
    available > 8 * GIB
}

/// A disk with less than 20 GiB free is low.
pub fn disk_low(available: u64) -> (r: bool)
    ensures
        r == (available < 20 * 1073741824),
{
    available < 20 * GIB
}

/// What the kernel manifest told.
#[derive(Debug, Clone)]
pub enum KernelProbe {
    /// No `kernel.json`.
    Missing,
    /// The manifest could not be read.
    Unreadable,
    /// The manifest is no JSON.
    Corrupt,
    /// Installed: torch version, sd-scripts commit and what the venv's torch
    /// said of CUDA (`?` or `未知` where unknown).
    Installed { torch: String, commit: String, cuda: String },
}

/// The kernel line of the check.
pub open spec fn kernel_status_text(p: KernelProbe) -> Seq<char> {
    match p {
        KernelProbe::Missing => "未安装（运行 `tiandi kernel install` 引导：venv + torch cu128 + sd-scripts）"@,
        KernelProbe::Unreadable => "已安装（清单不可读）"@,
        KernelProbe::Corrupt => "已安装（清单损坏）"@,
        KernelProbe::Installed { torch, commit, cuda } => "已安装（torch "@ + torch@ + "，commit "@ + commit@
            + "，cuda="@ + cuda@ + "）"@,
    }
}

/// The kernel line of the check.
pub fn kernel_status(p: &KernelProbe) -> (r: String)
    ensures
        r@ == kernel_status_text(*p),
{
    match p {
        KernelProbe::Missing => String::from_str(
            "未安装（运行 `tiandi kernel install` 引导：venv + torch cu128 + sd-scripts）",
        ),
        KernelProbe::Unreadable => String::from_str("已安装（清单不可读）"),
        KernelProbe::Corrupt => String::from_str("已安装（清单损坏）"),
        KernelProbe::Installed { torch, commit, cuda } => {
            let mut r = String::from_str("已安装（torch ");
            r.append(torch.as_str());
            r.append("，commit ");
            r.append(commit.as_str());
            r.append("，cuda=");
            r.append(cuda.as_str());
            r.append("）");
            proof {
                assert(r@ =~= kernel_status_text(*p));
            }
            r
        },
    }
}

/// `s` holds `f` somewhere.
pub open spec fn holds_text(s: Seq<char>, f: Seq<char>) -> bool {
    exists|i: int| 0 <= i <= s.len() - f.len() && #[trigger] s.skip(i).take(f.len() as int) == f
}

/// `s` begins with `p`.
pub open spec fn begins_with(s: Seq<char>, p: Seq<char>) -> bool {
    s.len() >= p.len() && s.take(p.len() as int) == p
}

/// The kernel passes when its line says it is installed and CUDA works.
pub fn kernel_ready(status: &str) -> (r: bool)
    ensures
        r == (begins_with(status@, "已安装"@) && holds_text(status@, "cuda=True"@)),
{
    proof {
        reveal_strlit("已安装");
        reveal_strlit("cuda=True");
    }
    let n = status.unicode_len();
    let head = matches_at(status, 0, "已安装");
    proof {
        assert(status@.skip(0) =~= status@);
    }
    if !head {
        return false;
    }
    let m: usize = 9;
    if n < m {
        return false;
    }
    let mut i: usize = 0;
    while i <= n - m
        invariant
            n == status@.len(),
            m == "cuda=True"@.len(),
            m == 9,
            n >= m,
            i <= n - m + 1,
            begins_with(status@, "已安装"@),
            forall|q: int| 0 <= q < i ==> #[trigger] status@.skip(q).take(m as int) != "cuda=True"@,
        decreases n - m + 1 - i,
    {
        if matches_at(status, i, "cuda=True") {
            return true;
        }
        i = i + 1;
    }
    proof {
        if holds_text(status@, "cuda=True"@) {
            let q = choose|q: int| 0 <= q <= status@.len() - 9 && #[trigger] status@.skip(q).take(9) == "cuda=True"@;
            assert(q < i);
        }
    }
    false
}

/// A GPU as `nvidia-smi` reports it.
#[derive(Debug, Clone)]
pub struct GpuInfo {
    pub name: String,
    pub mem_used_mb: u64,
    pub mem_total_mb: u64,
    pub util_percent: u64,
}

/// The comma-separated fields of `s`, each trimmed (empty ones kept).
pub open spec fn fields(s: Seq<char>) -> Seq<Seq<char>>
    decreases s.len(),
{
    let k = first_of(s, ',');
    if 0 <= k < s.len() {
        seq![trimmed(s.take(k))] + fields(s.skip(k + 1))
    } else {
        seq![trimmed(s)]
    }
}

/// The GPU of a `nvidia-smi --query-gpu=name,memory.used,memory.total,
/// utilization.gpu --format=csv,noheader,nounits` answer: the first four
/// fields of the trimmed text, the last three numbers.
pub open spec fn gpu_of(text: Seq<char>) -> Option<(Seq<char>, nat, nat, nat)> {
    let f = fields(trimmed(text));
    if f.len() < 4 {
        None
    } else {
        match (
            parse_unsigned(f[1], u64::MAX as nat),
            parse_unsigned(f[2], u64::MAX as nat),
            parse_unsigned(f[3], u64::MAX as nat),
        ) {
            (Some(a), Some(b), Some(c)) => Some((f[0], a, b, c)),
            _ => None,
        }
    }
}

fn split_fields(s: &str) -> (out: Vec<String>)
    ensures
        out@.map_values(|t: String| t@) == fields(s@),
{
    let n = s.unicode_len();
    let mut out: Vec<String> = Vec::new();
    let mut start: usize = 0;
    proof {
        assert(s@.skip(0) =~= s@);
    }
    loop
        invariant
            n == s@.len(),
            start <= n,
            out@.map_values(|t: String| t@) + fields(s@.skip(start as int)) == fields(s@),
        decreases n - start,
    {
        let k = find_char(s, start, ',');
        let ghost rest = s@.skip(start as int);
        proof {
            lemma_first_of(rest, ',');
        }
        let piece = s.substring_char(start, k);
        let t = trim_text(piece);
        proof {
            assert(piece@ =~= rest.take(k - start));
        }
        let ghost before = out@.map_values(|t: String| t@);
        out.push(String::from_str(t));
        proof {
            assert(out@.map_values(|t: String| t@) =~= before.push(t@));
        }
        if k >= n {
            proof {
                assert(rest.take(k - start) =~= rest);
                assert(fields(rest) == seq![trimmed(rest)]);
                assert(out@.map_values(|t: String| t@) =~= before + fields(rest));
            }
            return out;
        }
        proof {
            assert(rest.skip(k - start + 1) =~= s@.skip(k + 1));
            assert(fields(rest) == seq![trimmed(rest.take(k - start))] + fields(rest.skip(k - start + 1)));
            assert(out@.map_values(|t: String| t@) + fields(s@.skip(k + 1)) =~= before + fields(rest));
        }
        start = k + 1;
    }
}

/// The GPU of a `nvidia-smi` query answer, if it has the four fields.
pub fn parse_gpu_query(text: &str) -> (r: Option<GpuInfo>)
    ensures
        match gpu_of(text@) {
            Some((name, used, total, util)) => r matches Some(g) && g.name@ == name && g.mem_used_mb == used
                && g.mem_total_mb == total && g.util_percent == util,
            None => r is None,
        },
{
    let f = split_fields(trim_text(text));
    if f.len() < 4 {
        return None;
    }
    proof {
        assert(f@[1]@ == fields(trimmed(text@))[1]);
        assert(f@[2]@ == fields(trimmed(text@))[2]);
        assert(f@[3]@ == fields(trimmed(text@))[3]);
        assert(f@[0]@ == fields(trimmed(text@))[0]);
    }
    let used = parse_unsigned_text(f[1].as_str(), u64::MAX)?;
    let total = parse_unsigned_text(f[2].as_str(), u64::MAX)?;
    let util = parse_unsigned_text(f[3].as_str(), u64::MAX)?;
    Some(GpuInfo { name: f[0].clone(), mem_used_mb: used, mem_total_mb: total, util_percent: util })
}

/// The GPU line of the environment check: the trimmed `nvidia-smi` answer
/// with its lines joined by ` | `; none when it is empty.
pub fn gpu_summary(text: &str) -> (r: Option<String>)
    ensures
        match r {
            Some(t) => trimmed(text@).len() > 0 && t@ == replaced(trimmed(text@), "\n"@, " | "@),
            None => trimmed(text@).len() == 0,
        },
{
    let t = trim_text(text);
    if t.unicode_len() == 0 {
        return None;
    }
    Some(replace_text(t, "\n", " | "))
}

} // verus!
