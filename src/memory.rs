//! The memory report: totals over the firmware's memory map, and their text.

use vstd::prelude::*;
use vstd::string::{StrSliceExecFns, StringExecFns};

verus! {

/// Bytes in a page of the memory map.
pub const PAGE_SIZE: u64 = 4096;

/// How the firmware uses a region of memory, as far as the report cares.
#[derive(Clone, Copy, Debug, PartialEq, Eq, Structural)]
pub enum MemoryKind {
    /// Free for the operating system.
    Conventional,
    BootServices,
    RuntimeServices,
    Other,
}

/// One entry of the memory map.
#[derive(Clone, Copy, Debug, PartialEq, Eq, Structural)]
pub struct MemoryRegion {
    pub kind: MemoryKind,
    pub page_count: u64,
}

pub struct MemoryInfo {
    pub total_bytes: u64,
    pub free_bytes: u64,
    pub boot_services_bytes: u64,
    pub runtime_bytes: u64,
    pub entry_count: usize,
}

/// Bytes in the regions of kind `k`, or in all of them when `k` is `None`.
pub open spec fn bytes_of(rs: Seq<MemoryRegion>, k: Option<MemoryKind>) -> int
    decreases rs.len(),
{
    if rs.len() == 0 {
        0
    } else {
        bytes_of(rs.drop_last(), k) + if k is None || k == Some(rs.last().kind) {
            rs.last().page_count * PAGE_SIZE
        } else {
            0
        }
    }
}

proof fn lemma_bytes_prefix(rs: Seq<MemoryRegion>, i: int, k: Option<MemoryKind>)
    requires
        0 <= i <= rs.len(),
    ensures
        0 <= bytes_of(rs.take(i), k) <= bytes_of(rs, k),
    decreases rs.len(),
{
    if i == rs.len() {
        assert(rs.take(i) =~= rs);
        lemma_bytes_nonneg(rs, k);
    } else {
        lemma_bytes_prefix(rs.drop_last(), i, k);
        assert(rs.drop_last().take(i) =~= rs.take(i));
    }
}

proof fn lemma_bytes_nonneg(rs: Seq<MemoryRegion>, k: Option<MemoryKind>)
    ensures
        0 <= bytes_of(rs, k),
    decreases rs.len(),
{
    if rs.len() > 0 {
        lemma_bytes_nonneg(rs.drop_last(), k);
    }
}

proof fn lemma_kind_within_total(rs: Seq<MemoryRegion>, k: MemoryKind)
    ensures
        bytes_of(rs, Some(k)) <= bytes_of(rs, None),
    decreases rs.len(),
{
    if rs.len() > 0 {
        lemma_kind_within_total(rs.drop_last(), k);
    }
}

/// Totals over the memory map: all bytes, free bytes, and those held by
/// boot and runtime services. `None` when the total does not fit in `u64`.
pub fn summarize_memory_map(regions: &Vec<MemoryRegion>) -> (r: Option<MemoryInfo>)
    ensures
        r is Some <==> bytes_of(regions@, None) <= u64::MAX,
        r is Some ==> {
            let info = r->0;
            &&& info.total_bytes == bytes_of(regions@, None)
            &&& info.free_bytes == bytes_of(regions@, Some(MemoryKind::Conventional))
            &&& info.boot_services_bytes == bytes_of(regions@, Some(MemoryKind::BootServices))
            &&& info.runtime_bytes == bytes_of(regions@, Some(MemoryKind::RuntimeServices))
            &&& info.entry_count == regions@.len()
        },
{
    let n = regions.len();
    let mut total: u64 = 0;
    let mut free: u64 = 0;
    let mut boot_svc: u64 = 0;
    let mut runtime: u64 = 0;
    let mut i: usize = 0;
    while i < n
        invariant
            n == regions@.len(),
            i <= n,
            total == bytes_of(regions@.take(i as int), None),
            free == bytes_of(regions@.take(i as int), Some(MemoryKind::Conventional)),
            boot_svc == bytes_of(regions@.take(i as int), Some(MemoryKind::BootServices)),
            runtime == bytes_of(regions@.take(i as int), Some(MemoryKind::RuntimeServices)),
        decreases n - i,
    {
        let region = regions[i];
        proof {
            assert(regions@.take(i + 1).drop_last() =~= regions@.take(i as int));
            lemma_bytes_prefix(regions@, i + 1, None);
            lemma_bytes_nonneg(regions@.take(i as int), None);
            lemma_kind_within_total(regions@.take(i as int), MemoryKind::Conventional);
            lemma_kind_within_total(regions@.take(i as int), MemoryKind::BootServices);
            lemma_kind_within_total(regions@.take(i as int), MemoryKind::RuntimeServices);
        }
        let bytes = match region.page_count.checked_mul(PAGE_SIZE) {
            Some(b) => b,
            None => return None,
        };
        total = match total.checked_add(bytes) {
            Some(t) => t,
            None => return None,
        };
        match region.kind {
            MemoryKind::Conventional => free = free + bytes,
            MemoryKind::BootServices => boot_svc = boot_svc + bytes,
            MemoryKind::RuntimeServices => runtime = runtime + bytes,
            MemoryKind::Other => {},
        }
        i = i + 1;
    }
    proof {
        assert(regions@.take(n as int) =~= regions@);
    }
    Some(
        MemoryInfo {
            total_bytes: total,
            free_bytes: free,
            boot_services_bytes: boot_svc,
            runtime_bytes: runtime,
            entry_count: n,
        },
    )
}

/// The decimal digit `d`.
pub open spec fn digit_char(d: int) -> char {
    "0123456789"@[d]
}

/// `n` in decimal, without leading zeros.
pub open spec fn decimal(n: nat) -> Seq<char>
    decreases n,
{
    if n < 10 {
        seq![digit_char(n as int)]
    } else {
        decimal(n / 10).push(digit_char((n % 10) as int))
    }
}

/// Appends `n` in decimal.
fn append_decimal(s: &mut String, n: u64)
    ensures
        final(s)@ == old(s)@ + decimal(n as nat),
    decreases n,
{
    if n >= 10 {
        append_decimal(s, n / 10);
    }
    let digits = "0123456789";
    proof {
        reveal_strlit("0123456789");
    }
    let d = (n % 10) as usize;
    let piece = digits.substring_ascii(d, d + 1);
    s.append(piece);
    proof {
        assert(piece@ =~= seq![digit_char(d as int)]);
    }
}

pub const MIB: u64 = 1048576;

pub const KIB: u64 = 1024;

/// The report's text.
pub open spec fn memory_report(info: MemoryInfo) -> Seq<char> {
    "Memory Map ("@ + decimal(info.entry_count as nat) + " entries):\n  Total:          "@
        + decimal((info.total_bytes / MIB) as nat) + " MB\n  Free:           "@ + decimal(
        (info.free_bytes / MIB) as nat,
    ) + " MB\n  Used:           "@ + decimal(((info.total_bytes - info.free_bytes) / MIB as int) as nat)
        + " MB\n  Boot Services:  "@ + decimal((info.boot_services_bytes / KIB) as nat)
        + " KB\n  Runtime:        "@ + decimal((info.runtime_bytes / KIB) as nat) + " KB\n"@
}

/// The memory report: entry count, total, free and used memory in MiB, and
/// the boot and runtime services' shares in KiB, one per line.
pub fn format_memory_info(info: &MemoryInfo) -> (s: String)
    requires
        info.free_bytes <= info.total_bytes,
    ensures
        s@ == memory_report(*info),
{
    let mut s = String::new();
    s.append("Memory Map (");
    append_decimal(&mut s, info.entry_count as u64);
    s.append(" entries):\n  Total:          ");
    append_decimal(&mut s, info.total_bytes / MIB);
    s.append(" MB\n  Free:           ");
    append_decimal(&mut s, info.free_bytes / MIB);
    s.append(" MB\n  Used:           ");
    append_decimal(&mut s, (info.total_bytes - info.free_bytes) / MIB);
    s.append(" MB\n  Boot Services:  ");
    append_decimal(&mut s, info.boot_services_bytes / KIB);
    s.append(" KB\n  Runtime:        ");
    append_decimal(&mut s, info.runtime_bytes / KIB);
    s.append(" KB\n");
    assert(s@ =~= memory_report(*info));
    s
}
} // verus!
