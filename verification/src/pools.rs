//! How full the storage behind a tier root is.

use vstd::prelude::*;
use crate::text::{is_blank, trim, trimmed};

verus! {

/// What the filesystem says of its size, in blocks.
#[derive(Clone, Copy, Debug, PartialEq, Eq, Structural)]
pub struct BlockStats {
    pub block_size: u64,
    pub blocks: u64,
    pub free_blocks: u64,
}

/// Sizes in bytes.
#[derive(Clone, Copy, Debug, PartialEq, Eq, Structural)]
pub struct Usage {
    pub total_bytes: u64,
    pub used_bytes: u64,
    pub free_bytes: u64,
}

/// How full the storage behind a root is.
#[derive(Debug, Clone)]
pub struct PoolSummary {
    pub path: String,
    pub total_bytes: u64,
    pub used_bytes: u64,
    pub free_bytes: u64,
}

/// The storage behind both roots.
#[derive(Debug, Clone)]
pub struct PoolsResponse {
    pub hot: Option<PoolSummary>,
    pub cold: Option<PoolSummary>,
}

/// What a look at a pool's root found.
#[derive(Clone, Copy, Debug, PartialEq, Eq, Structural)]
pub enum PoolProbe {
    /// The root could not be looked at.
    Unreadable,
    /// The root is no directory.
    NotDirectory,
    /// The filesystem did not give its size.
    StatFailed,
    /// The filesystem's size.
    Stats(BlockStats),
}

/// A product, capped at the largest count.
pub open spec fn capped_product(a: u64, b: u64) -> u64 {
    if a * b > u64::MAX {
        u64::MAX
    } else {
        (a * b) as u64
    }
}

/// The sizes in bytes that block counts stand for. A block size of zero
/// counts as one. What is used is the total less what is free.
pub open spec fn usage_of(stats: BlockStats) -> Usage {
    let size = if stats.block_size == 0 {
        1u64
    } else {
        stats.block_size
    };
    let total = capped_product(stats.blocks, size);
    let free = capped_product(stats.free_blocks, size);
    Usage {
        total_bytes: total,
        used_bytes: if total >= free {
            (total - free) as u64
        } else {
            0
        },
        free_bytes: free,
    }
}

/// A product, capped at the largest count.
pub fn saturating_product(a: u64, b: u64) -> (r: u64)
    ensures
        r == capped_product(a, b),
{
    match a.checked_mul(b) {
        Some(p) => p,
        None => u64::MAX,
    }
}

/// The sizes in bytes that block counts stand for.
pub fn usage_from_blocks(stats: &BlockStats) -> (r: Usage)
    ensures
        r == usage_of(*stats),
        r.used_bytes <= r.total_bytes,
{
    let size = if stats.block_size == 0 {
        1
    } else {
        stats.block_size
    };
    let total = saturating_product(stats.blocks, size);
    let free = saturating_product(stats.free_blocks, size);
    let used = if total >= free {
        total - free
    } else {
        0
    };
    Usage { total_bytes: total, used_bytes: used, free_bytes: free }
}

/// How full the storage behind a root is, or nothing where the root is not
/// set or its storage could not be measured.
pub fn collect_pool_usage(root: &str, probe: &PoolProbe) -> (r: Option<PoolSummary>)
    ensures
        r is Some <==> !is_blank(root@) && probe is Stats,
        r matches Some(summary) ==> {
            &&& summary.path@ == trimmed(root@)
            &&& summary.total_bytes == usage_of(probe->Stats_0).total_bytes
            &&& summary.used_bytes == usage_of(probe->Stats_0).used_bytes
            &&& summary.free_bytes == usage_of(probe->Stats_0).free_bytes
        },
{
    let t = trim(root);
    if t.unicode_len() == 0 {
        return None;
    }
    match probe {
        PoolProbe::Stats(stats) => {
            let usage = usage_from_blocks(stats);
            Some(
                PoolSummary {
                    path: t.to_owned(),
                    total_bytes: usage.total_bytes,
                    used_bytes: usage.used_bytes,
                    free_bytes: usage.free_bytes,
                },
            )
        },
        _ => None,
    }
}

} // verus!
