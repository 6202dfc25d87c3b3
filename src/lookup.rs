//! Resolving a faulting address to a trap code.

use vstd::prelude::*;

use crate::functions::{spec_contains, FunctionSpec};
use crate::traps::{lookup_offset, sites_sorted, trap_at, TrapCode, TrapSite};

verus! {

/// The trap recorded at absolute address `addr`: `None` outside the
/// function's range (its end included), else the site at the offset of
/// `addr` from the function's base.
pub open spec fn trap_at_addr(func: FunctionSpec, sites: Seq<TrapSite>, addr: int) -> Option<
    TrapCode,
> {
    if spec_contains(func, addr) {
        trap_at(sites, addr - func.addr)
    } else {
        None
    }
}

/// Resolves a faulting address against a function and its trap-site table.
/// It allocates nothing and has no effect.
pub fn lookup_trap(func: &FunctionSpec, sites: &[TrapSite], addr: u64) -> (r: Option<TrapCode>)
    requires
        sites_sorted(sites@),
    ensures
        r == trap_at_addr(*func, sites@, addr as int),
{
    if !func.contains(addr) {
        return None;
    }
    let off: u64 = addr - func.addr;
    lookup_offset(sites, off as u32)
}

/// Every recorded site of a function is found at the function's base plus
/// its offset.
pub proof fn lemma_lookup_finds_every_site(func: FunctionSpec, sites: Seq<TrapSite>, k: int)
    requires
        sites_sorted(sites),
        0 <= k < sites.len(),
        sites[k].offset <= func.len,
    ensures
        trap_at_addr(func, sites, func.addr + sites[k].offset) == Some(sites[k].code),
{
    crate::traps::lemma_trap_at_index(sites, k);
}

/// An address outside the function's range, or at an offset where no site
/// is recorded, finds nothing; the end of the range belongs to the function.
pub proof fn lemma_lookup_misses(func: FunctionSpec, sites: Seq<TrapSite>, addr: int)
    requires
        sites_sorted(sites),
    ensures
        !(func.addr <= addr <= func.addr + func.len) ==> trap_at_addr(func, sites, addr) is None,
        (forall|i: int| 0 <= i < sites.len() ==> sites[i].offset != addr - func.addr)
            ==> trap_at_addr(func, sites, addr) is None,
        func.addr <= addr <= func.addr + func.len ==> trap_at_addr(func, sites, addr) == trap_at(
            sites,
            addr - func.addr,
        ),
{
}

} // verus!
