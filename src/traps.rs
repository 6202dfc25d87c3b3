//! Trap codes, trap sites, trap tables and trap manifest records.

use vstd::prelude::*;

verus! {

/// The type of a WebAssembly trap.
#[derive(Copy, Clone, Debug, PartialEq, Eq, Structural)]
pub enum TrapCode {
    StackOverflow,
    HeapOutOfBounds,
    OutOfBounds,
    IndirectCallToNull,
    BadSignature,
    IntegerOverflow,
    IntegerDivByZero,
    BadConversionToInteger,
    Interrupt,
    TableOutOfBounds,
    Unreachable,
}

/// The number a trap code stands for in the binary format.
pub open spec fn trap_code_number(c: TrapCode) -> u32 {
    match c {
        TrapCode::StackOverflow => 0,
        TrapCode::HeapOutOfBounds => 1,
        TrapCode::OutOfBounds => 2,
        TrapCode::IndirectCallToNull => 3,
        TrapCode::BadSignature => 4,
        TrapCode::IntegerOverflow => 5,
        TrapCode::IntegerDivByZero => 6,
        TrapCode::BadConversionToInteger => 7,
        TrapCode::Interrupt => 8,
        TrapCode::TableOutOfBounds => 9,
        TrapCode::Unreachable => 10,
    }
}

/// The trap code a number stands for, if any: numbers above 10 name none.
pub open spec fn trap_code_of_number(v: u32) -> Option<TrapCode> {
    if v == 0 {
        Some(TrapCode::StackOverflow)
    } else if v == 1 {
        Some(TrapCode::HeapOutOfBounds)
    } else if v == 2 {
        Some(TrapCode::OutOfBounds)
    } else if v == 3 {
        Some(TrapCode::IndirectCallToNull)
    } else if v == 4 {
        Some(TrapCode::BadSignature)
    } else if v == 5 {
        Some(TrapCode::IntegerOverflow)
    } else if v == 6 {
        Some(TrapCode::IntegerDivByZero)
    } else if v == 7 {
        Some(TrapCode::BadConversionToInteger)
    } else if v == 8 {
        Some(TrapCode::Interrupt)
    } else if v == 9 {
        Some(TrapCode::TableOutOfBounds)
    } else if v == 10 {
        Some(TrapCode::Unreachable)
    } else {
        None
    }
}

impl TrapCode {
    /// The trap code that `v` stands for, or `None` for a number that names
    /// no trap code.
    pub fn try_from_u32(v: u32) -> (r: Option<TrapCode>)
        ensures
            r == trap_code_of_number(v),
            r matches Some(c) ==> trap_code_number(c) == v,
            r is None <==> v > 10,
    {
        match v {
            0 => Some(TrapCode::StackOverflow),
            1 => Some(TrapCode::HeapOutOfBounds),
            2 => Some(TrapCode::OutOfBounds),
            3 => Some(TrapCode::IndirectCallToNull),
            4 => Some(TrapCode::BadSignature),
            5 => Some(TrapCode::IntegerOverflow),
            6 => Some(TrapCode::IntegerDivByZero),
            7 => Some(TrapCode::BadConversionToInteger),
            8 => Some(TrapCode::Interrupt),
            9 => Some(TrapCode::TableOutOfBounds),
            10 => Some(TrapCode::Unreachable),
            _ => None,
        }
    }

    /// The number this trap code stands for.
    pub fn to_u32(&self) -> (r: u32)
        ensures
            r == trap_code_number(*self),
            trap_code_of_number(r) == Some(*self),
    {
        match self {
            TrapCode::StackOverflow => 0,
            TrapCode::HeapOutOfBounds => 1,
            TrapCode::OutOfBounds => 2,
            TrapCode::IndirectCallToNull => 3,
            TrapCode::BadSignature => 4,
            TrapCode::IntegerOverflow => 5,
            TrapCode::IntegerDivByZero => 6,
            TrapCode::BadConversionToInteger => 7,
            TrapCode::Interrupt => 8,
            TrapCode::TableOutOfBounds => 9,
            TrapCode::Unreachable => 10,
        }
    }
}

/// Trap information for one address in a compiled function: the offset of
/// the faulting instruction from the function's start, and its trap code.
#[derive(Copy, Clone, Debug, PartialEq, Eq, Structural)]
pub struct TrapSite {
    pub offset: u32,
    pub code: TrapCode,
}

/// A trap-site table is ordered by strictly ascending offset.
pub open spec fn sites_sorted(sites: Seq<TrapSite>) -> bool {
    forall|i: int, j: int| 0 <= i < j < sites.len() ==> sites[i].offset < sites[j].offset
}

/// The trap code recorded at offset `off` of a table, or `None` where no
/// site has that offset.
pub open spec fn trap_at(sites: Seq<TrapSite>, off: int) -> Option<TrapCode> {
    if exists|i: int| 0 <= i < sites.len() && sites[i].offset == off {
        Some(sites[choose|i: int| 0 <= i < sites.len() && sites[i].offset == off].code)
    } else {
        None
    }
}

/// In a sorted table, the site at an index is the one `trap_at` finds at
/// its offset.
pub proof fn lemma_trap_at_index(sites: Seq<TrapSite>, k: int)
    requires
        sites_sorted(sites),
        0 <= k < sites.len(),
    ensures
        trap_at(sites, sites[k].offset as int) == Some(sites[k].code),
{
    let off = sites[k].offset as int;
    assert(0 <= k < sites.len() && sites[k].offset == off);
    let c = choose|i: int| 0 <= i < sites.len() && sites[i].offset == off;
    if c < k {
        assert(sites[c].offset < sites[k].offset);
    } else if c > k {
        assert(sites[k].offset < sites[c].offset);
    }
}

/// Binary search of a sorted table for the site at offset `off`.
pub fn lookup_offset(sites: &[TrapSite], off: u32) -> (r: Option<TrapCode>)
    requires
        sites_sorted(sites@),
    ensures
        r == trap_at(sites@, off as int),
{
    let mut lo: usize = 0;
    let mut hi: usize = sites.len();
    while lo < hi
        invariant
            0 <= lo <= hi <= sites@.len(),
            sites_sorted(sites@),
            forall|i: int| 0 <= i < lo ==> sites@[i].offset < off,
            forall|i: int| hi <= i < sites@.len() ==> sites@[i].offset > off,
        decreases hi - lo,
    {
        let mid: usize = lo + (hi - lo) / 2;
        let site = sites[mid];
        if site.offset == off {
            proof {
                lemma_trap_at_index(sites@, mid as int);
            }
            return Some(site.code);
        } else if site.offset < off {
            lo = mid + 1;
        } else {
            hi = mid;
        }
    }
    assert(!exists|i: int| 0 <= i < sites@.len() && sites@[i].offset == off);
    None
}

/// The trap sites of one function.
pub struct TrapTable {
    pub function: u32,
    pub traps: Vec<TrapSite>,
}

impl TrapTable {
    /// A table for function `function`; its sites must be in strictly
    /// ascending offset order.
    pub fn new(function: u32, traps: Vec<TrapSite>) -> (r: TrapTable)
        requires
            sites_sorted(traps@),
        ensures
            r.function == function,
            r.traps@ == traps@,
    {
        TrapTable { function, traps }
    }

    /// The trap code at offset `addr` of the function, if a site is recorded
    /// there.
    pub fn lookup_addr(&self, addr: u32) -> (r: Option<TrapCode>)
        requires
            sites_sorted(self.traps@),
        ensures
            r == trap_at(self.traps@, addr as int),
    {
        lookup_offset(self.traps.as_slice(), addr)
    }
}

/// The manifest entry of one function that has trap sites: where its table
/// stands once the module is loaded, how many sites it holds, and which
/// function of the function manifest it belongs to.
#[derive(Copy, Clone, Debug, PartialEq, Eq, Structural)]
pub struct TrapManifestRecord {
    pub table_addr: u64,
    pub table_len: u64,
    pub func_index: u32,
}

impl TrapManifestRecord {
    /// The trap code at offset `addr` of this record's function, where
    /// `trapsites` is the record's table as read from the loaded image.
    pub fn lookup_addr(&self, trapsites: &[TrapSite], addr: u32) -> (r: Option<TrapCode>)
        requires
            trapsites@.len() == self.table_len,
            sites_sorted(trapsites@),
        ensures
            r == trap_at(trapsites@, addr as int),
    {
        lookup_offset(trapsites, addr)
    }
}

} // verus!
