//! The runtime side: the decisions of loading a module and fixing up its
//! trap manifest, over what the dynamic linker reports.

use vstd::prelude::*;
use vstd::string::*;

use crate::code_metadata::Error;
use crate::functions::{spec_contains, FunctionSpec};
use crate::lookup::{lookup_trap, trap_at_addr};
use crate::layout::{decode_trap_sites, decode_trap_table};
use crate::traps::{sites_sorted, TrapCode, TrapManifestRecord, TrapSite};
use crate::writer::{sites_in_order, trap_sym_for_func, trap_symbol};

verus! {

/// Why a module could not be loaded. Every one of them rejects the module
/// as a whole.
#[derive(Debug)]
pub enum LoadError {
    /// A required symbol is not defined; it carries the symbol's name.
    MissingSymbol(String),
    /// A symbol is defined but its address is null.
    NullSymbol(String),
    /// A trap manifest record names a function the manifest lacks.
    InvalidFunctionIndex(u32),
    /// The dynamic linker knows no symbol at a function's address.
    NoSymbolForFunction(u64),
    /// The symbol at a function's address has a null or empty name.
    NullSymbolName(u64),
    /// The trap table of a function could not be resolved.
    MissingTrapTable(String),
    /// A trap table's bytes do not hold its sites in order.
    MalformedTrapTable(u32),
    /// The code metadata could not be decoded.
    Metadata(Error),
    /// The function manifest's bytes are not a whole number of entries.
    MalformedFunctionManifest,
    /// A table segment holds more elements than a 32-bit index reaches.
    TableTooLong(u64),
    /// No function stands at this index of this table.
    FuncNotFound(u32, u32),
}

/// Where the function manifest stands in a loaded image.
#[derive(Copy, Clone, Debug, PartialEq, Eq, Structural)]
pub enum ManifestSource {
    /// Neither manifest symbol is defined: the module defines no functions.
    Absent,
    /// The manifest's address and the address of its 32-bit length.
    At { data_addr: u64, len_addr: u64 },
}

/// The name of the symbol that holds the function manifest.
pub open spec fn manifest_symbol() -> Seq<char> {
    "lucet_function_manifest"@
}

/// The name of the symbol that holds the function manifest's length.
pub open spec fn manifest_len_symbol() -> Seq<char> {
    "lucet_function_manifest_len"@
}

/// The result is an error for a missing symbol named `name`.
pub open spec fn is_missing<T>(r: Result<T, LoadError>, name: Seq<char>) -> bool {
    match r {
        Err(LoadError::MissingSymbol(s)) => s@ == name,
        _ => false,
    }
}

/// The result is an error for a null symbol named `name`.
pub open spec fn is_null<T>(r: Result<T, LoadError>, name: Seq<char>) -> bool {
    match r {
        Err(LoadError::NullSymbol(s)) => s@ == name,
        _ => false,
    }
}

/// Decides where the function manifest is from the addresses the dynamic
/// linker gave for its two symbols (`None` where one is undefined). Both
/// absent means a module without functions; one of them absent, or either
/// null, is an error naming that symbol.
pub fn function_manifest_source(data: Option<u64>, len: Option<u64>) -> (r: Result<
    ManifestSource,
    LoadError,
>)
    ensures
        data is None && len is None ==> r == Ok::<ManifestSource, LoadError>(ManifestSource::Absent),
        data is None && len is Some ==> is_missing(r, manifest_symbol()),
        data is Some && len is None ==> is_missing(r, manifest_len_symbol()),
        len == Some(0u64) && data is Some ==> is_null(r, manifest_len_symbol()),
        data == Some(0u64) && len is Some && len != Some(0u64) ==> is_null(r, manifest_symbol()),
        data is Some && len is Some && data != Some(0u64) && len != Some(0u64) ==> r == Ok::<
            ManifestSource,
            LoadError,
        >(ManifestSource::At { data_addr: data->Some_0, len_addr: len->Some_0 }),
{
    match (data, len) {
        (None, None) => Ok(ManifestSource::Absent),
        (None, Some(_)) => Err(LoadError::MissingSymbol(String::from_str("lucet_function_manifest"))),
        (Some(_), None) => Err(
            LoadError::MissingSymbol(String::from_str("lucet_function_manifest_len")),
        ),
        (Some(d), Some(l)) => {
            if l == 0 {
                Err(LoadError::NullSymbol(String::from_str("lucet_function_manifest_len")))
            } else if d == 0 {
                Err(LoadError::NullSymbol(String::from_str("lucet_function_manifest")))
            } else {
                Ok(ManifestSource::At { data_addr: d, len_addr: l })
            }
        },
    }
}

/// Whether every record names a function of the manifest.
pub open spec fn indices_valid(records: Seq<TrapManifestRecord>, functions: Seq<FunctionSpec>) -> bool {
    forall|k: int| 0 <= k < records.len() ==> (#[trigger] records[k]).func_index < functions.len()
}

/// The base address of each record's function, in record order. Fails,
/// naming the function index, at the first record whose function index is
/// out of range.
pub fn trap_table_functions(records: &Vec<TrapManifestRecord>, functions: &[FunctionSpec]) -> (r:
    Result<Vec<u64>, LoadError>)
    ensures
        r is Ok <==> indices_valid(records@, functions@),
        r matches Ok(addrs) ==> addrs@.len() == records@.len() && forall|k: int|
            0 <= k < records@.len() ==> #[trigger] addrs@[k]
                == functions@[records@[k].func_index as int].addr,
        r matches Err(e) ==> exists|k: int|
            0 <= k < records@.len() && e == LoadError::InvalidFunctionIndex(
                (#[trigger] records@[k]).func_index,
            ) && records@[k].func_index >= functions@.len() && forall|j: int|
                0 <= j < k ==> (#[trigger] records@[j]).func_index < functions@.len(),
{
    let mut addrs: Vec<u64> = Vec::new();
    let mut k: usize = 0;
    while k < records.len()
        invariant
            k <= records@.len(),
            addrs@.len() == k,
            forall|j: int| 0 <= j < k ==> (#[trigger] records@[j]).func_index < functions@.len(),
            forall|j: int|
                0 <= j < k ==> #[trigger] addrs@[j] == functions@[records@[j].func_index as int].addr,
        decreases records@.len() - k,
    {
        let idx = records[k].func_index;
        if idx as usize >= functions.len() {
            return Err(LoadError::InvalidFunctionIndex(idx));
        }
        addrs.push(functions[idx as usize].addr);
        k = k + 1;
    }
    Ok(addrs)
}

/// What the dynamic linker's reverse lookup found at a function's address.
#[derive(Debug)]
pub enum AddrSymbol {
    /// No symbol covers the address.
    NotFound,
    /// A symbol covers it but its name is null.
    NullName,
    /// The name of the symbol.
    Name(String),
}

/// The trap-table symbol of the function at `func_addr`, from the name the
/// reverse lookup found there.
pub fn trap_table_symbol(func_addr: u64, found: &AddrSymbol) -> (r: Result<String, LoadError>)
    ensures
        found is NotFound ==> r == Err::<String, LoadError>(
            LoadError::NoSymbolForFunction(func_addr),
        ),
        found is NullName ==> r == Err::<String, LoadError>(LoadError::NullSymbolName(func_addr)),
        found matches AddrSymbol::Name(n) ==> if n@.len() == 0 {
            r == Err::<String, LoadError>(LoadError::NullSymbolName(func_addr))
        } else {
            r matches Ok(s) && s@ == trap_symbol(n@)
        },
{
    match found {
        AddrSymbol::NotFound => Err(LoadError::NoSymbolForFunction(func_addr)),
        AddrSymbol::NullName => Err(LoadError::NullSymbolName(func_addr)),
        AddrSymbol::Name(n) => {
            if n.as_str().is_empty() {
                Err(LoadError::NullSymbolName(func_addr))
            } else {
                Ok(trap_sym_for_func(n.as_str()))
            }
        },
    }
}

/// Whether a trap table was resolved to a non-null address.
pub open spec fn resolved(a: Option<u64>) -> bool {
    a is Some && a->Some_0 != 0
}

/// Whether every trap table was resolved to a non-null address.
pub open spec fn all_resolved(table_addrs: Seq<Option<u64>>) -> bool {
    forall|k: int| 0 <= k < table_addrs.len() ==> resolved(#[trigger] table_addrs[k])
}

/// The fix-up pass: writes each resolved trap-table address into its
/// record. It succeeds only where every table was resolved to a non-null
/// address, and leaves the records untouched otherwise; the error names the
/// symbol of the first table that was not.
pub fn apply_trap_table_addrs(
    records: &mut Vec<TrapManifestRecord>,
    table_addrs: &Vec<Option<u64>>,
    symbols: &Vec<String>,
) -> (r: Result<(), LoadError>)
    requires
        table_addrs@.len() == old(records)@.len(),
        symbols@.len() == old(records)@.len(),
    ensures
        r is Ok <==> all_resolved(table_addrs@),
        r is Err ==> final(records)@ == old(records)@,
        r matches Err(e) ==> exists|k: int|
            0 <= k < table_addrs@.len() && !resolved(#[trigger] table_addrs@[k])
                && (if table_addrs@[k] is None {
                e == LoadError::MissingTrapTable(symbols@[k])
            } else {
                e == LoadError::NullSymbol(symbols@[k])
            }) && forall|j: int|
                0 <= j < k ==> resolved(#[trigger] table_addrs@[j]),
        r is Ok ==> final(records)@.len() == old(records)@.len() && forall|k: int|
            0 <= k < old(records)@.len() ==> {
                &&& Some((#[trigger] final(records)@[k]).table_addr) == table_addrs@[k]
                &&& final(records)@[k].table_addr != 0
                &&& final(records)@[k].table_len == old(records)@[k].table_len
                &&& final(records)@[k].func_index == old(records)@[k].func_index
            },
{
    let mut k: usize = 0;
    while k < table_addrs.len()
        invariant
            k <= table_addrs@.len(),
            symbols@.len() == table_addrs@.len(),
            forall|j: int| 0 <= j < k ==> resolved(#[trigger] table_addrs@[j]),
        decreases table_addrs@.len() - k,
    {
        match table_addrs[k] {
            None => {
                return Err(LoadError::MissingTrapTable(symbols[k].clone()));
            },
            Some(a) => {
                if a == 0 {
                    return Err(LoadError::NullSymbol(symbols[k].clone()));
                }
            },
        }
        k = k + 1;
    }
    let mut i: usize = 0;
    while i < records.len()
        invariant
            table_addrs@.len() == old(records)@.len(),
            records@.len() == old(records)@.len(),
            all_resolved(table_addrs@),
            i <= records@.len(),
            forall|j: int| i <= j < records@.len() ==> #[trigger] records@[j] == old(records)@[j],
            forall|j: int|
                0 <= j < i ==> {
                    &&& Some((#[trigger] records@[j]).table_addr) == table_addrs@[j]
                    &&& records@[j].table_addr != 0
                    &&& records@[j].table_len == old(records)@[j].table_len
                    &&& records@[j].func_index == old(records)@[j].func_index
                },
        decreases records@.len() - i,
    {
        let a = match table_addrs[i] {
            Some(a) => a,
            None => 0,
        };
        let mut rec = records[i];
        rec.table_addr = a;
        records.set(i, rec);
        i = i + 1;
    }
    Ok(())
}

impl TrapManifestRecord {
    /// This record's trap table, read from the `8 * table_len` bytes of the
    /// loaded image at its fixed-up `table_addr`. `None` where the bytes are
    /// not exactly that long or do not hold valid sites in ascending order.
    pub fn trapsites(&self, table_bytes: &[u8]) -> (r: Option<Vec<TrapSite>>)
        requires
            self.table_addr != 0,
        ensures
            r is Some <==> table_bytes@.len() == 8 * self.table_len && decode_trap_sites(
                table_bytes@,
            ) is Some,
            r matches Some(v) ==> v@.len() == self.table_len && decode_trap_sites(table_bytes@)
                == Some(v@),
    {
        if (table_bytes.len() as u64) / 8 != self.table_len || table_bytes.len() % 8 != 0 {
            return None;
        }
        decode_trap_table(table_bytes)
    }
}

/// The trap metadata of a loaded module, ready for lookups: the function
/// manifest, the fixed-up trap manifest, and each record's trap table.
pub struct ModuleTraps {
    pub functions: Vec<FunctionSpec>,
    pub records: Vec<TrapManifestRecord>,
    pub tables: Vec<Vec<TrapSite>>,
}

/// Whether record `k` belongs to a function whose range holds `addr`.
pub open spec fn covers(
    functions: Seq<FunctionSpec>,
    records: Seq<TrapManifestRecord>,
    k: int,
    addr: int,
) -> bool {
    &&& 0 <= k < records.len()
    &&& records[k].func_index < functions.len()
    &&& spec_contains(functions[records[k].func_index as int], addr)
}

impl ModuleTraps {
    /// One table per record, every function index valid, every table as
    /// long as its record says and in strictly ascending offset order.
    pub open spec fn wf(&self) -> bool {
        &&& self.tables@.len() == self.records@.len()
        &&& indices_valid(self.records@, self.functions@)
        &&& forall|k: int|
            0 <= k < self.records@.len() ==> {
                &&& (#[trigger] self.tables@[k])@.len() == self.records@[k].table_len
                &&& sites_sorted(self.tables@[k]@)
            }
    }

    /// Gathers a module's trap metadata; `None` unless it is well formed.
    pub fn new(
        functions: Vec<FunctionSpec>,
        records: Vec<TrapManifestRecord>,
        tables: Vec<Vec<TrapSite>>,
    ) -> (r: Option<ModuleTraps>)
        ensures
            r matches Some(m) ==> m.wf() && m.functions@ == functions@ && m.records@ == records@
                && m.tables@ == tables@,
            r is None ==> !(ModuleTraps { functions, records, tables }).wf(),
    {
        if tables.len() != records.len() {
            return None;
        }
        let mut k: usize = 0;
        while k < records.len()
            invariant
                tables@.len() == records@.len(),
                k <= records@.len(),
                forall|j: int|
                    0 <= j < k ==> {
                        &&& (#[trigger] records@[j]).func_index < functions@.len()
                        &&& tables@[j]@.len() == records@[j].table_len
                        &&& sites_sorted(tables@[j]@)
                    },
            decreases records@.len() - k,
        {
            let rec = records[k];
            if rec.func_index as usize >= functions.len() || tables[k].len() as u64
                != rec.table_len || !sites_in_order(&tables[k]) {
                return None;
            }
            k = k + 1;
        }
        Some(ModuleTraps { functions, records, tables })
    }

    /// The trap at a faulting address: the first record whose function's
    /// range (its end included) holds `addr` decides; `None` where none does.
    /// Where one function ends right where the next begins, that address
    /// belongs to whichever of the two comes first in the trap manifest.
    /// It allocates nothing and has no effect.
    pub fn lookup_addr(&self, addr: u64) -> (r: Option<TrapCode>)
        requires
            self.wf(),
        ensures
            (forall|k: int| !covers(self.functions@, self.records@, k, addr as int)) ==> r is None,
            forall|k: int|
                #![trigger covers(self.functions@, self.records@, k, addr as int)]
                covers(self.functions@, self.records@, k, addr as int) && (forall|j: int|
                    0 <= j < k ==> !covers(self.functions@, self.records@, j, addr as int))
                    ==> r == trap_at_addr(
                    self.functions@[self.records@[k].func_index as int],
                    self.tables@[k]@,
                    addr as int,
                ),
    {
        let mut k: usize = 0;
        while k < self.records.len()
            invariant
                self.wf(),
                k <= self.records@.len(),
                forall|j: int| 0 <= j < k ==> !covers(self.functions@, self.records@, j, addr as int),
            decreases self.records@.len() - k,
        {
            let func = &self.functions[self.records[k].func_index as usize];
            if func.contains(addr) {
                let r = lookup_trap(func, self.tables[k].as_slice(), addr);
                assert(covers(self.functions@, self.records@, k as int, addr as int));
                return r;
            }
            k = k + 1;
        }
        None
    }
}

/// Whether `needle` occurs in `hay` at index `i`.
pub open spec fn occurs_at(hay: Seq<u8>, needle: Seq<u8>, i: int) -> bool {
    0 <= i && i + needle.len() <= hay.len() && hay.subrange(i, i + needle.len()) == needle
}

/// Whether `needle` occurs anywhere in `hay`.
pub open spec fn has_infix(hay: Seq<u8>, needle: Seq<u8>) -> bool {
    exists|i: int| occurs_at(hay, needle, i)
}

/// Whether `needle` occurs in `hay`.
fn contains_bytes(hay: &[u8], needle: &[u8]) -> (r: bool)
    ensures
        r == has_infix(hay@, needle@),
{
    if needle.len() == 0 {
        assert(hay@.subrange(0, 0) =~= needle@);
        assert(occurs_at(hay@, needle@, 0));
        return true;
    }
    let hlen: usize = hay.len();
    if needle.len() > hlen {
        return false;
    }
    let last: usize = hlen - needle.len();
    let mut i: usize = 0;
    while i <= last
        invariant
            hlen == hay@.len(),
            needle@.len() > 0,
            last == hay@.len() - needle@.len(),
            i <= last + 1,
            forall|j: int| 0 <= j < i ==> !occurs_at(hay@, needle@, j),
        decreases last + 1 - i,
    {
        let mut k: usize = 0;
        let mut same = true;
        while k < needle.len()
            invariant
                hlen == hay@.len(),
                i <= last,
                last == hay@.len() - needle@.len(),
                k <= needle@.len(),
                same == (forall|m: int| 0 <= m < k ==> hay@[i + m] == needle@[m]),
            decreases needle@.len() - k,
        {
            if hay[i + k] != needle[k] {
                same = false;
            }
            k = k + 1;
        }
        if same {
            assert(hay@.subrange(i as int, i + needle@.len()) =~= needle@);
            assert(occurs_at(hay@, needle@, i as int));
            return true;
        }
        assert(!occurs_at(hay@, needle@, i as int)) by {
            if occurs_at(hay@, needle@, i as int) {
                let m = choose|m: int| 0 <= m < needle@.len() && hay@[i + m] != needle@[m];
                assert(hay@.subrange(i as int, i + needle@.len())[m] == hay@[i + m]);
            }
        }
        i = i + 1;
    }
    assert forall|j: int| !occurs_at(hay@, needle@, j) by {
        if 0 <= j < i {
        }
    }
    false
}

/// Whether the dynamic loader's error message reports an undefined symbol,
/// as opposed to another failure to load one.
pub fn is_undefined_symbol(message: &str) -> (r: bool)
    ensures
        r == has_infix(message.spec_bytes(), "undefined symbol".spec_bytes()),
{
    contains_bytes(message.as_bytes(), "undefined symbol".as_bytes())
}

/// The bytes of the symbol under which a module exports function `sym`.
pub fn export_symbol(sym: &[u8]) -> (r: Vec<u8>)
    ensures
        r@ == "guest_func_".spec_bytes() + sym@,
{
    let prefix = "guest_func_".as_bytes();
    let mut out: Vec<u8> = Vec::new();
    let mut i: usize = 0;
    while i < prefix.len()
        invariant
            i <= prefix@.len(),
            out@ == prefix@.subrange(0, i as int),
        decreases prefix@.len() - i,
    {
        out.push(prefix[i]);
        assert(out@ =~= prefix@.subrange(0, i + 1));
        i = i + 1;
    }
    let mut j: usize = 0;
    while j < sym.len()
        invariant
            i == prefix@.len(),
            j <= sym@.len(),
            out@ == prefix@ + sym@.subrange(0, j as int),
        decreases sym@.len() - j,
    {
        out.push(sym[j]);
        assert(out@ =~= prefix@ + sym@.subrange(0, j + 1));
        j = j + 1;
    }
    assert(prefix@.subrange(0, i as int) =~= prefix@);
    assert(sym@.subrange(0, j as int) =~= sym@);
    out
}

/// The length of a table segment, which must fit a 32-bit index.
pub fn table_segment_len(len: u64) -> (r: Result<usize, LoadError>)
    ensures
        len <= u32::MAX ==> r == Ok::<usize, LoadError>(len as usize),
        len > u32::MAX ==> r == Err::<usize, LoadError>(LoadError::TableTooLong(len)),
{
    if len > u32::MAX as u64 {
        Err(LoadError::TableTooLong(len))
    } else {
        Ok(len as usize)
    }
}

/// The element index of function `func_id` of table `table_id`, where the
/// module's only table, table 0, holds `table_len` elements.
pub fn table_func_index(table_id: u32, func_id: u32, table_len: usize) -> (r: Result<
    usize,
    LoadError,
>)
    ensures
        table_id == 0 && func_id < table_len ==> r == Ok::<usize, LoadError>(func_id as usize),
        table_id != 0 || func_id >= table_len ==> r == Err::<usize, LoadError>(
            LoadError::FuncNotFound(table_id, func_id),
        ),
{
    if table_id != 0 || func_id as usize >= table_len {
        Err(LoadError::FuncNotFound(table_id, func_id))
    } else {
        Ok(func_id as usize)
    }
}

/// The start function's pointer, from the address the dynamic linker gave
/// for `guest_start` (`None` where it is undefined): a module need not have
/// one, but a defined one must not be null.
pub fn start_function(found: Option<u64>) -> (r: Result<Option<u64>, LoadError>)
    ensures
        found is None ==> r == Ok::<Option<u64>, LoadError>(None),
        found == Some(0u64) ==> is_null(r, "guest_start"@),
        found is Some && found != Some(0u64) ==> r == Ok::<Option<u64>, LoadError>(found),
{
    match found {
        None => Ok(None),
        Some(a) => {
            if a == 0 {
                Err(LoadError::NullSymbol(String::from_str("guest_start")))
            } else {
                Ok(Some(a))
            }
        },
    }
}

} // verus!
