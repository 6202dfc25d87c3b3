//! The compiler side: trap tables and code metadata for the output artifact.

use vstd::bytes::*;
use vstd::prelude::*;
use vstd::string::*;

use crate::code_metadata::{encode_code_metadata, CodeMetadata};
use crate::functions::FunctionSpec;
use crate::layout::{decode_trap_sites, encode_trap_sites, lemma_trap_sites_round_trip, sites_bytes};
use crate::traps::{sites_sorted, TrapCode, TrapManifestRecord, TrapSite};

verus! {

/// The trap reasons a code generator attaches to the instructions it emits.
/// `User` reasons are defined by the embedder and have no trap code.
#[derive(Copy, Clone, Debug, PartialEq, Eq, Structural)]
pub enum CompilerTrapCode {
    StackOverflow,
    HeapOutOfBounds,
    OutOfBounds,
    IndirectCallToNull,
    BadSignature,
    IntegerOverflow,
    IntegerDivisionByZero,
    BadConversionToInteger,
    Interrupt,
    TableOutOfBounds,
    UnreachableCodeReached,
    User(u16),
}

/// The trap code of a code generator's trap reason; `None` for `User`.
pub open spec fn spec_translate(code: CompilerTrapCode) -> Option<TrapCode> {
    match code {
        CompilerTrapCode::StackOverflow => Some(TrapCode::StackOverflow),
        CompilerTrapCode::HeapOutOfBounds => Some(TrapCode::HeapOutOfBounds),
        CompilerTrapCode::OutOfBounds => Some(TrapCode::OutOfBounds),
        CompilerTrapCode::IndirectCallToNull => Some(TrapCode::IndirectCallToNull),
        CompilerTrapCode::BadSignature => Some(TrapCode::BadSignature),
        CompilerTrapCode::IntegerOverflow => Some(TrapCode::IntegerOverflow),
        CompilerTrapCode::IntegerDivisionByZero => Some(TrapCode::IntegerDivByZero),
        CompilerTrapCode::BadConversionToInteger => Some(TrapCode::BadConversionToInteger),
        CompilerTrapCode::Interrupt => Some(TrapCode::Interrupt),
        CompilerTrapCode::TableOutOfBounds => Some(TrapCode::TableOutOfBounds),
        CompilerTrapCode::UnreachableCodeReached => Some(TrapCode::Unreachable),
        CompilerTrapCode::User(_) => None,
    }
}

/// Translates a code generator's trap reason into a trap code. A `User`
/// reason has none: meeting one means the code generator is broken, so it
/// is not admitted.
pub fn translate_trapcode(code: CompilerTrapCode) -> (r: TrapCode)
    requires
        !(code is User),
    ensures
        spec_translate(code) == Some(r),
{
    match code {
        CompilerTrapCode::StackOverflow => TrapCode::StackOverflow,
        CompilerTrapCode::HeapOutOfBounds => TrapCode::HeapOutOfBounds,
        CompilerTrapCode::OutOfBounds => TrapCode::OutOfBounds,
        CompilerTrapCode::IndirectCallToNull => TrapCode::IndirectCallToNull,
        CompilerTrapCode::BadSignature => TrapCode::BadSignature,
        CompilerTrapCode::IntegerOverflow => TrapCode::IntegerOverflow,
        CompilerTrapCode::IntegerDivisionByZero => TrapCode::IntegerDivByZero,
        CompilerTrapCode::BadConversionToInteger => TrapCode::BadConversionToInteger,
        CompilerTrapCode::Interrupt => TrapCode::Interrupt,
        CompilerTrapCode::TableOutOfBounds => TrapCode::TableOutOfBounds,
        CompilerTrapCode::UnreachableCodeReached => TrapCode::Unreachable,
        CompilerTrapCode::User(_) => vstd::pervasive::unreached(),
    }
}

/// The name of the symbol that holds the trap table of function `name`.
pub open spec fn trap_symbol(name: Seq<char>) -> Seq<char> {
    "lucet_trap_table_"@ + name
}

/// The symbol name of the trap table of the function named `sym`.
pub fn trap_sym_for_func(sym: &str) -> (r: String)
    ensures
        r@ == trap_symbol(sym@),
{
    let mut s = String::from_str("lucet_trap_table_");
    s.append(sym);
    s
}

/// A fault site as the code generator reports it: an offset within the
/// function and the trap reason.
#[derive(Copy, Clone, Debug, PartialEq, Eq, Structural)]
pub struct SinkSite {
    pub offset: u32,
    pub code: CompilerTrapCode,
}

/// The fault sites the code generator reports for one function, named by
/// the function's symbol.
#[derive(Debug)]
pub struct TrapSink {
    pub name: String,
    pub sites: Vec<SinkSite>,
}

/// A trap table to define in the output artifact under `symbol`.
#[derive(Debug)]
pub struct TrapTableBlob {
    pub symbol: String,
    pub bytes: Vec<u8>,
}

/// Why trap tables or code metadata could not be written.
#[derive(Debug)]
pub enum WriteError {
    /// The fault sites of the named function are not in strictly ascending
    /// offset order.
    UnsortedTrapSites(String),
    /// The serialized code metadata is longer than a 32-bit length can say.
    MetadataTooLarge,
}

/// Whether some function of the list is named `name`.
pub open spec fn has_function(functions: Seq<(String, FunctionSpec)>, name: Seq<char>) -> bool {
    exists|i: int| 0 <= i < functions.len() && (#[trigger] functions[i]).0@ == name
}

/// Whether `i` is the first index of a function named `name`.
pub open spec fn is_first_index(functions: Seq<(String, FunctionSpec)>, name: Seq<char>, i: int) -> bool {
    &&& 0 <= i < functions.len()
    &&& functions[i].0@ == name
    &&& forall|j: int| 0 <= j < i ==> (#[trigger] functions[j]).0@ != name
}

/// The trap sites of a sink, each reason translated to its trap code.
pub open spec fn translated_sites(sites: Seq<SinkSite>) -> Seq<TrapSite> {
    Seq::new(
        sites.len(),
        |i: int| TrapSite { offset: sites[i].offset, code: spec_translate(sites[i].code)->Some_0 },
    )
}

/// Whether some site of a sink carries a `User` reason.
pub open spec fn has_user_code(sites: Seq<SinkSite>) -> bool {
    exists|j: int| 0 <= j < sites.len() && spec_translate((#[trigger] sites[j]).code) is None
}

/// Whether a sink's sites are fit to emit: in strictly ascending offset
/// order once translated.
pub open spec fn sink_sorted(sink: TrapSink) -> bool {
    sites_sorted(translated_sites(sink.sites@))
}

/// The sinks that get a trap table and a manifest record: those with at
/// least one site, in their order.
pub open spec fn emitted_sinks(sinks: Seq<TrapSink>) -> Seq<TrapSink>
    decreases sinks.len(),
{
    if sinks.len() == 0 {
        Seq::empty()
    } else if sinks.last().sites@.len() > 0 {
        emitted_sinks(sinks.drop_last()).push(sinks.last())
    } else {
        emitted_sinks(sinks.drop_last())
    }
}

/// The record and table emitted for a sink.
pub open spec fn emitted_for(
    functions: Seq<(String, FunctionSpec)>,
    sink: TrapSink,
    record: TrapManifestRecord,
    blob: TrapTableBlob,
) -> bool {
    &&& record.table_addr == 0
    &&& record.table_len == sink.sites@.len()
    &&& record.table_len >= 1
    &&& is_first_index(functions, sink.name@, record.func_index as int)
    &&& blob.symbol@ == trap_symbol(sink.name@)
    &&& sites_sorted(translated_sites(sink.sites@))
    &&& blob.bytes@ == sites_bytes(translated_sites(sink.sites@))
}

/// The first index of the function named `name`, or `None`.
fn find_function(functions: &Vec<(String, FunctionSpec)>, name: &String) -> (r: Option<usize>)
    ensures
        r is None <==> !has_function(functions@, name@),
        r matches Some(i) ==> is_first_index(functions@, name@, i as int),
{
    let mut i: usize = 0;
    while i < functions.len()
        invariant
            i <= functions@.len(),
            forall|j: int| 0 <= j < i ==> (#[trigger] functions@[j]).0@ != name@,
        decreases functions@.len() - i,
    {
        if functions[i].0 == *name {
            return Some(i);
        }
        i = i + 1;
    }
    None
}

/// The sites with their reasons translated.
fn translate_sites(sites: &Vec<SinkSite>) -> (r: Vec<TrapSite>)
    requires
        !has_user_code(sites@),
    ensures
        r@ == translated_sites(sites@),
{
    let mut out: Vec<TrapSite> = Vec::new();
    let mut i: usize = 0;
    while i < sites.len()
        invariant
            i <= sites@.len(),
            !has_user_code(sites@),
            out@ == translated_sites(sites@).subrange(0, i as int),
        decreases sites@.len() - i,
    {
        let site = sites[i];
        assert(spec_translate(sites@[i as int].code) is Some);
        let code = translate_trapcode(site.code);
        out.push(TrapSite { offset: site.offset, code });
        assert(out@ =~= translated_sites(sites@).subrange(0, i + 1));
        i = i + 1;
    }
    assert(out@ =~= translated_sites(sites@));
    out
}

/// Whether the offsets of a table strictly ascend.
pub fn sites_in_order(sites: &Vec<TrapSite>) -> (r: bool)
    ensures
        r == sites_sorted(sites@),
{
    if sites.len() == 0 {
        return true;
    }
    let mut i: usize = 1;
    while i < sites.len()
        invariant
            1 <= i <= sites@.len(),
            forall|a: int, b: int| 0 <= a < b < i ==> sites@[a].offset < sites@[b].offset,
        decreases sites@.len() - i,
    {
        if sites[i - 1].offset >= sites[i].offset {
            return false;
        }
        i = i + 1;
    }
    true
}

/// Builds, for every sink with at least one site, in order, its trap
/// manifest record (table address zero, to be fixed up at load time; the
/// sink's site count; the first index of its function) and its trap table
/// under the function's trap-table symbol. Sinks without sites get neither.
/// Fails at the first such sink whose sites are not in strictly ascending
/// offset order.
pub fn write_trap_tables(sinks: &Vec<TrapSink>, functions: &Vec<(String, FunctionSpec)>) -> (r:
    Result<(Vec<TrapManifestRecord>, Vec<TrapTableBlob>), WriteError>)
    requires
        functions@.len() <= u32::MAX,
        forall|k: int| 0 <= k < sinks@.len() ==> has_function(functions@, (#[trigger] sinks@[k]).name@),
        forall|k: int| 0 <= k < sinks@.len() ==> !has_user_code((#[trigger] sinks@[k]).sites@),
    ensures
        r is Ok <==> forall|k: int|
            0 <= k < emitted_sinks(sinks@).len() ==> sink_sorted(#[trigger] emitted_sinks(sinks@)[k]),
        r matches Err(e) ==> exists|k: int|
            0 <= k < emitted_sinks(sinks@).len() && !sink_sorted(
                #[trigger] emitted_sinks(sinks@)[k],
            ) && e == WriteError::UnsortedTrapSites(emitted_sinks(sinks@)[k].name) && forall|j: int|
                0 <= j < k ==> sink_sorted(#[trigger] emitted_sinks(sinks@)[j]),
        r matches Ok((records, blobs)) ==> {
            &&& records@.len() == emitted_sinks(sinks@).len()
            &&& blobs@.len() == emitted_sinks(sinks@).len()
            &&& forall|k: int|
                0 <= k < records@.len() ==> emitted_for(
                    functions@,
                    emitted_sinks(sinks@)[k],
                    #[trigger] records@[k],
                    blobs@[k],
                )
        },
{
    let mut records: Vec<TrapManifestRecord> = Vec::new();
    let mut blobs: Vec<TrapTableBlob> = Vec::new();
    let mut k: usize = 0;
    while k < sinks.len()
        invariant
            functions@.len() <= u32::MAX,
            forall|j: int| 0 <= j < sinks@.len() ==> has_function(functions@, (#[trigger] sinks@[j]).name@),
            forall|j: int| 0 <= j < sinks@.len() ==> !has_user_code((#[trigger] sinks@[j]).sites@),
            k <= sinks@.len(),
            records@.len() == emitted_sinks(sinks@.subrange(0, k as int)).len(),
            blobs@.len() == records@.len(),
            forall|j: int|
                0 <= j < records@.len() ==> sink_sorted(
                    #[trigger] emitted_sinks(sinks@.subrange(0, k as int))[j],
                ),
            forall|j: int|
                0 <= j < records@.len() ==> emitted_for(
                    functions@,
                    emitted_sinks(sinks@.subrange(0, k as int))[j],
                    #[trigger] records@[j],
                    blobs@[j],
                ),
        decreases sinks@.len() - k,
    {
        let ghost before = emitted_sinks(sinks@.subrange(0, k as int));
        assert(sinks@.subrange(0, k + 1).drop_last() =~= sinks@.subrange(0, k as int));
        assert(sinks@.subrange(0, k + 1).last() == sinks@[k as int]);
        let sink = &sinks[k];
        if sink.sites.len() > 0 {
            assert(emitted_sinks(sinks@.subrange(0, k + 1)) == before.push(sinks@[k as int]));
            let func_index = match find_function(functions, &sink.name) {
                Some(i) => i,
                None => {
                    assert(has_function(functions@, sinks@[k as int].name@));
                    vstd::pervasive::unreached()
                },
            };
            let traps = translate_sites(&sink.sites);
            if !sites_in_order(&traps) {
                proof {
                    lemma_emitted_prefix(sinks@, k + 1);
                    assert(emitted_sinks(sinks@)[before.len() as int] == sinks@[k as int]);
                    assert forall|j: int| 0 <= j < before.len() implies sink_sorted(
                        #[trigger] emitted_sinks(sinks@)[j],
                    ) by {
                        assert(emitted_sinks(sinks@)[j] == before[j]);
                    }
                }
                return Err(WriteError::UnsortedTrapSites(sink.name.clone()));
            }
            records.push(
                TrapManifestRecord {
                    table_addr: 0,
                    table_len: sink.sites.len() as u64,
                    func_index: func_index as u32,
                },
            );
            blobs.push(
                TrapTableBlob {
                    symbol: trap_sym_for_func(sink.name.as_str()),
                    bytes: encode_trap_sites(&traps),
                },
            );
        } else {
            assert(emitted_sinks(sinks@.subrange(0, k + 1)) == before);
        }
        k = k + 1;
    }
    assert(sinks@.subrange(0, k as int) =~= sinks@);
    Ok((records, blobs))
}

/// The sinks emitted from a prefix of the sinks are a prefix of those
/// emitted from all of them.
proof fn lemma_emitted_prefix(sinks: Seq<TrapSink>, n: int)
    requires
        0 <= n <= sinks.len(),
    ensures
        emitted_sinks(sinks.subrange(0, n)).len() <= emitted_sinks(sinks).len(),
        forall|j: int|
            0 <= j < emitted_sinks(sinks.subrange(0, n)).len() ==> #[trigger] emitted_sinks(sinks)[j]
                == emitted_sinks(sinks.subrange(0, n))[j],
    decreases sinks.len() - n,
{
    if n < sinks.len() {
        lemma_emitted_prefix(sinks, n + 1);
        assert(sinks.subrange(0, n + 1).drop_last() =~= sinks.subrange(0, n));
    } else {
        assert(sinks.subrange(0, n) =~= sinks);
    }
}

/// The two blobs that carry code metadata in the output artifact: its
/// serialized bytes and their count as a 32-bit little-endian integer.
#[derive(Debug)]
pub struct MetadataBlobs {
    pub len_bytes: Vec<u8>,
    pub data: Vec<u8>,
}

/// Serializes the code metadata and its length for the output artifact.
/// It fails only where the encoding is too long for its 32-bit length.
pub fn write_code_metadata(code_metadata: &CodeMetadata) -> (r: Result<MetadataBlobs, WriteError>)
    ensures
        r is Ok <==> encode_code_metadata(code_metadata.trap_manifest@).len() <= u32::MAX,
        r matches Ok(m) ==> {
            &&& m.data@ == encode_code_metadata(code_metadata.trap_manifest@)
            &&& m.len_bytes@ == spec_u32_to_le_bytes(m.data@.len() as u32)
        },
        r matches Err(e) ==> e is MetadataTooLarge,
{
    let data = match code_metadata.serialize() {
        Ok(b) => b,
        Err(_) => vstd::pervasive::unreached(),
    };
    if data.len() > u32::MAX as usize {
        return Err(WriteError::MetadataTooLarge);
    }
    let len_bytes = u32_to_le_bytes(data.len() as u32);
    Ok(MetadataBlobs { len_bytes, data })
}

/// The trap table written for a sink whose sites are in order reads back,
/// through the loader's checked decoding, as exactly its translated sites.
pub proof fn lemma_emitted_table_reads_back(sink: TrapSink)
    requires
        sink_sorted(sink),
    ensures
        sites_sorted(translated_sites(sink.sites@)),
        decode_trap_sites(sites_bytes(translated_sites(sink.sites@))) == Some(
            translated_sites(sink.sites@),
        ),
{
    lemma_trap_sites_round_trip(translated_sites(sink.sites@));
}

} // verus!
