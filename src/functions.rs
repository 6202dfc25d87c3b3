//! The function manifest: where each compiled function stands in the image.

use vstd::bytes::*;
use vstd::prelude::*;
use vstd::slice::slice_subrange;

verus! {

/// Where a compiled function stands in the loaded image: its base address
/// and the byte length of its code.
#[derive(Copy, Clone, Debug, PartialEq, Eq, Structural)]
pub struct FunctionSpec {
    pub addr: u64,
    pub len: u32,
}

/// Whether `addr` lies in the function's range, both ends included.
pub open spec fn spec_contains(f: FunctionSpec, addr: int) -> bool {
    f.addr <= addr <= f.addr + f.len
}

impl FunctionSpec {
    pub fn new(addr: u64, len: u32) -> (r: FunctionSpec)
        ensures
            r.addr == addr,
            r.len == len,
    {
        FunctionSpec { addr, len }
    }

    /// Whether `addr` falls within this function: from its base address up
    /// to and including `addr + len`.
    pub fn contains(&self, addr: u64) -> (r: bool)
        ensures
            r == spec_contains(*self, addr as int),
    {
        addr >= self.addr && (addr - self.addr) <= (self.len as u64)
    }

    /// The offset of `addr` from the function's base, where `addr` falls
    /// within the function as `contains` decides it (the end included).
    pub fn relative_addr(&self, addr: u64) -> (r: Option<u32>)
        ensures
            r is Some <==> spec_contains(*self, addr as int),
            r matches Some(off) ==> off == addr - self.addr,
    {
        if let Some(offset) = addr.checked_sub(self.addr) {
            if offset <= (self.len as u64) {
                return Some(offset as u32);
            }
        }
        None
    }
}

/// The entry at index `i` of a function manifest's bytes: 16 bytes each, the
/// address as a 64-bit and the length as a 32-bit little-endian integer,
/// then 4 bytes of padding.
pub open spec fn manifest_entry(b: Seq<u8>, i: int) -> FunctionSpec {
    FunctionSpec {
        addr: spec_u64_from_le_bytes(b.subrange(16 * i, 16 * i + 8)),
        len: spec_u32_from_le_bytes(b.subrange(16 * i + 8, 16 * i + 12)),
    }
}

/// The function manifest that a byte buffer holds: `None` unless it is a
/// whole number of 16-byte entries.
pub open spec fn decode_manifest(b: Seq<u8>) -> Option<Seq<FunctionSpec>> {
    if b.len() % 16 == 0 {
        Some(Seq::new(b.len() / 16, |i: int| manifest_entry(b, i)))
    } else {
        None
    }
}

/// Reads the function manifest from the bytes of the loaded image.
pub fn decode_function_manifest(b: &[u8]) -> (r: Option<Vec<FunctionSpec>>)
    ensures
        r is Some <==> decode_manifest(b@) is Some,
        r matches Some(v) ==> decode_manifest(b@) == Some(v@),
{
    let len: usize = b.len();
    if len % 16 != 0 {
        return None;
    }
    let n: usize = len / 16;
    let mut out: Vec<FunctionSpec> = Vec::new();
    let mut i: usize = 0;
    while i < n
        invariant
            len == b@.len(),
            n == b@.len() / 16,
            i <= n,
            out@ == Seq::new(i as nat, |k: int| manifest_entry(b@, k)),
        decreases n - i,
    {
        assert(16 * i + 16 <= b@.len()) by (nonlinear_arith)
            requires
                i < n,
                n == b@.len() / 16,
        ;
        let chunk = slice_subrange(b, 16 * i, 16 * i + 16);
        assert(chunk@.subrange(0, 8) =~= b@.subrange(16 * i, 16 * i + 8));
        assert(chunk@.subrange(8, 12) =~= b@.subrange(16 * i + 8, 16 * i + 12));
        let addr = u64_from_le_bytes(slice_subrange(chunk, 0, 8));
        let flen = u32_from_le_bytes(slice_subrange(chunk, 8, 12));
        out.push(FunctionSpec { addr, len: flen });
        assert(out@ =~= Seq::new((i + 1) as nat, |k: int| manifest_entry(b@, k)));
        i = i + 1;
    }
    Some(out)
}

/// The 16 bytes of one function manifest entry, its padding zeroed.
pub open spec fn manifest_entry_bytes(f: FunctionSpec) -> Seq<u8> {
    spec_u64_to_le_bytes(f.addr) + spec_u32_to_le_bytes(f.len) + seq![0u8, 0u8, 0u8, 0u8]
}

/// The bytes of a function manifest, entries in index order.
pub open spec fn manifest_bytes(fs: Seq<FunctionSpec>) -> Seq<u8>
    decreases fs.len(),
{
    if fs.len() == 0 {
        Seq::empty()
    } else {
        manifest_bytes(fs.drop_last()) + manifest_entry_bytes(fs.last())
    }
}

/// A function manifest read back from its bytes is the same manifest.
pub proof fn lemma_manifest_round_trip(fs: Seq<FunctionSpec>)
    ensures
        manifest_bytes(fs).len() == 16 * fs.len(),
        decode_manifest(manifest_bytes(fs)) == Some(fs),
    decreases fs.len(),
{
    lemma_auto_spec_u64_to_from_le_bytes();
    lemma_auto_spec_u32_to_from_le_bytes();
    if fs.len() > 0 {
        let init = fs.drop_last();
        lemma_manifest_round_trip(init);
        let b = manifest_bytes(fs);
        let bi = manifest_bytes(init);
        let n = init.len() as int;
        let e = manifest_entry_bytes(fs.last());
        assert(b.len() == 16 * fs.len());
        assert(b.len() % 16 == 0 && b.len() / 16 == fs.len()) by (nonlinear_arith)
            requires
                b.len() == 16 * fs.len(),
        ;
        assert(bi.len() % 16 == 0 && bi.len() / 16 == init.len()) by (nonlinear_arith)
            requires
                bi.len() == 16 * init.len(),
        ;
        assert forall|i: int| 0 <= i < fs.len() implies #[trigger] manifest_entry(b, i) == fs[i] by {
            if i < n {
                assert(b.subrange(16 * i, 16 * i + 8) =~= bi.subrange(16 * i, 16 * i + 8));
                assert(b.subrange(16 * i + 8, 16 * i + 12) =~= bi.subrange(16 * i + 8, 16 * i + 12));
                assert(manifest_entry(bi, i) == Seq::new(bi.len() / 16, |k: int| manifest_entry(bi, k))[i]);
                assert(init[i] == fs[i]);
            } else {
                assert(b.subrange(16 * i, 16 * i + 8) =~= spec_u64_to_le_bytes(fs.last().addr));
                assert(b.subrange(16 * i + 8, 16 * i + 12) =~= spec_u32_to_le_bytes(fs.last().len));
            }
        }
        assert(Seq::new(b.len() / 16, |i: int| manifest_entry(b, i)) =~= fs);
    }
}

/// The bytes of a function manifest, as the compiler emits it before the
/// addresses are relocated.
pub fn encode_function_manifest(functions: &Vec<FunctionSpec>) -> (r: Vec<u8>)
    ensures
        r@ == manifest_bytes(functions@),
        decode_manifest(r@) == Some(functions@),
{
    let mut out: Vec<u8> = Vec::new();
    let mut i: usize = 0;
    while i < functions.len()
        invariant
            i <= functions@.len(),
            out@ == manifest_bytes(functions@.subrange(0, i as int)),
        decreases functions@.len() - i,
    {
        let f = functions[i];
        let mut addr = u64_to_le_bytes(f.addr);
        let mut len = u32_to_le_bytes(f.len);
        out.append(&mut addr);
        out.append(&mut len);
        out.push(0);
        out.push(0);
        out.push(0);
        out.push(0);
        proof {
            let next = functions@.subrange(0, i + 1);
            assert(next.drop_last() =~= functions@.subrange(0, i as int));
            assert(out@ =~= manifest_bytes(functions@.subrange(0, i as int)) + manifest_entry_bytes(f));
        }
        i = i + 1;
    }
    assert(functions@.subrange(0, i as int) =~= functions@);
    proof {
        lemma_manifest_round_trip(functions@);
    }
    out
}

} // verus!
