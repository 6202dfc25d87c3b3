//! The byte layout of a function's trap table in the compiled image.

use vstd::bytes::*;
use vstd::prelude::*;
use vstd::slice::slice_subrange;

use crate::traps::{sites_sorted, trap_code_number, trap_code_of_number, TrapCode, TrapSite};

verus! {

/// The bytes of one trap site as it stands in a trap table: its offset and
/// its trap code's number, each a 32-bit little-endian integer.
pub open spec fn site_bytes(s: TrapSite) -> Seq<u8> {
    spec_u32_to_le_bytes(s.offset) + spec_u32_to_le_bytes(trap_code_number(s.code))
}

/// The trap sites of a table laid out one after another.
pub open spec fn sites_bytes(sites: Seq<TrapSite>) -> Seq<u8>
    decreases sites.len(),
{
    if sites.len() == 0 {
        Seq::empty()
    } else {
        sites_bytes(sites.drop_last()) + site_bytes(sites.last())
    }
}

/// The trap site that 8 bytes encode, or `None` where the code is unknown.
pub open spec fn site_from_bytes(b: Seq<u8>) -> Option<TrapSite> {
    match trap_code_of_number(spec_u32_from_le_bytes(b.subrange(4, 8))) {
        Some(c) => Some(TrapSite { offset: spec_u32_from_le_bytes(b.subrange(0, 4)), code: c }),
        None => None,
    }
}

/// The sites that the 8-byte entry at index `i` of `b` encodes.
pub open spec fn entry(b: Seq<u8>, i: int) -> Option<TrapSite> {
    site_from_bytes(b.subrange(8 * i, 8 * i + 8))
}

/// The table that a byte buffer holds: `None` unless it is a whole number
/// of entries, every code is known, and the offsets strictly ascend.
pub open spec fn decode_trap_sites(b: Seq<u8>) -> Option<Seq<TrapSite>> {
    let n = b.len() / 8;
    let sites = Seq::new(n, |i: int| entry(b, i)->Some_0);
    if b.len() % 8 == 0 && (forall|i: int| 0 <= i < n ==> #[trigger] entry(b, i) is Some)
        && sites_sorted(sites) {
        Some(sites)
    } else {
        None
    }
}

/// One site's bytes are 8 long and decode to the site.
pub proof fn lemma_site_round_trip(s: TrapSite)
    ensures
        site_bytes(s).len() == 8,
        site_from_bytes(site_bytes(s)) == Some(s),
{
    lemma_auto_spec_u32_to_from_le_bytes();
    let b = site_bytes(s);
    assert(b.subrange(0, 4) =~= spec_u32_to_le_bytes(s.offset));
    assert(b.subrange(4, 8) =~= spec_u32_to_le_bytes(trap_code_number(s.code)));
}

/// The layout of a table: 8 bytes per site, site `i` at bytes `8 * i` to
/// `8 * i + 8`.
pub proof fn lemma_sites_bytes_layout(sites: Seq<TrapSite>)
    ensures
        sites_bytes(sites).len() == 8 * sites.len(),
        forall|i: int|
            0 <= i < sites.len() ==> #[trigger] sites_bytes(sites).subrange(8 * i, 8 * i + 8)
                == site_bytes(sites[i]),
    decreases sites.len(),
{
    if sites.len() > 0 {
        let init = sites.drop_last();
        lemma_sites_bytes_layout(init);
        lemma_site_round_trip(sites.last());
        let b = sites_bytes(sites);
        assert forall|i: int| 0 <= i < sites.len() implies #[trigger] b.subrange(8 * i, 8 * i + 8)
            == site_bytes(sites[i]) by {
            if i < init.len() {
                assert(b.subrange(8 * i, 8 * i + 8) =~= sites_bytes(init).subrange(
                    8 * i,
                    8 * i + 8,
                ));
                assert(init[i] == sites[i]);
            } else {
                assert(b.subrange(8 * i, 8 * i + 8) =~= site_bytes(sites.last()));
            }
        }
    }
}

/// A sorted table read back from its bytes is the same table.
pub proof fn lemma_trap_sites_round_trip(sites: Seq<TrapSite>)
    requires
        sites_sorted(sites),
    ensures
        decode_trap_sites(sites_bytes(sites)) == Some(sites),
{
    lemma_sites_bytes_layout(sites);
    let b = sites_bytes(sites);
    assert(b.len() / 8 == sites.len()) by (nonlinear_arith)
        requires
            b.len() == 8 * sites.len(),
    ;
    assert(b.len() % 8 == 0) by (nonlinear_arith)
        requires
            b.len() == 8 * sites.len(),
    ;
    assert forall|i: int| 0 <= i < sites.len() implies #[trigger] entry(b, i) == Some(sites[i]) by {
        lemma_site_round_trip(sites[i]);
    }
    let d = Seq::new(b.len() / 8, |i: int| entry(b, i)->Some_0);
    assert(d =~= sites);
}

/// The bytes of a trap table, as the compiler emits it.
pub fn encode_trap_sites(sites: &Vec<TrapSite>) -> (r: Vec<u8>)
    ensures
        r@ == sites_bytes(sites@),
{
    let mut out: Vec<u8> = Vec::new();
    let mut i: usize = 0;
    while i < sites.len()
        invariant
            i <= sites@.len(),
            out@ == sites_bytes(sites@.subrange(0, i as int)),
        decreases sites@.len() - i,
    {
        let site = sites[i];
        let mut off = u32_to_le_bytes(site.offset);
        let mut code = u32_to_le_bytes(site.code.to_u32());
        out.append(&mut off);
        out.append(&mut code);
        proof {
            let next = sites@.subrange(0, i + 1);
            assert(next.drop_last() =~= sites@.subrange(0, i as int));
        }
        i = i + 1;
    }
    assert(sites@.subrange(0, sites@.len() as int) =~= sites@);
    out
}

/// Reads a trap table from its bytes, checking that they hold a whole number
/// of entries with known codes in strictly ascending offset order.
pub fn decode_trap_table(b: &[u8]) -> (r: Option<Vec<TrapSite>>)
    ensures
        r is Some <==> decode_trap_sites(b@) is Some,
        r matches Some(v) ==> decode_trap_sites(b@) == Some(v@),
{
    if b.len() % 8 != 0 {
        return None;
    }
    let len: usize = b.len();
    let n: usize = len / 8;
    let ghost sites = Seq::new(n as nat, |i: int| entry(b@, i)->Some_0);
    let mut out: Vec<TrapSite> = Vec::new();
    let mut i: usize = 0;
    while i < n
        invariant
            len == b@.len(),
            n == b@.len() / 8,
            b@.len() % 8 == 0,
            i <= n,
            sites == Seq::new(n as nat, |i: int| entry(b@, i)->Some_0),
            forall|k: int| 0 <= k < i ==> #[trigger] entry(b@, k) is Some,
            out@ == sites.subrange(0, i as int),
            sites_sorted(out@),
        decreases n - i,
    {
        assert(8 * i + 8 <= b@.len()) by (nonlinear_arith)
            requires
                i < n,
                n == b@.len() / 8,
        ;
        let chunk = slice_subrange(b, 8 * i, 8 * i + 8);
        assert(chunk@.subrange(0, 4) =~= b@.subrange(8 * i, 8 * i + 8).subrange(0, 4));
        assert(chunk@.subrange(4, 8) =~= b@.subrange(8 * i, 8 * i + 8).subrange(4, 8));
        let offset = u32_from_le_bytes(slice_subrange(chunk, 0, 4));
        let number = u32_from_le_bytes(slice_subrange(chunk, 4, 8));
        assert(chunk@ == b@.subrange(8 * i, 8 * i + 8));
        match TrapCode::try_from_u32(number) {
            None => {
                assert(entry(b@, i as int) is None);
                return None;
            },
            Some(code) => {
                assert(entry(b@, i as int) == Some(TrapSite { offset, code }));
                assert(sites[i as int] == TrapSite { offset, code });
                if i > 0 && out[i - 1].offset >= offset {
                    assert(sites[i - 1] == out@[i - 1]);
                    assert(sites[i - 1].offset >= sites[i as int].offset);
                    assert(!sites_sorted(sites));
                    return None;
                }
                out.push(TrapSite { offset, code });
                assert(out@ =~= sites.subrange(0, i + 1));
            },
        }
        i = i + 1;
    }
    assert(out@ =~= sites);
    Some(out)
}

} // verus!
