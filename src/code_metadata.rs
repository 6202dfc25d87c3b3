//! The whole-module trap metadata container and its byte encoding.

use vstd::bytes::*;
use vstd::prelude::*;

use crate::traps::TrapManifestRecord;

verus! {

#[verifier::external_type_specification]
#[verifier::external_body]
pub struct ExBincodeErrorKind(bincode::ErrorKind);

/// The bytes of one record: `table_addr` and `table_len` as 64-bit and
/// `func_index` as 32-bit little-endian integers, in that order.
pub open spec fn record_bytes(r: TrapManifestRecord) -> Seq<u8> {
    spec_u64_to_le_bytes(r.table_addr) + spec_u64_to_le_bytes(r.table_len) + spec_u32_to_le_bytes(
        r.func_index,
    )
}

/// The record that 20 bytes encode.
pub open spec fn record_from_bytes(b: Seq<u8>) -> TrapManifestRecord {
    TrapManifestRecord {
        table_addr: spec_u64_from_le_bytes(b.subrange(0, 8)),
        table_len: spec_u64_from_le_bytes(b.subrange(8, 16)),
        func_index: spec_u32_from_le_bytes(b.subrange(16, 20)),
    }
}

/// The records encoded one after another.
pub open spec fn records_bytes(rs: Seq<TrapManifestRecord>) -> Seq<u8>
    decreases rs.len(),
{
    if rs.len() == 0 {
        Seq::empty()
    } else {
        records_bytes(rs.drop_last()) + record_bytes(rs.last())
    }
}

/// The encoding of code metadata: the record count as a 64-bit
/// little-endian integer, then the records.
pub open spec fn encode_code_metadata(rs: Seq<TrapManifestRecord>) -> Seq<u8> {
    spec_u64_to_le_bytes(rs.len() as u64) + records_bytes(rs)
}

/// The record count that a buffer announces.
pub open spec fn announced_count(b: Seq<u8>) -> int {
    spec_u64_from_le_bytes(b.subrange(0, 8)) as int
}

/// The records a buffer holds: `None` where it is shorter than its count
/// announces. Bytes after the last record are ignored.
pub open spec fn decode_code_metadata(b: Seq<u8>) -> Option<Seq<TrapManifestRecord>> {
    if b.len() >= 8 && b.len() - 8 >= 20 * announced_count(b) {
        Some(
            Seq::new(
                announced_count(b) as nat,
                |i: int| record_from_bytes(b.subrange(8 + 20 * i, 28 + 20 * i)),
            ),
        )
    } else {
        None
    }
}

/// One record's bytes are 20 long and decode to the record.
pub proof fn lemma_record_round_trip(r: TrapManifestRecord)
    ensures
        record_bytes(r).len() == 20,
        record_from_bytes(record_bytes(r)) == r,
{
    lemma_auto_spec_u64_to_from_le_bytes();
    lemma_auto_spec_u32_to_from_le_bytes();
    let b = record_bytes(r);
    assert(b.subrange(0, 8) =~= spec_u64_to_le_bytes(r.table_addr));
    assert(b.subrange(8, 16) =~= spec_u64_to_le_bytes(r.table_len));
    assert(b.subrange(16, 20) =~= spec_u32_to_le_bytes(r.func_index));
}

/// The encoding of a record sequence is 20 bytes per record, record `i`
/// at bytes `20 * i` to `20 * i + 20`.
pub proof fn lemma_records_bytes_layout(rs: Seq<TrapManifestRecord>)
    ensures
        records_bytes(rs).len() == 20 * rs.len(),
        forall|i: int|
            0 <= i < rs.len() ==> #[trigger] records_bytes(rs).subrange(20 * i, 20 * i + 20)
                == record_bytes(rs[i]),
    decreases rs.len(),
{
    if rs.len() > 0 {
        let init = rs.drop_last();
        lemma_records_bytes_layout(init);
        lemma_record_round_trip(rs.last());
        let b = records_bytes(rs);
        assert forall|i: int| 0 <= i < rs.len() implies #[trigger] b.subrange(20 * i, 20 * i + 20)
            == record_bytes(rs[i]) by {
            if i < init.len() {
                assert(b.subrange(20 * i, 20 * i + 20) =~= records_bytes(init).subrange(
                    20 * i,
                    20 * i + 20,
                ));
                assert(init[i] == rs[i]);
            } else {
                assert(b.subrange(20 * i, 20 * i + 20) =~= record_bytes(rs.last()));
            }
        }
    }
}

/// Decoding the encoding of any record sequence gives the sequence back.
pub proof fn lemma_code_metadata_round_trip(rs: Seq<TrapManifestRecord>)
    requires
        rs.len() <= u64::MAX,
    ensures
        decode_code_metadata(encode_code_metadata(rs)) == Some(rs),
{
    lemma_auto_spec_u64_to_from_le_bytes();
    lemma_records_bytes_layout(rs);
    let n = rs.len() as u64;
    let b = encode_code_metadata(rs);
    let body = records_bytes(rs);
    assert(b.subrange(0, 8) =~= spec_u64_to_le_bytes(n));
    assert(announced_count(b) == rs.len());
    let d = Seq::new(
        announced_count(b) as nat,
        |i: int| record_from_bytes(b.subrange(8 + 20 * i, 28 + 20 * i)),
    );
    assert forall|i: int| 0 <= i < rs.len() implies d[i] == rs[i] by {
        assert(b.subrange(8 + 20 * i, 28 + 20 * i) =~= body.subrange(20 * i, 20 * i + 20));
        lemma_record_round_trip(rs[i]);
    }
    assert(d =~= rs);
}

/// Relies on bincode::serialize (fixed-width little-endian integers, a
/// sequence prefixed by its length as a u64) on a vector of
/// `(u64, u64, u32)` tuples, one per record. It cannot fail here: the
/// vector's length is known, the size limit is infinite, and writing into a
/// `Vec<u8>` does not fail.
#[verifier::external_body]
fn bincode_serialize_records(records: &Vec<TrapManifestRecord>) -> (r: Result<
    Vec<u8>,
    Box<bincode::ErrorKind>,
>)
    ensures
        r is Ok,
        r matches Ok(b) ==> b@ == encode_code_metadata(records@),
{
    let tuples: Vec<(u64, u64, u32)> = records.iter().map(
        |r| (r.table_addr, r.table_len, r.func_index),
    ).collect();
    bincode::serialize(&tuples)
}

/// Relies on bincode::deserialize of a vector of `(u64, u64, u32)` tuples:
/// it reads the u64 length and then each tuple's fixed-width little-endian
/// fields, fails where the slice ends early, and allows trailing bytes.
#[verifier::external_body]
fn bincode_deserialize_records(buf: &[u8]) -> (r: Result<
    Vec<TrapManifestRecord>,
    Box<bincode::ErrorKind>,
>)
    ensures
        r is Ok <==> decode_code_metadata(buf@) is Some,
        r matches Ok(v) ==> decode_code_metadata(buf@) == Some(v@),
{
    let tuples: Vec<(u64, u64, u32)> = bincode::deserialize(buf)?;
    Ok(
        tuples.into_iter().map(
            |t| TrapManifestRecord { table_addr: t.0, table_len: t.1, func_index: t.2 },
        ).collect(),
    )
}

/// Errors of encoding and decoding code metadata.
#[derive(Debug)]
pub enum Error {
    SerializationError(Box<bincode::ErrorKind>),
    DeserializationError(Box<bincode::ErrorKind>),
}

/// The trap metadata of a whole module: one record per function that has
/// trap sites.
#[derive(Debug)]
pub struct CodeMetadata {
    pub trap_manifest: Vec<TrapManifestRecord>,
}

impl CodeMetadata {
    pub fn new(trap_manifest: Vec<TrapManifestRecord>) -> (r: CodeMetadata)
        ensures
            r.trap_manifest@ == trap_manifest@,
    {
        CodeMetadata { trap_manifest }
    }

    /// Encodes the records. It always succeeds, with exactly their encoding.
    pub fn serialize(&self) -> (r: Result<Vec<u8>, Error>)
        ensures
            r is Ok,
            r matches Ok(b) ==> b@ == encode_code_metadata(self.trap_manifest@),
    {
        match bincode_serialize_records(&self.trap_manifest) {
            Ok(b) => Ok(b),
            Err(e) => Err(Error::SerializationError(e)),
        }
    }

    /// Decodes code metadata from `buf`; fails exactly where `buf` is
    /// shorter than the records it announces.
    pub fn deserialize(buf: &[u8]) -> (r: Result<CodeMetadata, Error>)
        ensures
            r is Ok <==> decode_code_metadata(buf@) is Some,
            r matches Ok(m) ==> decode_code_metadata(buf@) == Some(m.trap_manifest@),
            r matches Err(e) ==> e is DeserializationError,
    {
        match bincode_deserialize_records(buf) {
            Ok(v) => Ok(CodeMetadata { trap_manifest: v }),
            Err(e) => Err(Error::DeserializationError(e)),
        }
    }
}

} // verus!
