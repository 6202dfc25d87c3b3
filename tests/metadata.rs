use lucet_traps::{CodeMetadata, Error, TrapManifestRecord};

#[test]
fn empty_metadata_round_trips() {
    let cm = CodeMetadata::new(vec![]);
    let bytes = cm.serialize().expect("serializes");
    assert_eq!(bytes, vec![0u8; 8]);
    let back = CodeMetadata::deserialize(&bytes).expect("deserializes");
    assert!(back.trap_manifest.is_empty());
}

#[test]
fn metadata_bytes_layout() {
    let cm = CodeMetadata::new(vec![TrapManifestRecord {
        table_addr: 0x0102_0304_0506_0708,
        table_len: 3,
        func_index: 0x0A0B_0C0D,
    }]);
    let bytes = cm.serialize().unwrap();
    assert_eq!(
        bytes,
        vec![
            1, 0, 0, 0, 0, 0, 0, 0, //
            8, 7, 6, 5, 4, 3, 2, 1, //
            3, 0, 0, 0, 0, 0, 0, 0, //
            0x0D, 0x0C, 0x0B, 0x0A,
        ]
    );
}

#[test]
fn metadata_round_trip() {
    let records: Vec<TrapManifestRecord> = (0..20u32)
        .map(|i| TrapManifestRecord {
            table_addr: u64::from(i) * 0x1111,
            table_len: u64::from(i) + 1,
            func_index: i * 3,
        })
        .collect();
    let bytes = CodeMetadata::new(records.clone()).serialize().unwrap();
    assert_eq!(bytes.len(), 8 + 20 * records.len());
    let back = CodeMetadata::deserialize(&bytes).unwrap();
    assert_eq!(back.trap_manifest, records);
}

#[test]
fn metadata_trailing_bytes_ignored() {
    let mut bytes = CodeMetadata::new(vec![TrapManifestRecord { table_addr: 0, table_len: 1, func_index: 2 }])
        .serialize()
        .unwrap();
    bytes.extend_from_slice(&[0xFF, 0xFF]);
    let back = CodeMetadata::deserialize(&bytes).unwrap();
    assert_eq!(back.trap_manifest, vec![TrapManifestRecord { table_addr: 0, table_len: 1, func_index: 2 }]);
}

#[test]
fn metadata_truncated_is_error() {
    assert!(matches!(CodeMetadata::deserialize(&[]), Err(Error::DeserializationError(_))));
    assert!(matches!(CodeMetadata::deserialize(&[1, 0, 0]), Err(Error::DeserializationError(_))));
    // announces one record but holds only 19 of its 20 bytes
    let mut short = vec![1, 0, 0, 0, 0, 0, 0, 0];
    short.extend_from_slice(&[0u8; 19]);
    assert!(matches!(CodeMetadata::deserialize(&short), Err(Error::DeserializationError(_))));
    short.push(0);
    assert!(CodeMetadata::deserialize(&short).is_ok());
}
