use lucet_traps::{
    trap_sym_for_func, translate_trapcode, write_code_metadata, write_trap_tables, CodeMetadata,
    CompilerTrapCode, FunctionSpec, SinkSite, TrapCode, TrapManifestRecord, TrapSink, WriteError,
};

fn functions() -> Vec<(String, FunctionSpec)> {
    vec![
        ("guest_func_f0".to_string(), FunctionSpec::new(0x800, 0x100)),
        ("guest_func_f1".to_string(), FunctionSpec::new(0x1000, 0x40)),
    ]
}

fn sink(name: &str, sites: Vec<(u32, CompilerTrapCode)>) -> TrapSink {
    TrapSink {
        name: name.to_string(),
        sites: sites.into_iter().map(|(offset, code)| SinkSite { offset, code }).collect(),
    }
}

#[test]
fn trap_symbol_names() {
    assert_eq!(trap_sym_for_func("guest_func_f1"), "lucet_trap_table_guest_func_f1");
    assert_eq!(trap_sym_for_func(""), "lucet_trap_table_");
}

#[test]
fn translate_compiler_codes() {
    assert_eq!(translate_trapcode(CompilerTrapCode::IntegerDivisionByZero), TrapCode::IntegerDivByZero);
    assert_eq!(translate_trapcode(CompilerTrapCode::UnreachableCodeReached), TrapCode::Unreachable);
    assert_eq!(translate_trapcode(CompilerTrapCode::StackOverflow), TrapCode::StackOverflow);
    assert_eq!(translate_trapcode(CompilerTrapCode::TableOutOfBounds), TrapCode::TableOutOfBounds);
}

#[test]
fn writes_records_and_tables() {
    let sinks = vec![sink(
        "guest_func_f1",
        vec![(0x10, CompilerTrapCode::HeapOutOfBounds), (0x30, CompilerTrapCode::IntegerDivisionByZero)],
    )];
    let (records, blobs) = write_trap_tables(&sinks, &functions()).expect("writes");
    assert_eq!(records, vec![TrapManifestRecord { table_addr: 0, table_len: 2, func_index: 1 }]);
    assert_eq!(blobs.len(), 1);
    assert_eq!(blobs[0].symbol, "lucet_trap_table_guest_func_f1");
    assert_eq!(blobs[0].bytes, vec![0x10, 0, 0, 0, 1, 0, 0, 0, 0x30, 0, 0, 0, 6, 0, 0, 0]);
}

#[test]
fn writes_nothing_for_no_sinks() {
    let (records, blobs) = write_trap_tables(&vec![], &functions()).unwrap();
    assert!(records.is_empty());
    assert!(blobs.is_empty());
}

#[test]
fn first_matching_function_wins() {
    let mut fs = functions();
    fs.push(("guest_func_f1".to_string(), FunctionSpec::new(0x3000, 4)));
    let sinks = vec![sink("guest_func_f1", vec![(0, CompilerTrapCode::Interrupt)])];
    let (records, _) = write_trap_tables(&sinks, &fs).unwrap();
    assert_eq!(records[0].func_index, 1);
}

#[test]
fn unsorted_sites_are_rejected() {
    let sinks = vec![sink(
        "guest_func_f0",
        vec![(0x30, CompilerTrapCode::OutOfBounds), (0x10, CompilerTrapCode::OutOfBounds)],
    )];
    assert!(matches!(
        write_trap_tables(&sinks, &functions()),
        Err(WriteError::UnsortedTrapSites(ref n)) if n == "guest_func_f0"
    ));
    let dup = vec![sink(
        "guest_func_f0",
        vec![(0x10, CompilerTrapCode::OutOfBounds), (0x10, CompilerTrapCode::BadSignature)],
    )];
    assert!(matches!(write_trap_tables(&dup, &functions()), Err(WriteError::UnsortedTrapSites(_))));
}

#[test]
fn sinks_without_sites_are_skipped() {
    let sinks = vec![
        sink("guest_func_f0", vec![]),
        sink("guest_func_f1", vec![(0x10, CompilerTrapCode::HeapOutOfBounds)]),
    ];
    let (records, blobs) = write_trap_tables(&sinks, &functions()).unwrap();
    assert_eq!(records, vec![TrapManifestRecord { table_addr: 0, table_len: 1, func_index: 1 }]);
    assert_eq!(blobs.len(), 1);
    assert_eq!(blobs[0].symbol, "lucet_trap_table_guest_func_f1");
    let (records, blobs) = write_trap_tables(&vec![sink("guest_func_f0", vec![])], &functions()).unwrap();
    assert!(records.is_empty());
    assert!(blobs.is_empty());
}

#[test]
fn first_unsorted_sink_is_named() {
    let sinks = vec![
        sink("guest_func_f1", vec![(0x10, CompilerTrapCode::OutOfBounds)]),
        sink("guest_func_f0", vec![(0x8, CompilerTrapCode::OutOfBounds), (0x4, CompilerTrapCode::OutOfBounds)]),
        sink("guest_func_f1", vec![(0x8, CompilerTrapCode::OutOfBounds), (0x4, CompilerTrapCode::OutOfBounds)]),
    ];
    match write_trap_tables(&sinks, &functions()) {
        Err(WriteError::UnsortedTrapSites(name)) => assert_eq!(name, "guest_func_f0"),
        other => panic!("unexpected {:?}", other),
    }
}

#[test]
fn code_metadata_blobs() {
    let cm = CodeMetadata::new(vec![TrapManifestRecord { table_addr: 0, table_len: 2, func_index: 1 }]);
    let blobs = write_code_metadata(&cm).unwrap();
    assert_eq!(blobs.data.len(), 28);
    assert_eq!(blobs.len_bytes, vec![28, 0, 0, 0]);
    assert_eq!(blobs.data, cm.serialize().unwrap());
    let empty = write_code_metadata(&CodeMetadata::new(vec![])).unwrap();
    assert_eq!(empty.len_bytes, vec![8, 0, 0, 0]);
}
