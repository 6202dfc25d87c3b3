use lucet_traps::{
    decode_trap_table, encode_trap_sites, lookup_trap, FunctionSpec, ModuleTraps, TrapCode,
    TrapManifestRecord, TrapSite, TrapTable,
};

fn site(offset: u32, code: TrapCode) -> TrapSite {
    TrapSite { offset, code }
}

#[test]
fn trap_code_numbers_round_trip() {
    for v in 0..11u32 {
        let c = TrapCode::try_from_u32(v).expect("known code");
        assert_eq!(c.to_u32(), v);
    }
    assert_eq!(TrapCode::try_from_u32(0), Some(TrapCode::StackOverflow));
    assert_eq!(TrapCode::try_from_u32(6), Some(TrapCode::IntegerDivByZero));
    assert_eq!(TrapCode::try_from_u32(10), Some(TrapCode::Unreachable));
    assert_eq!(TrapCode::try_from_u32(11), None);
    assert_eq!(TrapCode::try_from_u32(u32::MAX), None);
}

#[test]
fn function_spec_range_includes_its_end() {
    let f = FunctionSpec::new(0x1000, 0x40);
    assert!(f.contains(0x1000));
    assert!(f.contains(0x1040));
    assert!(!f.contains(0x1041));
    assert!(!f.contains(0x0FFF));
    assert_eq!(f.relative_addr(0x1010), Some(0x10));
    // the end of the range is inside, as for `contains`
    assert_eq!(f.relative_addr(0x1040), Some(0x40));
    assert_eq!(f.relative_addr(0x1041), None);
    assert_eq!(f.relative_addr(0x0FFF), None);
}

#[test]
fn table_lookup_by_offset() {
    let table = TrapTable::new(
        1,
        vec![site(0x10, TrapCode::HeapOutOfBounds), site(0x30, TrapCode::IntegerDivByZero)],
    );
    assert_eq!(table.lookup_addr(0x10), Some(TrapCode::HeapOutOfBounds));
    assert_eq!(table.lookup_addr(0x30), Some(TrapCode::IntegerDivByZero));
    assert_eq!(table.lookup_addr(0x20), None);
    assert_eq!(table.lookup_addr(0), None);
    let empty = TrapTable::new(0, vec![]);
    assert_eq!(empty.lookup_addr(0), None);
}

#[test]
fn record_lookup_finds_every_site() {
    let sites: Vec<TrapSite> = (0..50u32)
        .map(|i| site(i * 4, TrapCode::try_from_u32(i % 11).unwrap()))
        .collect();
    let rec = TrapManifestRecord { table_addr: 0x2000, table_len: 50, func_index: 0 };
    for s in &sites {
        assert_eq!(rec.lookup_addr(&sites, s.offset), Some(s.code));
        assert_eq!(rec.lookup_addr(&sites, s.offset + 1), None);
    }
}

#[test]
fn address_lookup_in_one_function() {
    let f = FunctionSpec::new(0x1000, 0x40);
    let sites = vec![
        site(0x10, TrapCode::HeapOutOfBounds),
        site(0x30, TrapCode::IntegerDivByZero),
        site(0x40, TrapCode::Unreachable),
    ];
    assert_eq!(lookup_trap(&f, &sites, 0x1010), Some(TrapCode::HeapOutOfBounds));
    assert_eq!(lookup_trap(&f, &sites, 0x1030), Some(TrapCode::IntegerDivByZero));
    assert_eq!(lookup_trap(&f, &sites, 0x1020), None);
    assert_eq!(lookup_trap(&f, &sites, 0x0FFF), None);
    // the end of the range belongs to the function
    assert_eq!(lookup_trap(&f, &sites, 0x1040), Some(TrapCode::Unreachable));
    assert_eq!(lookup_trap(&f, &sites, 0x1041), None);
}

fn two_function_module() -> ModuleTraps {
    let functions = vec![FunctionSpec::new(0x800, 0x100), FunctionSpec::new(0x1000, 0x40)];
    let records = vec![TrapManifestRecord { table_addr: 0x5000, table_len: 2, func_index: 1 }];
    let tables = vec![vec![
        site(0x10, TrapCode::HeapOutOfBounds),
        site(0x30, TrapCode::IntegerDivByZero),
    ]];
    ModuleTraps::new(functions, records, tables).expect("well formed")
}

#[test]
fn module_lookup_two_functions() {
    let m = two_function_module();
    assert_eq!(m.lookup_addr(0x1010), Some(TrapCode::HeapOutOfBounds));
    assert_eq!(m.lookup_addr(0x1030), Some(TrapCode::IntegerDivByZero));
    assert_eq!(m.lookup_addr(0x1020), None);
    assert_eq!(m.lookup_addr(0x0FFF), None);
    assert_eq!(m.lookup_addr(0x1040), None);
    assert_eq!(m.lookup_addr(0x2000), None);
}

#[test]
fn module_traps_rejects_malformed_parts() {
    let f = || vec![FunctionSpec::new(0x1000, 0x40)];
    let rec = |idx: u32, len: u64| vec![TrapManifestRecord { table_addr: 1, table_len: len, func_index: idx }];
    let t = || vec![vec![site(0x10, TrapCode::OutOfBounds), site(0x20, TrapCode::BadSignature)]];
    assert!(ModuleTraps::new(f(), rec(0, 2), t()).is_some());
    assert!(ModuleTraps::new(f(), rec(1, 2), t()).is_none());
    assert!(ModuleTraps::new(f(), rec(0, 3), t()).is_none());
    assert!(ModuleTraps::new(f(), rec(0, 2), vec![]).is_none());
    let unsorted = vec![vec![site(0x20, TrapCode::OutOfBounds), site(0x10, TrapCode::BadSignature)]];
    assert!(ModuleTraps::new(f(), rec(0, 2), unsorted).is_none());
}

#[test]
fn trap_table_bytes_layout() {
    let sites = vec![site(0x10, TrapCode::HeapOutOfBounds), site(0x0102_0304, TrapCode::Unreachable)];
    let bytes = encode_trap_sites(&sites);
    assert_eq!(
        bytes,
        vec![0x10, 0, 0, 0, 1, 0, 0, 0, 0x04, 0x03, 0x02, 0x01, 10, 0, 0, 0]
    );
    assert_eq!(decode_trap_table(&bytes), Some(sites));
    assert_eq!(encode_trap_sites(&vec![]), Vec::<u8>::new());
    assert_eq!(decode_trap_table(&[]), Some(vec![]));
}

#[test]
fn trap_table_decode_rejects_bad_bytes() {
    // not a whole number of entries
    assert_eq!(decode_trap_table(&[0, 0, 0, 0, 1, 0, 0]), None);
    // unknown trap code 11
    assert_eq!(decode_trap_table(&[0, 0, 0, 0, 11, 0, 0, 0]), None);
    // offsets out of order
    assert_eq!(
        decode_trap_table(&[8, 0, 0, 0, 1, 0, 0, 0, 4, 0, 0, 0, 1, 0, 0, 0]),
        None
    );
    // equal offsets
    assert_eq!(
        decode_trap_table(&[4, 0, 0, 0, 1, 0, 0, 0, 4, 0, 0, 0, 2, 0, 0, 0]),
        None
    );
}

#[test]
fn record_trapsites_checks_length() {
    let rec = TrapManifestRecord { table_addr: 0x5000, table_len: 1, func_index: 0 };
    let one = [0x10, 0, 0, 0, 6, 0, 0, 0];
    assert_eq!(rec.trapsites(&one), Some(vec![site(0x10, TrapCode::IntegerDivByZero)]));
    let two = [0x10, 0, 0, 0, 6, 0, 0, 0, 0x20, 0, 0, 0, 6, 0, 0, 0];
    assert_eq!(rec.trapsites(&two), None);
    assert_eq!(rec.trapsites(&[]), None);
}

#[test]
fn module_lookup_adjacent_functions() {
    // f0 ends exactly where f1 begins: the shared address belongs to the
    // function whose record comes first in the trap manifest
    let functions = vec![FunctionSpec::new(0x1000, 0x40), FunctionSpec::new(0x1040, 0x20)];
    let records = vec![
        TrapManifestRecord { table_addr: 0x5000, table_len: 1, func_index: 0 },
        TrapManifestRecord { table_addr: 0x6000, table_len: 1, func_index: 1 },
    ];
    let tables = vec![vec![site(0x10, TrapCode::OutOfBounds)], vec![site(0, TrapCode::StackOverflow)]];
    let m = ModuleTraps::new(functions.clone(), records.clone(), tables.clone()).unwrap();
    assert_eq!(m.lookup_addr(0x1040), None);
    assert_eq!(m.lookup_addr(0x1010), Some(TrapCode::OutOfBounds));
    let swapped = ModuleTraps::new(
        functions,
        vec![records[1], records[0]],
        vec![tables[1].clone(), tables[0].clone()],
    )
    .unwrap();
    assert_eq!(swapped.lookup_addr(0x1040), Some(TrapCode::StackOverflow));
}
