//! Trap metadata for ahead-of-time compiled WebAssembly modules: the trap
//! codes and per-function trap-site tables a compiler emits, the
//! module-wide metadata container and its byte encoding, the function
//! manifest, the emission of trap tables on the compiler side, the load-time
//! fix-up on the runtime side, and the lookup of a faulting address.

pub mod code_metadata;
pub mod functions;
pub mod layout;
pub mod loader;
pub mod lookup;
pub mod traps;
pub mod writer;

pub use code_metadata::{CodeMetadata, Error};
pub use functions::{decode_function_manifest, encode_function_manifest, FunctionSpec};
pub use layout::{decode_trap_table, encode_trap_sites};
pub use loader::{
    apply_trap_table_addrs, export_symbol, function_manifest_source, is_undefined_symbol,
    start_function, table_func_index, table_segment_len, trap_table_functions, trap_table_symbol, AddrSymbol, LoadError, ManifestSource, ModuleTraps,
};
pub use lookup::lookup_trap;
pub use traps::{TrapCode, TrapManifestRecord, TrapSite, TrapTable};
pub use writer::{
    translate_trapcode, trap_sym_for_func, write_code_metadata, write_trap_tables, CompilerTrapCode,
    MetadataBlobs, SinkSite, TrapSink, TrapTableBlob, WriteError,
};
