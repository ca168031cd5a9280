//! World serialization support: the per-entity record of which components
//! are present and modified, the decisions taken when loading it back,
//! and the binary encoding of records.

pub mod format;
pub mod binary;
pub mod query;

pub use self::format::{
    DumpItem, DumpSlot, DumpStatus, EntityDump, LoadAction, LoadSlot, LoadSlotKind, NoMark,
};
pub use self::binary::{DumperBin, LoaderBin};
pub use self::query::DumpQuery;
