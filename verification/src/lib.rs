//! A reflective memory-introspection core for games built on Unreal Engine.
//!
//! The library locates process-wide anchors inside a foreign address space by
//! signature scanning, walks the target's own runtime type-reflection records
//! to turn field names into byte offsets, decodes the target's interned-name
//! pool, and resolves whole pointer paths with a monotonic cache of the
//! offsets found so far. Foreign memory is modelled by [`memory::Memory`], a
//! sparse map from address to byte; every read of it may fail, as a read of
//! an unmapped page of a live process does. A driver owns the process handle,
//! copies what it read into a [`memory::Memory`], and calls the library once
//! per poll tick.

pub mod memory;
pub mod scanner;
pub mod locator;
pub mod reflect;
pub mod path;
pub mod laws;
