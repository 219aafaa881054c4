//! Multiboot2 boot-information exchange: locating and decoding a kernel
//! image's request header, and encoding the boot-information table that a
//! loader hands to the kernel.
use vstd::prelude::*;

pub mod bytes;
pub mod header;
pub mod bootinfo;

verus! {

} // verus!
