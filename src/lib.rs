//! A just-in-time translator from a guest load/store instruction set to x86-64: a
//! scratch register allocator, a relocatable code builder, guest flag emulation, per
//! operation emitters, block translation with a cache, and the image loader.
use vstd::prelude::*;

pub mod assembler;
pub mod context;
pub mod emitters;
pub mod encode;
pub mod error;
pub mod flags;
pub mod guest;
pub mod host;
pub mod inst;
pub mod labels;
pub mod laws;
pub mod machine;
pub mod memory;
pub mod nro;
pub mod parser;
pub mod regalloc;
pub mod registers;
