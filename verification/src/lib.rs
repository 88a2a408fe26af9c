//! Verified core of a family of byte-driven exercise programs for small vectors.
use vstd::prelude::*;

pub mod bytes;
pub mod small_vec;
pub mod sv_u32;
pub mod sv_i32;
pub mod sv_string;
pub mod sv_i32n15;
pub mod sv_u8n20;
pub mod sv_u8n32;
pub mod sv_usize12;
pub mod script;
pub mod u32_script;
pub mod i32_script;
pub mod i32_blocks;
pub mod hooks;
pub mod string_script;
pub mod stream_script;
pub mod triple_script;
pub mod medley;
pub mod numbered;
pub mod survey;
pub mod cursor;
pub mod fixed;
pub mod borrowed;
pub mod listing;
pub mod slabs;
pub mod slab_script;
pub mod hooked;
pub mod derefs;
pub mod reserves;

verus! {

} // verus!
