//! Verified core of an in-process function hook: the byte encoding of the
//! x86 relative branches that divert a function into a trampoline, the
//! enable/disable state of a code patch, the messages of lookup and patch
//! errors, the choice of the heap that backs allocations, the flat storage
//! form of a dense layer's parameters, and the integer and boolean decisions
//! of the yaw resolver.

pub mod encode;
pub mod error;
pub mod flag;
pub mod patch;
pub mod heap;
pub mod resolver;
pub mod matrix;
pub mod hooks;
pub mod text;
