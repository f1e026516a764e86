//! Safe adapters for a reference-counted, vtable-based foreign object model:
//! UTF-16 string marshaling, string lists and header multimaps, reference
//! counting, callback trampolines and the request object family.

pub mod codec;
pub mod enums;
pub mod flags;
pub mod multimap;
pub mod postdata;
pub mod refcounted;
pub mod request;
pub mod string;
