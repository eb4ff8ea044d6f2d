//! Path redirection for a preloaded filesystem shim.
//!
//! The crate holds the pure part of the shim: the prefix rewrite that is
//! applied to every intercepted path, and the framing of paths and symbol
//! names as NUL-terminated byte strings. Everything here works on plain
//! values; the foreign calls themselves live with the caller.

pub mod bytewise;
pub mod cstring;
pub mod intercept;
pub mod rewrite;
