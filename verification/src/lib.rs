//! A small objdump-style library: it resolves a machine-mode token, turns hex
//! text into a byte buffer, decodes the buffer into instruction records with
//! the Zydis engine, and renders the records as column-aligned text.

pub mod align;
pub mod args;
pub mod disasm;
pub mod error;
pub mod render;
