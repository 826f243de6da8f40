//! Certificate trust and issuance core for a ham-radio message board.
//!
//! The library covers three concerns:
//! - parsing a TLS distinguished name into a structured identity
//!   ([`identity`]),
//! - deciding how a local certificate authority is checked, reused or
//!   regenerated at startup ([`ca`]),
//! - deciding how a visitor certificate bundle is minted ([`issuance`]),
//! - preparing the record a posted message is stored with ([`board`]).
//!
//! All cryptographic work is delegated to an external command-line toolkit.
//! The library never spawns a process itself: it emits [`toolkit::ToolkitCmd`]
//! values and consumes the reported outcomes, so every decision the two
//! pipelines make is ordinary verified code, and the surrounding binary only
//! executes commands and moves bytes.

pub mod board;
pub mod ca;
pub mod identity;
pub mod issuance;
pub mod toolkit;
