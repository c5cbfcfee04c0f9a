//! Reconciliation and rendering engine for shared household finances.
//!
//! The library redirects and sign-corrects financial records across
//! synchronized account pairs, resolves per-user category replacements,
//! settles an expense's monetary totals from fixed amounts and fractional
//! shares, and aligns sorted child-record collections against a primary
//! expense list with a multi-cursor merge scan.
//!
//! Storage, transport and session handling are outside collaborators: they
//! hand the library already-sorted, already-filtered snapshots and take the
//! rendered views back.

pub mod enums;
pub mod models;
pub mod money;
pub mod rendering;
pub mod resolve;
pub mod util;
