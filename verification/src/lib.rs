//! A static analysis of smart-contract sources that are written with the
//! account-context framework of Solana programs. It looks for a fixed list of
//! risky patterns: accounts structs without a signer, several accounts of one
//! type in a struct, accounts that may be initialized twice, calls into other
//! programs, signed calls whose seeds lack a bump, reads of the unchecked
//! remaining accounts, reallocations, mutation of accounts that are not
//! declared mutable, and seed prefixes shared between structs.
//!
//! The analysis reads a syntax tree ([`syntax`]) and returns diagnostics
//! ([`diagnostic`]). [`analyzer`] runs it file by file; [`checks`] holds the
//! detectors; [`walker`] is the traversal that the function-level detectors
//! share; [`classifier`] reads the constraints of account attributes, with
//! [`scan`] to find the elements of a seed list.

pub mod analyzer;
pub mod checks;
pub mod classifier;
pub mod collect;
pub mod diagnostic;
pub mod scan;
pub mod symbols;
pub mod syntax;
pub mod text;
pub mod utils;
pub mod walker;
