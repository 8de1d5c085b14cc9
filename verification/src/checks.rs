//! The detectors, one module each.

pub mod cpi_check;
pub mod init_if_needed_check;
pub mod mut_borrow_check;
pub mod realloc_check;
pub mod remaining_accounts_check;
pub mod seeds_reuse_check;
pub mod signer_check;
pub mod state_overwrite_check;
