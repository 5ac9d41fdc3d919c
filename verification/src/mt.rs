//! Mobile-terminated records: header and confirmation status.

pub mod confirmation_status;
pub mod header;

pub use confirmation_status::ConfirmationStatus;
pub use header::Header;
