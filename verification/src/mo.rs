//! Mobile-originated records: header, confirmation status, and location.

pub mod confirmation_status;
pub mod header;
pub mod location_information;
pub mod session_status;

pub use confirmation_status::ConfirmationStatus;
pub use header::Header;
pub use location_information::{LocationDirection, LocationInformation};
pub use session_status::SessionStatus;
