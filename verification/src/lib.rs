//! Validation of Web Bluetooth blocklist documents.
//!
//! A blocklist names the GATT UUIDs, and the manufacturer data in advertisements, that a
//! page may not reach. This crate decides whether a document is well formed, and says what
//! is wrong with the first line that is not. It does not interpret the entries.

pub mod blocklist;
pub mod decimal;
pub mod hex;
pub mod manufacturer;
pub mod registry;
pub mod text;
pub mod uuid;

pub use blocklist::{diagnose_blocklist, validate_blocklist, Diagnostic};
pub use hex::{valid_hex_digit, valid_hex_string};
pub use manufacturer::{valid_advertise_data_prefix, valid_company_identifier};
pub use uuid::valid_uuid;
