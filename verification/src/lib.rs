//! Discovery of locally installed JetBrains IDEs.
//!
//! The library holds the pure pipeline that turns a raw versioned directory
//! name into a fully resolved installation record: platform path rules,
//! product-name normalization, vmoptions line filtering, notification-port
//! extraction, and the list/lookup query layer. All filesystem enumeration
//! and file reading is done by the caller, which hands the observed values
//! (directory names, file contents, existence flags) to these functions.

pub mod chars;
pub mod instance;
pub mod numbers;
pub mod paths;
pub mod product;
pub mod query;
pub mod render;
pub mod vmoptions;
