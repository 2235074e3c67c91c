//! Service fingerprinting engine: matches a response body against a catalog
//! of declarative service signatures and resolves service versions, either by
//! inclusive semantic-version ranges or by an explicit regex-to-version table.

pub mod detector;
pub mod utils;
pub mod version;
