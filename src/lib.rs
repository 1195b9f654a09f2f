//! Resumable single-resource download over a raw byte stream using
//! open-ended byte-range requests, with integrity checking of the result.

pub mod config;
pub mod download;
pub mod error;
pub mod hex;
pub mod integrity;
pub mod request;
pub mod response;
pub mod status;

pub use config::{parse_config, Config, ConfigError};
pub use download::{Decision, Download, DownloadError, BACKOFF_MS};
pub use error::{FetchError, IoKind};
pub use hex::encode;
pub use integrity::{check_digest, digest_hex, verify_payload};
pub use request::{build_request, HttpClient};
pub use response::{Phase, ResponseReader};
pub use status::{parse_status_bytes, parse_status_line};
