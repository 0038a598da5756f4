//! Validation of web records resolved through BitNames.
//!
//! A name resolves to a descriptor ([`BitnameInfo`]): the commitment that
//! its record is expected to have, and the addresses at which the record
//! can be fetched. The record itself ([`WebRecord`]) is a JSON object. It is
//! valid when it declares the supported version and, where a commitment is
//! expected, the SHA-256 digest of its canonical serialization is that
//! commitment.
//!
//! The canonical serialization is made by `serde_jcs`, the digest by
//! `crypto`, and fees are read by `rust_decimal`; what this library relies
//! on from them is stated where each is called. Everything else, from the
//! reading of addresses to the order of the checks, is proved against the
//! specifications that stand beside it.

pub mod address;
pub mod canonical;
pub mod decimal;
pub mod descriptor;
pub mod digest;
pub mod hex;
pub mod json;
pub mod record;
pub mod text;

pub use descriptor::{BitnameInfo, DecodeError, IpAddress};
pub use json::{JsonObject, JsonValue};
pub use record::{ValidationError, WebRecord};
