//! A versioned typed-endpoint marshaling engine for HTTP APIs.
//!
//! An endpoint is described by immutable metadata (method, authentication
//! requirement, rate-limit flag, and an ordered table of version-tagged path
//! templates) together with a schema of field mappings that say where each
//! typed field lives on the wire (path segment, query parameter, header, or
//! raw body).  The engine resolves the path template applicable to a
//! negotiated protocol version, renders it with percent-encoded path fields,
//! assembles outgoing wire requests, and decodes incoming wire responses back
//! into typed field values, with explicit default, omission, and error
//! behavior.  The engine performs no network I/O itself: it only produces
//! and consumes in-memory wire messages.
//!
//! Scope: a message body is raw bytes or empty.  Serializing a set of
//! structured-body fields into one document, and parsing one back, is the
//! structured-body codec collaborator's concern, not the engine's; a
//! schema therefore declares no structured-body field, and
//! `BodyDecodeError` is the error reserved for that collaborator's
//! failures.

pub mod chars;
pub mod decode;
pub mod encode;
pub mod error;
pub mod field;
pub mod header;
pub mod media_download;
pub mod metadata;
pub mod percent;
pub mod template;
pub mod version;
pub mod wire;
