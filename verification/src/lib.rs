//! Request correlation and request checks of the Celler binary cache server.
//!
//! Every response carries an op ID, which under OTLP export is the trace ID of
//! the request, and a request ID, which is the client's own where it is safe to
//! echo. This crate derives the identifiers, writes them, and decides what is
//! let in, what is recorded on the span of a request and what is exported. All
//! of it is verified; the server around it does the serving.
pub mod api;
pub mod correlation;
pub mod export;
pub mod headers;
pub mod middleware;
pub mod op_id;
pub mod request_id;
pub mod request_span;
pub mod startup;
pub mod text;
pub mod uuid_text;
