//! Names of the headers that the server reads and writes.
use crate::headers::valid_header_name;
use vstd::prelude::*;

verus! {

/// Response header carrying the server-assigned operation ID of a request.
///
/// When the server exports to OTLP this is the OpenTelemetry trace ID, so an
/// op ID quoted out of an error message resolves directly to a trace.
pub const CELLER_OP_ID: &'static str = "X-Celler-Op-Id";

/// Request and response header carrying a client- or proxy-supplied request ID.
///
/// The server adopts an inbound value when it is safe to echo, and generates
/// one otherwise.
pub const REQUEST_ID: &'static str = "X-Request-Id";

/// Response header telling whether the cache that was served is public.
pub const CELLER_CACHE_VISIBILITY: &'static str = "X-Celler-Cache-Visibility";

/// Request header naming the host that the client wants to reach.
pub const HOST: &'static str = "host";

/// Request header in which a proxy reports the scheme that the client used.
pub const X_FORWARDED_PROTO: &'static str = "x-forwarded-proto";

/// Request header describing the client software.
pub const USER_AGENT: &'static str = "user-agent";

/// Every one of these names is a header name.
pub proof fn lemma_names_are_valid()
    ensures
        valid_header_name(CELLER_OP_ID@),
        valid_header_name(REQUEST_ID@),
        valid_header_name(CELLER_CACHE_VISIBILITY@),
        valid_header_name(HOST@),
        valid_header_name(X_FORWARDED_PROTO@),
        valid_header_name(USER_AGENT@),
{
    reveal_strlit("X-Celler-Op-Id");
    reveal_strlit("X-Request-Id");
    reveal_strlit("X-Celler-Cache-Visibility");
    reveal_strlit("host");
    reveal_strlit("x-forwarded-proto");
    reveal_strlit("user-agent");
}

} // verus!
