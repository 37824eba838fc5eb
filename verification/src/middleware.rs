//! What the server decides about a request before and after it is handled.
use crate::api::{lemma_names_are_valid, CELLER_CACHE_VISIBILITY, HOST, X_FORWARDED_PROTO};
use crate::headers::{
    add_header, first_value, has_room, header_contents, header_is, header_text, is_add_refused,
    law_added_header_comes_last, law_first_value_is_read, law_header_text_is_printable_ascii, lower,
    read_header_text, with_added_header, HeadersFull,
};
use crate::text::{ascii_bytes, lemma_bytes_of_text};
use axum::http::HeaderMap;
use vstd::prelude::*;
use vstd::string::*;

verus! {

/// The part of the server configuration that requests are checked and described
/// against.
pub struct ServerConfig {
    /// The hosts under which the server may be addressed; any host if empty.
    pub allowed_hosts: Vec<String>,
    /// The canonical endpoint of the API.
    pub api_endpoint: String,
    /// The canonical endpoint of the substituter, where it is not the API's.
    pub substituter_endpoint: Option<String>,
}

/// Per-request state.
pub struct RequestState {
    pub api_endpoint: String,
    pub substituter_endpoint: Option<String>,
    /// The host that the request was sent to, empty if it does not tell.
    pub host: String,
    /// Whether the client claims to have come by HTTPS. Any client can.
    pub client_claims_https: bool,
    /// Whether the cache that is served has turned out to be public.
    pub public_cache: bool,
}

/// Why a request is turned away.
#[derive(Debug, Clone, Copy, PartialEq, Eq, Structural)]
pub enum HostError {
    /// The request does not say which host it is for.
    MissingHost,
    /// The request is for a host that is not served.
    BadHost,
}

impl HostError {
    /// The message that the client is answered with.
    pub fn message(&self) -> (message: &'static str)
        ensures
            message@ == match *self {
                HostError::MissingHost => "Missing Host header"@,
                HostError::BadHost => "Bad Host"@,
            },
    {
        match self {
            HostError::MissingHost => "Missing Host header",
            HostError::BadHost => "Bad Host",
        }
    }
}

/// The host that a request is for.
pub open spec fn host_of(contents: Map<Seq<char>, Seq<(Seq<u8>, bool)>>) -> Option<Seq<char>> {
    header_text(contents, HOST@)
}

/// Whether a host is among those that are served.
pub open spec fn is_listed(allowed_hosts: Seq<String>, host: Seq<char>) -> bool {
    exists|i: int| 0 <= i < allowed_hosts.len() && #[trigger] allowed_hosts[i]@ == host
}

/// Whether a request for the given host is let through, and why not.
pub open spec fn host_verdict(
    allowed_hosts: Seq<String>,
    host: Option<Seq<char>>,
) -> Result<(), HostError> {
    match host {
        None => Err(HostError::MissingHost),
        Some(host) => if allowed_hosts.len() == 0 || is_listed(allowed_hosts, host) {
            Ok(())
        } else {
            Err(HostError::BadHost)
        },
    }
}

/// Reads the host that a request is for.
pub fn extract_host(headers: &HeaderMap) -> (host: Option<String>)
    ensures
        match host {
            Some(host) => host_of(header_contents(*headers)) == Some(host@),
            None => host_of(header_contents(*headers)) is None,
        },
{
    proof {
        lemma_names_are_valid();
    }
    read_header_text(headers, HOST)
}

/// Initializes per-request state.
pub fn init_request_state(config: &ServerConfig, headers: &HeaderMap) -> (state: RequestState)
    ensures
        state.api_endpoint@ == config.api_endpoint@,
        match config.substituter_endpoint {
            Some(endpoint) => state.substituter_endpoint is Some
                && state.substituter_endpoint->0@ == endpoint@,
            None => state.substituter_endpoint is None,
        },
        match host_of(header_contents(*headers)) {
            Some(host) => state.host@ == host,
            None => state.host@ == Seq::<char>::empty(),
        },
        state.client_claims_https == (first_value(
            header_contents(*headers),
            X_FORWARDED_PROTO@,
        ) == Some(ascii_bytes("https"@))),
        !state.public_cache,
{
    proof {
        lemma_names_are_valid();
        reveal_strlit("https");
    }
    let host = match extract_host(headers) {
        Some(host) => host,
        None => String::new(),
    };
    // X-Forwarded-Proto is an untrusted header
    let client_claims_https = header_is(headers, X_FORWARDED_PROTO, "https");
    let substituter_endpoint = match &config.substituter_endpoint {
        Some(endpoint) => Some(endpoint.clone()),
        None => None,
    };
    RequestState {
        api_endpoint: config.api_endpoint.clone(),
        substituter_endpoint,
        host,
        client_claims_https,
        public_cache: false,
    }
}

/// Restricts valid Host headers.
///
/// All requests are required to have a Host header in the first place, also
/// where any host will do.
pub fn restrict_host(config: &ServerConfig, headers: &HeaderMap) -> (verdict: Result<
    (),
    HostError,
>)
    ensures
        verdict == host_verdict(config.allowed_hosts@, host_of(header_contents(*headers))),
{
    let host = match extract_host(headers) {
        Some(host) => host,
        None => return Err(HostError::MissingHost),
    };
    let allowed_hosts = &config.allowed_hosts;
    if allowed_hosts.len() == 0 {
        return Ok(());
    }
    let mut i: usize = 0;
    while i < allowed_hosts.len()
        invariant
            i <= allowed_hosts.len(),
            allowed_hosts == &config.allowed_hosts,
            host_of(header_contents(*headers)) == Some(host@),
            forall|j: int| 0 <= j < i ==> #[trigger] allowed_hosts@[j]@ != host@,
        decreases allowed_hosts.len() - i,
    {
        if allowed_hosts[i] == host {
            assert(is_listed(config.allowed_hosts@, host@));
            return Ok(());
        }
        i = i + 1;
    }
    Err(HostError::BadHost)
}

/// Sets the `X-Celler-Cache-Visibility` header in responses that were served
/// from a public cache, unless the header map refuses it.
pub fn set_visibility_header(public_cache: bool, headers: &mut HeaderMap) -> (result: Result<
    (),
    HeadersFull,
>)
    ensures
        result is Ok ==> header_contents(*final(headers)) == (if public_cache {
            with_added_header(
                header_contents(*old(headers)),
                CELLER_CACHE_VISIBILITY@,
                (ascii_bytes("public"@), false),
            )
        } else {
            header_contents(*old(headers))
        }),
        result is Err ==> {
            &&& public_cache
            &&& !has_room(header_contents(*old(headers)), 1)
            &&& header_contents(*final(headers)) == header_contents(*old(headers))
            &&& is_add_refused(
                header_contents(*old(headers)),
                CELLER_CACHE_VISIBILITY@,
                ascii_bytes("public"@),
            )
        },
{
    if public_cache {
        let value = "public";
        proof {
            lemma_names_are_valid();
            reveal_strlit("public");
            lemma_bytes_of_text(value@);
        }
        if !add_header(headers, CELLER_CACHE_VISIBILITY, value.as_bytes()) {
            return Err(HeadersFull);
        }
    }
    Ok(())
}

/// A request that is let through tells its host, and it is a listed one unless
/// any host will do.
pub proof fn law_admitted_host_is_allowed(
    allowed_hosts: Seq<String>,
    contents: Map<Seq<char>, Seq<(Seq<u8>, bool)>>,
)
    requires
        host_verdict(allowed_hosts, host_of(contents)) is Ok,
    ensures
        host_of(contents) is Some,
        allowed_hosts.len() == 0 || is_listed(allowed_hosts, host_of(contents)->0),
{
}

/// A request without a Host header that can be read is turned away, whatever
/// hosts are allowed.
pub proof fn law_request_without_host_is_refused(
    allowed_hosts: Seq<String>,
    contents: Map<Seq<char>, Seq<(Seq<u8>, bool)>>,
)
    requires
        host_of(contents) is None,
    ensures
        host_verdict(allowed_hosts, host_of(contents)) == Err::<(), HostError>(
            HostError::MissingHost,
        ),
{
}

/// The host of a request is its first `Host` header, read as text: whenever that
/// holds nothing but tabs and printable ASCII.
pub proof fn law_host_is_the_host_header(
    contents: Map<Seq<char>, Seq<(Seq<u8>, bool)>>,
    host: Seq<char>,
)
    ensures
        host_of(contents) == Some(host) <==> {
            &&& contents.contains_key("host"@)
            &&& host.len() == contents["host"@][0].0.len()
            &&& forall|i: int|
                0 <= i < host.len() ==> {
                    &&& #[trigger] host[i] as int == contents["host"@][0].0[i] as int
                    &&& host[i] as int == 9 || 0x20 <= host[i] as int <= 0x7e
                }
        },
{
    reveal_strlit("host");
    assert(lower("host"@) =~= "host"@);
    law_header_text_is_printable_ascii(contents, HOST@, host);
}

/// A request for a host that is on the list, at any place of it, is let through.
pub proof fn law_listed_host_is_admitted(
    allowed_hosts: Seq<String>,
    contents: Map<Seq<char>, Seq<(Seq<u8>, bool)>>,
    i: int,
)
    requires
        0 <= i < allowed_hosts.len(),
        host_of(contents) == Some(allowed_hosts[i]@),
    ensures
        host_verdict(allowed_hosts, host_of(contents)) is Ok,
{
    assert(allowed_hosts[i]@ == host_of(contents)->0);
}

/// Without a list, a request for any host is let through.
pub proof fn law_any_host_is_admitted_without_a_list(
    allowed_hosts: Seq<String>,
    contents: Map<Seq<char>, Seq<(Seq<u8>, bool)>>,
)
    requires
        allowed_hosts.len() == 0,
        host_of(contents) is Some,
    ensures
        host_verdict(allowed_hosts, host_of(contents)) is Ok,
{
}

/// A request for a host that differs from every one on the list is turned away
/// as bad.
pub proof fn law_unlisted_host_is_refused(
    allowed_hosts: Seq<String>,
    contents: Map<Seq<char>, Seq<(Seq<u8>, bool)>>,
)
    requires
        allowed_hosts.len() > 0,
        host_of(contents) is Some,
        forall|i: int|
            0 <= i < allowed_hosts.len() ==> #[trigger] allowed_hosts[i]@ != host_of(contents)->0,
    ensures
        host_verdict(allowed_hosts, host_of(contents)) == Err::<(), HostError>(HostError::BadHost),
{
}

/// `restrict_host` lets a request through if and only if it names a host, and one
/// that is on the list at any place unless the list is empty; it tells a missing
/// host from a bad one.
pub proof fn law_restrict_host_goes_by_the_list(
    config: &ServerConfig,
    headers: &HeaderMap,
    verdict: Result<(), HostError>,
)
    requires
        call_ensures(restrict_host, (config, headers), verdict),
    ensures
        ({
            let host = host_of(header_contents(*headers));
            &&& verdict is Ok <==> host is Some && (config.allowed_hosts@.len() == 0 || exists|
                i: int,
            |
                0 <= i < config.allowed_hosts@.len() && #[trigger] config.allowed_hosts@[i]@
                    == host->0)
            &&& verdict == Err::<(), HostError>(HostError::MissingHost) <==> host is None
        }),
{
    let contents = header_contents(*headers);
    let hosts = config.allowed_hosts@;
    if host_of(contents) is Some && exists|i: int|
        0 <= i < hosts.len() && #[trigger] hosts[i]@ == host_of(contents)->0 {
        let i = choose|i: int| 0 <= i < hosts.len() && #[trigger] hosts[i]@ == host_of(contents)->0;
        law_listed_host_is_admitted(hosts, contents, i);
    }
}

/// `extract_host` gives the first `Host` header, read as text.
pub proof fn law_extract_host_reads_the_host(headers: &HeaderMap, host: Option<String>)
    requires
        call_ensures(extract_host, (headers,), host),
    ensures
        host is Some ==> host_of(header_contents(*headers)) == Some(host->0@),
        host is None ==> host_of(header_contents(*headers)) is None,
{
}

/// `init_request_state` takes the endpoints from the configuration, the host from
/// the request, and believes a claim of HTTPS only where the first
/// `X-Forwarded-Proto` spells just that. No cache counts as public at first.
pub proof fn law_request_state_describes_the_request(
    config: &ServerConfig,
    headers: &HeaderMap,
    state: RequestState,
)
    requires
        call_ensures(init_request_state, (config, headers), state),
    ensures
        ({
            let contents = header_contents(*headers);
            let host = host_of(contents);
            &&& state.api_endpoint@ == config.api_endpoint@
            &&& state.substituter_endpoint is Some <==> config.substituter_endpoint is Some
            &&& config.substituter_endpoint is Some ==> state.substituter_endpoint->0@
                == config.substituter_endpoint->0@
            &&& host is Some ==> state.host@ == host->0
            &&& host is None ==> state.host@.len() == 0
            &&& state.client_claims_https <==> contents.contains_key("x-forwarded-proto"@)
                && contents["x-forwarded-proto"@][0].0 == seq![0x68u8, 0x74, 0x74, 0x70, 0x73]
            &&& !state.public_cache
        }),
{
    reveal_strlit("x-forwarded-proto");
    reveal_strlit("https");
    assert(lower(X_FORWARDED_PROTO@) =~= "x-forwarded-proto"@);
    assert(ascii_bytes("https"@) =~= seq![0x68u8, 0x74, 0x74, 0x70, 0x73]);
    law_first_value_is_read(header_contents(*headers), X_FORWARDED_PROTO@);
}

/// `HostError::message` tells a missing host from a bad one.
pub proof fn law_messages_differ(missing: &'static str, bad: &'static str)
    requires
        call_ensures(HostError::message, (&HostError::MissingHost,), missing),
        call_ensures(HostError::message, (&HostError::BadHost,), bad),
    ensures
        missing@ == "Missing Host header"@,
        bad@ == "Bad Host"@,
{
}

/// `set_visibility_header` adds `public` behind what a response from a public
/// cache has under that name, and touches nothing else; any other response stays
/// as it is. It fails only where the map refuses the header.
pub proof fn law_public_responses_are_marked(
    public_cache: bool,
    headers: &mut HeaderMap,
    result: Result<(), HeadersFull>,
    name: Seq<char>,
)
    requires
        call_ensures(set_visibility_header, (public_cache, headers), result),
    ensures
        ({
            let before = header_contents(*old(headers));
            let after = header_contents(*final(headers));
            let key = "x-celler-cache-visibility"@;
            let public = seq![0x70u8, 0x75, 0x62, 0x6c, 0x69, 0x63];
            &&& !public_cache ==> result is Ok && after == before
            &&& public_cache && result is Ok ==> {
                &&& after.contains_key(key)
                &&& after[key].len() > 0
                &&& after[key].last() == (public, false)
                &&& before.contains_key(key) ==> after[key].drop_last() == before[key]
                &&& !before.contains_key(key) ==> after[key].len() == 1
                &&& name != key ==> after.contains_key(name) == before.contains_key(name)
                    && after[name] == before[name]
            }
            &&& result is Err ==> after == before && is_add_refused(
                before,
                "X-Celler-Cache-Visibility"@,
                public,
            )
            &&& has_room(before, 1) ==> result is Ok
        }),
{
    reveal_strlit("X-Celler-Cache-Visibility");
    reveal_strlit("x-celler-cache-visibility");
    reveal_strlit("public");
    assert(lower(CELLER_CACHE_VISIBILITY@) =~= "x-celler-cache-visibility"@);
    let public = seq![0x70u8, 0x75, 0x62, 0x6c, 0x69, 0x63];
    assert(ascii_bytes("public"@) =~= public);
    law_added_header_comes_last(
        header_contents(*headers),
        CELLER_CACHE_VISIBILITY@,
        (public, false),
        name,
    );
}

} // verus!
