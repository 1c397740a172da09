//! Passing a request on to another HTTP server.
use http::{HeaderMap, HeaderValue};
use vstd::prelude::*;
use vstd::utf8::*;

use crate::headers::{
    has_room, header_fields, header_safe, is_header_value, remove_values, set_value,
};
use crate::text::{ascii_lower_text, opt_text};
use crate::uri::{
    build_uri, built_uri, path_text, plain_authority, plain_path, rooted_path, UriParts, UriView,
};

verus! {

/// Why a request cannot be passed on.
#[derive(Debug, Clone, Copy, PartialEq, Eq, Structural)]
pub enum RewriteError {
    /// The address of the other server names no server.
    MissingAuthority,
    /// The request has no path.
    MissingPath,
    /// The two do not make an address.
    InvalidUri,
    /// There is no room for the host among the header fields.
    TooManyHeaders,
}

/// The header fields without those that concern one connection only.
pub open spec fn end_to_end(fields: Map<Seq<char>, Seq<Seq<u8>>>) -> Map<Seq<char>, Seq<Seq<u8>>> {
    fields.remove("content-length"@).remove("transfer-encoding"@).remove(
        "accept-encoding"@,
    ).remove("content-encoding"@)
}

/// The header fields with a host, if there is one that can stand there.
pub open spec fn with_host(
    fields: Map<Seq<char>, Seq<Seq<u8>>>,
    host: Option<Seq<char>>,
) -> Map<Seq<char>, Seq<Seq<u8>>> {
    match host {
        Some(h) => if header_safe(h) {
            fields.insert("host"@, seq![encode_utf8(h)])
        } else {
            fields
        },
        None => fields,
    }
}

/// The address of a request at the other server: that server, over plain HTTP,
/// with the path and query of the request. The last argument is what these make
/// when put together.
pub open spec fn target_uri(
    authority: Option<Seq<char>>,
    path_and_query: Option<Seq<char>>,
    built: Option<Seq<char>>,
) -> Result<Seq<char>, RewriteError> {
    if authority is None {
        Err(RewriteError::MissingAuthority)
    } else if path_and_query is None {
        Err(RewriteError::MissingPath)
    } else {
        match built {
            Some(uri) => Ok(uri),
            None => Err(RewriteError::InvalidUri),
        }
    }
}

/// The address of a request at the other server.
#[derive(Debug, PartialEq, Eq)]
pub struct Target {
    /// The whole of it.
    pub text: String,
    /// The scheme.
    pub scheme: String,
    /// The authority: that of the other server.
    pub authority: String,
    /// The path and query: those of the request.
    pub path_and_query: String,
}

/// An address by its characters, or why there is none.
pub open spec fn target_view(target: Result<Target, RewriteError>) -> Result<
    Seq<char>,
    RewriteError,
> {
    match target {
        Ok(uri) => Ok(uri.text@),
        Err(err) => Err(err),
    }
}

/// Whether the result is the address of a request at another server, in one piece
/// and in parts.
pub open spec fn targets(
    target: Result<Target, RewriteError>,
    proxy_uri: UriView,
    request_uri: UriView,
) -> bool {
    let authority = proxy_uri.authority->Some_0;
    let path = request_uri.path_and_query->Some_0;
    &&& target_view(target) == target_uri(
        proxy_uri.authority,
        request_uri.path_and_query,
        built_uri("http"@, authority, path),
    )
    &&& target matches Ok(t) ==> {
        &&& t.scheme@ == "http"@
        &&& proxy_uri.authority == Some(t.authority@)
        &&& request_uri.path_and_query == Some(t.path_and_query@)
        &&& rooted_path(path) ==> t.text@ == "http"@ + "://"@ + authority + path_text(path)
    }
    &&& proxy_uri.authority is Some && request_uri.path_and_query is Some && plain_authority(
        authority,
    ) && plain_path(path) ==> target is Ok
}

/// The header names are written small.
proof fn names_are_small()
    ensures
        ascii_lower_text("content-length"@) == "content-length"@,
        ascii_lower_text("transfer-encoding"@) == "transfer-encoding"@,
        ascii_lower_text("accept-encoding"@) == "accept-encoding"@,
        ascii_lower_text("content-encoding"@) == "content-encoding"@,
{
    reveal_strlit("content-length");
    reveal_strlit("transfer-encoding");
    reveal_strlit("accept-encoding");
    reveal_strlit("content-encoding");
    assert(ascii_lower_text("content-length"@) =~= "content-length"@);
    assert(ascii_lower_text("transfer-encoding"@) =~= "transfer-encoding"@);
    assert(ascii_lower_text("accept-encoding"@) =~= "accept-encoding"@);
    assert(ascii_lower_text("content-encoding"@) =~= "content-encoding"@);
}

/// Takes out the header fields that concern one connection only.
pub fn remove_hop_by_hop_headers(headers: &mut HeaderMap<HeaderValue>)
    ensures
        header_fields(*final(headers)) == end_to_end(header_fields(*old(headers))),
{
    proof {
        names_are_small();
    }
    remove_values(headers, "content-length");
    remove_values(headers, "transfer-encoding");
    remove_values(headers, "accept-encoding");
    remove_values(headers, "content-encoding");
}

/// Puts a host in, if there is one that can stand there, and tells whether there
/// was room for it.
fn set_host(headers: &mut HeaderMap<HeaderValue>, host: &Option<String>) -> (set: bool)
    ensures
        header_fields(*final(headers)) == (if set {
            with_host(header_fields(*old(headers)), opt_text(*host))
        } else {
            header_fields(*old(headers))
        }),
        !set ==> needs_room(header_fields(*old(headers)), opt_text(*host)),
{
    if let Some(h) = host {
        if is_header_value(h.as_str()) {
            proof {
                reveal_strlit("host");
            }
            return set_value(headers, "host", h.as_str());
        }
    }
    true
}

/// Whether a host is to be put among header fields that may have no room for it.
pub open spec fn needs_room(fields: Map<Seq<char>, Seq<Seq<u8>>>, host: Option<Seq<char>>) -> bool {
    host is Some && header_safe(host->Some_0) && !has_room(fields)
}

/// The address of a request at the other server.
fn target(proxy_uri: &UriParts, request_uri: &UriParts) -> (target: Result<Target, RewriteError>)
    ensures
        targets(target, proxy_uri@, request_uri@),
{
    match (&proxy_uri.authority, &request_uri.path_and_query) {
        (None, _) => Err(RewriteError::MissingAuthority),
        (Some(_), None) => Err(RewriteError::MissingPath),
        (Some(authority), Some(path)) => match build_uri(
            "http",
            authority.as_str(),
            path.as_str(),
        ) {
            Some(text) => Ok(
                Target {
                    text,
                    scheme: "http".to_owned(),
                    authority: authority.clone(),
                    path_and_query: path.clone(),
                },
            ),
            None => Err(RewriteError::InvalidUri),
        },
    }
}

/// Passes requests on to another HTTP server.
#[derive(Debug, Clone, Copy)]
pub struct ReverseProxy;

impl ReverseProxy {
    /// Makes a request ready for another server: its header fields in place, its
    /// address as the result. Where there is no room for the host, the header
    /// fields are left without those that concern one connection only.
    pub fn proxy(
        &self,
        proxy_uri: &UriParts,
        headers: &mut HeaderMap<HeaderValue>,
        request_uri: &UriParts,
    ) -> (uri: Result<Target, RewriteError>)
        ensures
            ({
                let kept = end_to_end(header_fields(*old(headers)));
                if uri == Err::<Target, RewriteError>(RewriteError::TooManyHeaders) {
                    &&& needs_room(kept, proxy_uri@.host)
                    &&& header_fields(*final(headers)) == kept
                } else {
                    &&& header_fields(*final(headers)) == with_host(kept, proxy_uri@.host)
                    &&& targets(uri, proxy_uri@, request_uri@)
                }
            }),
    {
        remove_hop_by_hop_headers(headers);
        if !set_host(headers, &proxy_uri.host) {
            return Err(RewriteError::TooManyHeaders);
        }
        target(proxy_uri, request_uri)
    }
}

/// Of a request that is passed on, nothing is left of the four fields that
/// concern one connection, the host is the other server's, and every other field
/// is as it was.
pub proof fn other_fields_pass(
    fields: Map<Seq<char>, Seq<Seq<u8>>>,
    host: Option<Seq<char>>,
    name: Seq<char>,
)
    ensures
        ({
            let after = with_host(end_to_end(fields), host);
            let dropped = name == "content-length"@ || name == "transfer-encoding"@ || name
                == "accept-encoding"@ || name == "content-encoding"@;
            &&& dropped ==> !after.contains_key(name)
            &&& !dropped && name != "host"@ ==> (after.contains_key(name) <==> fields.contains_key(
                name,
            )) && (fields.contains_key(name) ==> after[name] == fields[name])
            &&& host is Some && header_safe(host->Some_0) ==> after.contains_key("host"@)
                && after["host"@] == seq![encode_utf8(host->Some_0)]
        }),
{
    reveal_strlit("content-length");
    reveal_strlit("transfer-encoding");
    reveal_strlit("accept-encoding");
    reveal_strlit("content-encoding");
    reveal_strlit("host");
    assert("host"@.len() == 4);
    assert("content-length"@.len() == 14);
    assert("transfer-encoding"@.len() == 17);
    assert("accept-encoding"@.len() == 15);
    assert("content-encoding"@.len() == 16);
}

} // verus!
