//! Addresses of servers and of tunnels.
use vstd::prelude::*;
use vstd::string::*;

use crate::text::opt_text;

verus! {

/// A URI, taken apart.
#[derive(Debug)]
pub struct UriParts {
    /// The whole of it.
    pub text: String,
    /// The scheme.
    pub scheme: Option<String>,
    /// The authority: the host, with what belongs to it.
    pub authority: Option<String>,
    /// The host.
    pub host: Option<String>,
    /// The path, with the query.
    pub path_and_query: Option<String>,
}

/// What a URI is made of.
pub struct UriView {
    /// See [`UriParts::text`].
    pub text: Seq<char>,
    /// See [`UriParts::scheme`].
    pub scheme: Option<Seq<char>>,
    /// See [`UriParts::authority`].
    pub authority: Option<Seq<char>>,
    /// See [`UriParts::host`].
    pub host: Option<Seq<char>>,
    /// See [`UriParts::path_and_query`].
    pub path_and_query: Option<Seq<char>>,
}

impl View for UriParts {
    type V = UriView;

    open spec fn view(&self) -> UriView {
        UriView {
            text: self.text@,
            scheme: opt_text(self.scheme),
            authority: opt_text(self.authority),
            host: opt_text(self.host),
            path_and_query: opt_text(self.path_and_query),
        }
    }
}

/// The scheme, authority, host and path of a URI; nothing where the text is
/// none.
pub uninterp spec fn parsed_uri(text: Seq<char>) -> Option<
    (Option<Seq<char>>, Option<Seq<char>>, Option<Seq<char>>, Option<Seq<char>>),
>;

/// Parts of a URI by their characters.
pub open spec fn split_view(
    parts: Option<(Option<String>, Option<String>, Option<String>, Option<String>)>,
) -> Option<(Option<Seq<char>>, Option<Seq<char>>, Option<Seq<char>>, Option<Seq<char>>)> {
    match parts {
        Some(p) => Some((opt_text(p.0), opt_text(p.1), opt_text(p.2), opt_text(p.3))),
        None => None,
    }
}

/// `http::Uri` parses a text, or rejects it, and gives its scheme, authority,
/// host and path with query. It has a host where it has an authority.
#[verifier::external_body]
fn split_uri(text: &str) -> (parts: Option<
    (Option<String>, Option<String>, Option<String>, Option<String>),
>)
    ensures
        split_view(parts) == parsed_uri(text@),
        parts matches Some(p) ==> (p.1 is Some <==> p.2 is Some),
{
    let uri = text.parse::<http::Uri>().ok()?;
    Some((
        uri.scheme_str().map(|s| s.to_owned()),
        uri.authority().map(|a| a.as_str().to_owned()),
        uri.host().map(|h| h.to_owned()),
        uri.path_and_query().map(|p| p.as_str().to_owned()),
    ))
}

/// What a URI is made of; nothing where the text is none.
pub open spec fn uri_of(text: Seq<char>) -> Option<UriView> {
    match parsed_uri(text) {
        Some(p) => Some(
            UriView { text, scheme: p.0, authority: p.1, host: p.2, path_and_query: p.3 },
        ),
        None => None,
    }
}

impl UriParts {
    /// Takes a URI apart.
    pub fn parse(text: &str) -> (parts: Option<UriParts>)
        ensures
            match parts {
                Some(p) => uri_of(text@) == Some(p@) && (p@.authority is Some <==> p@.host is Some),
                None => uri_of(text@) is None,
            },
    {
        match split_uri(text) {
            Some((scheme, authority, host, path_and_query)) => Some(
                UriParts { text: text.to_owned(), scheme, authority, host, path_and_query },
            ),
            None => None,
        }
    }
}

/// A URI that is put together out of a scheme, an authority and a path; nothing
/// where one of them is malformed.
pub uninterp spec fn built_uri(
    scheme: Seq<char>,
    authority: Seq<char>,
    path: Seq<char>,
) -> Option<Seq<char>>;

/// Whether a character may stand anywhere in a host name: a letter, a digit or
/// one of `!$&'()*+,-.;=_~`.
pub open spec fn is_host_char(c: char) -> bool {
    let v = c as u32;
    ||| 97 <= v <= 122
    ||| 65 <= v <= 90
    ||| 48 <= v <= 57
    ||| v == 33
    ||| v == 36
    ||| 38 <= v <= 46
    ||| v == 59
    ||| v == 61
    ||| v == 95
    ||| v == 126
}

/// Whether a text is a host name, with or without a port.
pub open spec fn plain_authority(s: Seq<char>) -> bool {
    &&& s.len() > 0
    &&& forall|i: int| 0 <= i < s.len() ==> is_host_char(#[trigger] s[i]) || s[i] == ':'
    &&& forall|i: int, j: int|
        0 <= i < j < s.len() && #[trigger] s[i] == ':' ==> #[trigger] s[j] != ':'
}

/// Whether a character may stand anywhere in a path with a query: a letter, a
/// digit or one of ``!$%&'()*+,-./:;=?@[\]^_|~``.
pub open spec fn is_path_char(c: char) -> bool {
    let v = c as u32;
    ||| v == 33
    ||| 36 <= v <= 59
    ||| v == 61
    ||| 63 <= v <= 95
    ||| 97 <= v <= 122
    ||| v == 124
    ||| v == 126
}

/// Whether a text is empty, or a path with whatever query: it starts with a
/// slash, has no fragment, and is not too long.
pub open spec fn rooted_path(s: Seq<char>) -> bool {
    s.len() == 0 || s[0] == '/' && !s.contains('#') && s.len() < 65535
}

/// Whether a text is empty, or a path of ordinary characters with whatever
/// query.
pub open spec fn plain_path(s: Seq<char>) -> bool {
    rooted_path(s) && forall|i: int| 0 <= i < s.len() ==> is_path_char(#[trigger] s[i])
}

/// A path as it stands in a URI, where an empty one is a slash.
pub open spec fn path_text(s: Seq<char>) -> Seq<char> {
    if s.len() == 0 {
        "/"@
    } else {
        s
    }
}

/// `http::Uri::builder` puts a URI together, or rejects a part of it. With a path
/// that is empty or starts with a slash, the text of what it gives is the scheme,
/// `://`, the authority and the path. It does not reject the two usual schemes
/// with a host name, with or without a port, and a path of ordinary characters.
#[verifier::external_body]
pub(crate) fn build_uri(scheme: &str, authority: &str, path: &str) -> (uri: Option<String>)
    ensures
        opt_text(uri) == built_uri(scheme@, authority@, path@),
        rooted_path(path@) && uri is Some ==> uri->Some_0@ == scheme@ + "://"@ + authority@
            + path_text(path@),
        (scheme@ == "http"@ || scheme@ == "https"@) && plain_authority(authority@) && plain_path(
            path@,
        ) ==> uri is Some,
{
    let builder = http::Uri::builder().scheme(scheme).authority(authority).path_and_query(path);
    builder.build().ok().map(|uri| uri.to_string())
}

} // verus!
