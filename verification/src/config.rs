//! Settings that come from the environment.
use vstd::prelude::*;

use crate::text::{opt_text, parse_port, port_of};
use crate::uri::{uri_of, UriParts};

verus! {

/// The port of the metadata API, unless told otherwise.
pub const METADATA_PORT: u16 = 5553;

/// The port of the API that grants tunnels, unless told otherwise.
pub const CONNECTION_PORT: u16 = 5554;

/// A port: the number that a setting holds, or else the usual one.
pub fn port_setting(setting: Option<String>, usual: u16) -> (port: u16)
    ensures
        port == (match setting {
            Some(text) => match port_of(text@) {
                Some(p) => p,
                None => usual,
            },
            None => usual,
        }),
{
    match setting {
        Some(text) => match parse_port(text.as_str()) {
            Some(port) => port,
            None => usual,
        },
        None => usual,
    }
}

/// The first of some texts that there is, or else the last one.
pub open spec fn first_of(
    setting: Option<Seq<char>>,
    built_in: Option<Seq<char>>,
    usual: Seq<char>,
) -> Seq<char> {
    match setting {
        Some(text) => text,
        None => match built_in {
            Some(text) => text,
            None => usual,
        },
    }
}

/// The domain under which tunnels are reached: what a setting holds, or else
/// what was chosen when the program was built.
pub fn base_domain(setting: Option<String>, built_in: Option<String>) -> (domain: String)
    ensures
        domain@ == first_of(opt_text(setting), opt_text(built_in), "local.tinytun.com"@),
{
    match setting {
        Some(text) => text,
        None => match built_in {
            Some(text) => text,
            None => "local.tinytun.com".to_owned(),
        },
    }
}

/// The address of the server: what a setting holds, if it is a URI, or else what
/// was chosen when the program was built.
pub fn server_url(setting: Option<String>, built_in: Option<String>) -> (url: String)
    ensures
        url@ == first_of(
            if setting is Some && uri_of(setting->Some_0@) is Some {
                opt_text(setting)
            } else {
                None
            },
            opt_text(built_in),
            "http://local.tinytun.com:5554"@,
        ),
{
    if let Some(text) = setting {
        if UriParts::parse(text.as_str()).is_some() {
            return text;
        }
    }
    match built_in {
        Some(text) => text,
        None => "http://local.tinytun.com:5554".to_owned(),
    }
}

} // verus!
