//! Names under which tunnels are reached.
use vstd::prelude::*;
use vstd::string::*;

use crate::text::{decimal, decimal_reads_back, decimal_text, parse_port, port_of, same_text};

verus! {

/// The name of a tunnel: a subdomain for HTTP traffic, a port for TCP traffic.
#[derive(Debug, Eq, Hash)]
pub enum TunnelName {
    /// Reached as the first label of the requested host.
    Subdomain(String),
    /// Reached at this port.
    PortNumber(u16),
}

/// A tunnel name by its characters.
pub enum NameView {
    /// See [`TunnelName::Subdomain`].
    Subdomain(Seq<char>),
    /// See [`TunnelName::PortNumber`].
    PortNumber(u16),
}

impl View for TunnelName {
    type V = NameView;

    open spec fn view(&self) -> NameView {
        match self {
            TunnelName::Subdomain(s) => NameView::Subdomain(s@),
            TunnelName::PortNumber(p) => NameView::PortNumber(*p),
        }
    }
}

impl NameView {
    /// How a name is written: a subdomain as it is, a port after a colon.
    pub open spec fn text(self) -> Seq<char> {
        match self {
            NameView::Subdomain(s) => s,
            NameView::PortNumber(p) => seq![':'] + decimal(p as nat),
        }
    }

    /// Whether a text names this: a subdomain is named by itself, a port by any
    /// text that denotes its number.
    pub open spec fn named_by(self, text: Seq<char>) -> bool {
        match self {
            NameView::Subdomain(s) => s == text,
            NameView::PortNumber(p) => port_of(text) == Some(p),
        }
    }
}

impl Clone for TunnelName {
    fn clone(&self) -> (copy: TunnelName)
        ensures
            copy == *self,
    {
        match self {
            TunnelName::Subdomain(s) => TunnelName::Subdomain(s.clone()),
            TunnelName::PortNumber(p) => TunnelName::PortNumber(*p),
        }
    }
}

impl PartialEq for TunnelName {
    fn eq(&self, other: &TunnelName) -> (same: bool) {
        match (self, other) {
            (TunnelName::Subdomain(a), TunnelName::Subdomain(b)) => {
                same_text(a.as_str(), b.as_str())
            },
            (TunnelName::PortNumber(a), TunnelName::PortNumber(b)) => *a == *b,
            _ => false,
        }
    }
}

impl vstd::std_specs::cmp::PartialEqSpecImpl for TunnelName {
    open spec fn obeys_eq_spec() -> bool {
        true
    }

    open spec fn eq_spec(&self, other: &TunnelName) -> bool {
        self@ == other@
    }
}

impl PartialEq<str> for TunnelName {
    fn eq(&self, other: &str) -> (same: bool) {
        match self {
            TunnelName::Subdomain(subdomain) => same_text(subdomain.as_str(), other),
            TunnelName::PortNumber(port) => match parse_port(other) {
                Some(p) => p == *port,
                None => false,
            },
        }
    }
}

impl vstd::std_specs::cmp::PartialEqSpecImpl<str> for TunnelName {
    open spec fn obeys_eq_spec() -> bool {
        true
    }

    open spec fn eq_spec(&self, other: &str) -> bool {
        self@.named_by(other@)
    }
}

impl TunnelName {
    /// The name as text.
    pub fn to_text(&self) -> (text: String)
        ensures
            text@ == self@.text(),
    {
        match self {
            TunnelName::Subdomain(s) => s.clone(),
            TunnelName::PortNumber(p) => {
                let mut text = String::new();
                text.push(':');
                text.append(decimal_text(*p).as_str());
                proof {
                    assert(text@ =~= seq![':'] + decimal(*p as nat));
                }
                text
            },
        }
    }
}

/// A port is named by its number in decimal, and by no other port's.
pub proof fn a_port_is_named_by_its_number(port: u16, other: u16)
    ensures
        NameView::PortNumber(port).named_by(decimal(other as nat)) <==> port == other,
{
    decimal_reads_back(other);
}

} // verus!
