//! Keeping a tunnel up.
use vstd::prelude::*;
use vstd::string::*;

use crate::text::{decimal, decimal_text, opt_text};

verus! {

/// Seconds to wait before a tunnel is asked for again.
pub const RETRY_DELAY: u64 = 2;

/// How many retries there may have been when a request fails.
pub const MAX_FAILED_RETRIES: u32 = 10;

/// How many retries there may have been when a tunnel closes.
pub const MAX_CLOSED_RETRIES: u32 = 20;

/// How often a tunnel has been asked for again.
#[derive(Debug)]
pub struct Reconnect {
    retries: u32,
}

impl View for Reconnect {
    type V = nat;

    closed spec fn view(&self) -> nat {
        self.retries as nat
    }
}

/// Whether a client goes on after so many retries, given whether a tunnel came up
/// and closed, or none came up.
pub open spec fn goes_on(retries: nat, came_up: bool) -> bool {
    if came_up {
        retries <= MAX_CLOSED_RETRIES
    } else {
        retries <= MAX_FAILED_RETRIES
    }
}

impl Reconnect {
    #[verifier::type_invariant]
    spec fn well_formed(self) -> bool {
        self.retries <= MAX_CLOSED_RETRIES + 1
    }

    /// No tunnel has been asked for again.
    pub fn new() -> (reconnect: Reconnect)
        ensures
            reconnect@ == 0,
    {
        Reconnect { retries: 0 }
    }

    /// What the user is told when a tunnel is up: where it is, the first time.
    pub fn announcement(&self, proxy_url: &str) -> (text: Option<String>)
        ensures
            opt_text(text) == (if self@ == 0 {
                Some("Forwarding via: "@ + proxy_url@)
            } else {
                None
            }),
    {
        if self.retries == 0 {
            let mut text: String = "Forwarding via: ".to_owned();
            text.append(proxy_url);
            Some(text)
        } else {
            None
        }
    }

    /// Whether to go on after a request for a tunnel has failed.
    pub fn failed(&mut self) -> (again: bool)
        requires
            old(self)@ <= MAX_CLOSED_RETRIES,
        ensures
            final(self)@ == old(self)@ + 1,
            again == goes_on(final(self)@, false),
    {
        proof {
            use_type_invariant(&*self);
        }
        self.retries = self.retries + 1;
        self.retries <= MAX_FAILED_RETRIES
    }

    /// Whether to go on after a tunnel has closed.
    pub fn closed(&mut self) -> (again: bool)
        requires
            old(self)@ <= MAX_CLOSED_RETRIES,
        ensures
            final(self)@ == old(self)@ + 1,
            again == goes_on(final(self)@, true),
    {
        proof {
            use_type_invariant(&*self);
        }
        self.retries = self.retries + 1;
        self.retries <= MAX_CLOSED_RETRIES
    }
}

/// The address of the local service at a port.
pub fn local_address(port: u16) -> (address: String)
    ensures
        address@ == "localhost:"@ + decimal(port as nat),
{
    let mut address: String = "localhost:".to_owned();
    address.append(decimal_text(port).as_str());
    address
}

/// How often a client goes on, given for each attempt whether a tunnel came up
/// and then closed, or none came up.
pub open spec fn attempts(outcomes: Seq<bool>, retries: nat) -> nat
    decreases outcomes.len(),
{
    if outcomes.len() == 0 {
        0
    } else {
        if goes_on(retries + 1, outcomes[0]) {
            1 + attempts(outcomes.skip(1), retries + 1)
        } else {
            0
        }
    }
}

/// Whatever happens, a client gives up after a bounded number of attempts.
pub proof fn a_client_gives_up(outcomes: Seq<bool>, retries: nat)
    ensures
        attempts(outcomes, retries) + retries <= MAX_CLOSED_RETRIES || attempts(outcomes, retries)
            == 0,
    decreases outcomes.len(),
{
    if outcomes.len() > 0 {
        a_client_gives_up(outcomes.skip(1), retries + 1);
    }
}

/// A client that never gets a tunnel gives up after ten more attempts.
pub proof fn a_client_without_a_tunnel_gives_up(outcomes: Seq<bool>)
    requires
        outcomes.len() > MAX_FAILED_RETRIES,
        forall|i: int| 0 <= i < outcomes.len() ==> !#[trigger] outcomes[i],
    ensures
        attempts(outcomes, 0) == MAX_FAILED_RETRIES,
{
    failing_attempts(outcomes, 0);
}

/// Failing attempts count up to the bound.
proof fn failing_attempts(outcomes: Seq<bool>, retries: nat)
    requires
        retries <= MAX_FAILED_RETRIES,
        outcomes.len() > MAX_FAILED_RETRIES - retries,
        forall|i: int| 0 <= i < outcomes.len() ==> !#[trigger] outcomes[i],
    ensures
        attempts(outcomes, retries) == MAX_FAILED_RETRIES - retries,
    decreases outcomes.len(),
{
    assert(!outcomes[0]);
    if retries < MAX_FAILED_RETRIES {
        assert forall|i: int| 0 <= i < outcomes.skip(1).len() implies !#[trigger] outcomes.skip(
            1,
        )[i] by {
            assert(outcomes.skip(1)[i] == outcomes[i + 1]);
        }
        failing_attempts(outcomes.skip(1), retries + 1);
    }
}

} // verus!
