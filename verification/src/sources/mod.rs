//! Host sources: the backends that decide leases and options.

pub mod cache;
pub mod encoding;
pub mod headers;
pub mod mapping;
pub mod phases;
pub mod query;
pub mod rest;
pub mod script;

use crate::address::Ipv4Address;
use crate::option::DhcpOptions;
use vstd::prelude::*;

verus! {

/// What a source answers for one packet: the address it assigns to the
/// client, if it assigns one, and the options of the response.
#[derive(Debug)]
pub struct DhcpSourceResult {
    client_ip_address: Option<Ipv4Address>,
    options: DhcpOptions,
}

impl DhcpSourceResult {
    /// The address that the result assigns, for contracts to speak of.
    pub closed spec fn spec_client_ip_address(&self) -> Option<Ipv4Address> {
        self.client_ip_address
    }

    /// The options of the result, for contracts to speak of.
    pub closed spec fn spec_options(&self) -> DhcpOptions {
        self.options
    }

    /// A result with the given address and options.
    pub fn new(client_ip_address: Option<Ipv4Address>, options: DhcpOptions) -> (r: Self)
        ensures
            r.spec_client_ip_address() == client_ip_address,
            r.spec_options() == options,
    {
        Self { client_ip_address, options }
    }

    /// The address that the source assigns to the client.
    #[verifier::when_used_as_spec(spec_client_ip_address)]
    pub fn client_ip_address(&self) -> (r: Option<Ipv4Address>)
        ensures
            r == self.spec_client_ip_address(),
    {
        self.client_ip_address
    }

    /// The options that the source sets.
    pub fn options(&self) -> (r: &DhcpOptions)
        ensures
            *r == self.spec_options(),
    {
        &self.options
    }

    /// Gives up the result for its options.
    pub fn into_options(self) -> (r: DhcpOptions)
        ensures
            r == self.spec_options(),
    {
        self.options
    }
}

} // verus!
