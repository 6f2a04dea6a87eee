//! Numbers shared by the versions of the Internet Protocol.

use vstd::prelude::*;

verus! {

/// The version of the Internet Protocol.
#[allow(non_camel_case_types)]
#[derive(Debug, Clone, Copy)]
pub enum IpVersion {
    v4,
    v6,
}

impl IpVersion {
    /// The number that the version field holds.
    pub open spec fn spec_code(&self) -> u8 {
        match self {
            IpVersion::v4 => 4,
            IpVersion::v6 => 6,
        }
    }

    /// The number that the version field holds.
    #[verifier::when_used_as_spec(spec_code)]
    pub fn code(&self) -> (code: u8)
        ensures
            code == self.spec_code(),
    {
        match self {
            IpVersion::v4 => 4,
            IpVersion::v6 => 6,
        }
    }
}

/// The protocol that an IP packet carries.
#[derive(Debug, Clone, Copy)]
pub enum IpProtocol {
    ICMP,
    TCP,
    UDP,
}

impl IpProtocol {
    /// The number assigned to the protocol.
    pub open spec fn spec_code(&self) -> u8 {
        match self {
            IpProtocol::ICMP => 1,
            IpProtocol::TCP => 6,
            IpProtocol::UDP => 17,
        }
    }

    /// The number assigned to the protocol.
    #[verifier::when_used_as_spec(spec_code)]
    pub fn code(&self) -> (code: u8)
        ensures
            code == self.spec_code(),
    {
        match self {
            IpProtocol::ICMP => 1,
            IpProtocol::TCP => 6,
            IpProtocol::UDP => 17,
        }
    }
}

} // verus!
