use vstd::prelude::*;
use vstd::string::StringSliceAdditionalSpecFns;
use crate::address::{ipv4_of, ipv6_of, parse_ipv4, parse_ipv6};
use crate::hex::{decode_hex_32, hex_to_32_bytes};

verus! {

/// A network address: the four octets of an IPv4 address, or the eight
/// 16-bit groups of an IPv6 address.
#[derive(Clone, Copy, Debug, PartialEq, Eq)]
pub enum IpAddress {
    V4([u8; 4]),
    V6([u16; 8]),
}

/// The field whose text could not be read.
#[derive(Clone, Copy, Debug, PartialEq, Eq, Structural)]
pub enum DecodeError {
    /// The commitment is not 64 hexadecimal digits.
    Commitment,
    /// The IPv4 address is not a dotted IPv4 address.
    Ip4Addr,
    /// The IPv6 address is not an IPv6 address.
    Ip6Addr,
}

/// What a name resolves to: the commitment that its record is expected to
/// have, and the addresses at which the record can be fetched. Each of them
/// may be absent.
#[derive(Clone, Copy, Debug, PartialEq, Eq)]
pub struct BitnameInfo {
    pub commitment: Option<[u8; 32]>,
    pub ip4_addr: Option<[u8; 4]>,
    pub ip6_addr: Option<[u16; 8]>,
}

/// The content of a descriptor.
pub struct Descriptor {
    pub commitment: Option<Seq<u8>>,
    pub ip4_addr: Option<Seq<u8>>,
    pub ip6_addr: Option<Seq<u16>>,
}

/// The bytes of a text that may be absent.
pub open spec fn text_bytes(text: Option<&str>) -> Option<Seq<u8>> {
    match text {
        Some(t) => Some(t.spec_bytes()),
        None => None,
    }
}

/// Whether a field is present and its text does not read.
pub open spec fn malformed<T>(
    text: Option<Seq<u8>>,
    reading: spec_fn(Seq<u8>) -> Option<T>,
) -> bool {
    text is Some && reading(text.unwrap()) is None
}

/// What a field holds: what its text reads as, where it is present.
pub open spec fn field_value<T>(
    text: Option<Seq<u8>>,
    reading: spec_fn(Seq<u8>) -> Option<T>,
) -> Option<T> {
    match text {
        Some(t) => reading(t),
        None => None,
    }
}

/// What the texts of the three fields decode to: the descriptor that holds
/// what each present field reads as, or, where the text of a field does not
/// read, the first such field.
pub open spec fn decode_of(
    commitment: Option<Seq<u8>>,
    ip4_addr: Option<Seq<u8>>,
    ip6_addr: Option<Seq<u8>>,
) -> Result<Descriptor, DecodeError> {
    if malformed(commitment, |t: Seq<u8>| hex_to_32_bytes(t)) {
        Err(DecodeError::Commitment)
    } else if malformed(ip4_addr, |t: Seq<u8>| ipv4_of(t)) {
        Err(DecodeError::Ip4Addr)
    } else if malformed(ip6_addr, |t: Seq<u8>| ipv6_of(t)) {
        Err(DecodeError::Ip6Addr)
    } else {
        Ok(
            Descriptor {
                commitment: field_value(commitment, |t: Seq<u8>| hex_to_32_bytes(t)),
                ip4_addr: field_value(ip4_addr, |t: Seq<u8>| ipv4_of(t)),
                ip6_addr: field_value(ip6_addr, |t: Seq<u8>| ipv6_of(t)),
            },
        )
    }
}

/// The address that a descriptor with these addresses resolves to: the IPv6
/// address where there is one, else the IPv4 address.
pub open spec fn resolved_address(ip4_addr: Option<[u8; 4]>, ip6_addr: Option<[u16; 8]>) -> Option<
    IpAddress,
> {
    match ip6_addr {
        Some(groups) => Some(IpAddress::V6(groups)),
        None => match ip4_addr {
            Some(octets) => Some(IpAddress::V4(octets)),
            None => None,
        },
    }
}

impl BitnameInfo {
    /// The content of the descriptor.
    pub open spec fn view(&self) -> Descriptor {
        Descriptor {
            commitment: match self.commitment {
                Some(c) => Some(c@),
                None => None,
            },
            ip4_addr: match self.ip4_addr {
                Some(a) => Some(a@),
                None => None,
            },
            ip6_addr: match self.ip6_addr {
                Some(a) => Some(a@),
                None => None,
            },
        }
    }

    /// Decodes a descriptor from the texts of its fields: the commitment as
    /// 64 hexadecimal digits, the addresses in their usual notation. A field
    /// that is present and does not read fails the whole descriptor.
    pub fn decode(
        commitment: Option<&str>,
        ip4_addr: Option<&str>,
        ip6_addr: Option<&str>,
    ) -> (outcome: Result<BitnameInfo, DecodeError>)
        ensures
            match outcome {
                Ok(info) => decode_of(
                    text_bytes(commitment),
                    text_bytes(ip4_addr),
                    text_bytes(ip6_addr),
                ) == Ok::<Descriptor, DecodeError>(info@),
                Err(error) => decode_of(
                    text_bytes(commitment),
                    text_bytes(ip4_addr),
                    text_bytes(ip6_addr),
                ) == Err::<Descriptor, DecodeError>(error),
            },
    {
        let commitment = match commitment {
            Some(text) => match decode_hex_32(text.as_bytes()) {
                Some(bytes) => Some(bytes),
                None => {
                    return Err(DecodeError::Commitment);
                },
            },
            None => None,
        };
        let ip4_addr = match ip4_addr {
            Some(text) => match parse_ipv4(text.as_bytes()) {
                Some(octets) => Some(octets),
                None => {
                    return Err(DecodeError::Ip4Addr);
                },
            },
            None => None,
        };
        let ip6_addr = match ip6_addr {
            Some(text) => match parse_ipv6(text.as_bytes()) {
                Some(groups) => Some(groups),
                None => {
                    return Err(DecodeError::Ip6Addr);
                },
            },
            None => None,
        };
        Ok(BitnameInfo { commitment, ip4_addr, ip6_addr })
    }

    /// The address at which to fetch the record: the IPv6 address where
    /// there is one, else the IPv4 address, else none.
    pub fn ip_addr(&self) -> (address: Option<IpAddress>)
        ensures
            address == resolved_address(self.ip4_addr, self.ip6_addr),
    {
        match self.ip6_addr {
            Some(groups) => Some(IpAddress::V6(groups)),
            None => match self.ip4_addr {
                Some(octets) => Some(IpAddress::V4(octets)),
                None => None,
            },
        }
    }
}

} // verus!
