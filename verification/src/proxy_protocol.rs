//! The header with which a load balancer tells which port a connection was for:
//! the binary form of the PROXY protocol.
use vstd::prelude::*;
use vstd::slice::*;

verus! {

/// The length of the fixed part of the header.
pub const HEADER_SIZE: usize = 16;

/// Where the fixed part tells the address family and the transport.
pub const FAMILY_INDEX: usize = 13;

/// TCP over IPv6.
pub const TCP_OVER_IPV6: u8 = 0x21;

/// UDP over IPv6.
pub const UDP_OVER_IPV6: u8 = 0x22;

/// Where the destination port stands behind two addresses of IPv4 and the source
/// port.
pub const IPV4_PORT_OFFSET: usize = 10;

/// Where the destination port stands behind two addresses of IPv6 and the source
/// port.
pub const IPV6_PORT_OFFSET: usize = 34;

/// Why a connection does not tell its port.
#[derive(Debug, Clone, Copy, PartialEq, Eq, Structural)]
pub enum ProxyProtocolError {
    /// The connection ended within the header, or the header before the port.
    Truncated,
    /// The connection does not start with the signature.
    InvalidSignature,
}

impl ProxyProtocolError {
    /// What the error says.
    pub open spec fn text(self) -> Seq<char> {
        match self {
            ProxyProtocolError::Truncated => "early eof"@,
            ProxyProtocolError::InvalidSignature => "invalid proxy protocol v2 signature"@,
        }
    }

    /// What the error says.
    pub fn message(&self) -> (text: String)
        ensures
            text@ == self.text(),
    {
        match self {
            ProxyProtocolError::Truncated => "early eof".to_owned(),
            ProxyProtocolError::InvalidSignature => {
                "invalid proxy protocol v2 signature".to_owned()
            },
        }
    }
}

/// The bytes with which the header starts.
pub open spec fn signature() -> Seq<u8> {
    seq![0x0D, 0x0A, 0x0D, 0x0A, 0x00, 0x0D, 0x0A, 0x51, 0x55, 0x49, 0x54, 0x0A]
}

/// The number that two bytes denote, the higher one first.
pub open spec fn big_endian(high: u8, low: u8) -> u16 {
    (high * 256 + low) as u16
}

/// The length of the variable part, from the fixed part.
pub open spec fn body_size(header: Seq<u8>) -> Result<u16, ProxyProtocolError> {
    if header.take(12) == signature() {
        Ok(big_endian(header[14], header[15]))
    } else {
        Err(ProxyProtocolError::InvalidSignature)
    }
}

/// Where the destination port stands in the variable part. Every family but IPv6
/// is read as IPv4 is.
pub open spec fn port_offset(family: u8) -> int {
    if family == TCP_OVER_IPV6 || family == UDP_OVER_IPV6 {
        IPV6_PORT_OFFSET as int
    } else {
        IPV4_PORT_OFFSET as int
    }
}

/// The destination port, from the variable part, if that reaches so far.
pub open spec fn destination_port(family: u8, body: Seq<u8>) -> Result<u16, ProxyProtocolError> {
    let offset = port_offset(family);
    if body.len() < offset + 2 {
        Err(ProxyProtocolError::Truncated)
    } else {
        Ok(big_endian(body[offset], body[offset + 1]))
    }
}

/// The port that a connection was for, from the bytes with which it starts.
pub open spec fn proxied_port(bytes: Seq<u8>) -> Result<u16, ProxyProtocolError> {
    if bytes.len() < HEADER_SIZE {
        Err(ProxyProtocolError::Truncated)
    } else {
        match body_size(bytes.take(HEADER_SIZE as int)) {
            Err(err) => Err(err),
            Ok(size) => if bytes.len() < HEADER_SIZE + size {
                Err(ProxyProtocolError::Truncated)
            } else {
                destination_port(
                    bytes[FAMILY_INDEX as int],
                    bytes.subrange(HEADER_SIZE as int, HEADER_SIZE + size),
                )
            },
        }
    }
}

/// Reads the length of the variable part out of the fixed part.
pub fn read_body_size(header: &[u8]) -> (size: Result<u16, ProxyProtocolError>)
    requires
        header.len() == HEADER_SIZE,
    ensures
        size == body_size(header@),
{
    let matches = header[0] == 0x0D && header[1] == 0x0A && header[2] == 0x0D && header[3] == 0x0A
        && header[4] == 0x00 && header[5] == 0x0D && header[6] == 0x0A && header[7] == 0x51
        && header[8] == 0x55 && header[9] == 0x49 && header[10] == 0x54 && header[11] == 0x0A;
    proof {
        let front = header@.take(12);
        if matches {
            assert(front =~= signature());
        } else {
            assert(front != signature()) by {
                assert forall|i: int| 0 <= i < 12 implies #[trigger] front[i] == header@[i] by {}
                if front == signature() {
                    assert(header@[0] == signature()[0] && header@[1] == signature()[1]
                        && header@[2] == signature()[2] && header@[3] == signature()[3]
                        && header@[4] == signature()[4] && header@[5] == signature()[5]
                        && header@[6] == signature()[6] && header@[7] == signature()[7]
                        && header@[8] == signature()[8] && header@[9] == signature()[9]
                        && header@[10] == signature()[10] && header@[11] == signature()[11]);
                }
            }
        }
    }
    if matches {
        Ok(header[14] as u16 * 256 + header[15] as u16)
    } else {
        Err(ProxyProtocolError::InvalidSignature)
    }
}

/// Reads the destination port out of the variable part.
pub fn read_port(family: u8, body: &[u8]) -> (port: Result<u16, ProxyProtocolError>)
    ensures
        port == destination_port(family, body@),
{
    let offset: usize = if family == TCP_OVER_IPV6 || family == UDP_OVER_IPV6 {
        IPV6_PORT_OFFSET
    } else {
        IPV4_PORT_OFFSET
    };
    if body.len() < offset + 2 {
        Err(ProxyProtocolError::Truncated)
    } else {
        Ok(body[offset] as u16 * 256 + body[offset + 1] as u16)
    }
}

/// Reads the port that a connection was for out of the bytes with which it
/// starts.
pub fn parse_proxy_protocol(bytes: &[u8]) -> (port: Result<u16, ProxyProtocolError>)
    ensures
        port == proxied_port(bytes@),
{
    if bytes.len() < HEADER_SIZE {
        return Err(ProxyProtocolError::Truncated);
    }
    let header = slice_subrange(bytes, 0, HEADER_SIZE);
    proof {
        assert(bytes@.subrange(0, HEADER_SIZE as int) =~= bytes@.take(HEADER_SIZE as int));
    }
    match read_body_size(header) {
        Err(err) => Err(err),
        Ok(size) => {
            if bytes.len() - HEADER_SIZE < size as usize {
                return Err(ProxyProtocolError::Truncated);
            }
            let body = slice_subrange(bytes, HEADER_SIZE, HEADER_SIZE + size as usize);
            read_port(bytes[FAMILY_INDEX], body)
        },
    }
}

/// The two bytes of a number, the higher one first.
pub open spec fn two_bytes(n: u16) -> Seq<u8> {
    seq![(n / 256) as u8, (n % 256) as u8]
}

/// The header for a connection with two addresses, with whatever extensions.
pub open spec fn proxy_header(
    command: u8,
    family: u8,
    source: Seq<u8>,
    destination: Seq<u8>,
    source_port: u16,
    destination_port: u16,
    extensions: Seq<u8>,
) -> Seq<u8> {
    signature() + seq![command, family] + two_bytes(
        (source.len() + destination.len() + 4 + extensions.len()) as u16,
    ) + source + destination + two_bytes(source_port) + two_bytes(destination_port) + extensions
}

/// The destination port of a connection over IPv4 is read back, whatever the
/// connection sends after the header.
pub proof fn an_ipv4_port_is_read_back(
    command: u8,
    family: u8,
    source: Seq<u8>,
    destination: Seq<u8>,
    source_port: u16,
    destination_port: u16,
    extensions: Seq<u8>,
    data: Seq<u8>,
)
    requires
        family == 0x11 || family == 0x12,
        source.len() == 4,
        destination.len() == 4,
        12 + extensions.len() <= u16::MAX,
    ensures
        ({
            let bytes = proxy_header(
                command,
                family,
                source,
                destination,
                source_port,
                destination_port,
                extensions,
            ) + data;
            proxied_port(bytes) == Ok::<u16, ProxyProtocolError>(destination_port)
        }),
{
    a_port_is_read_back(
        command,
        family,
        source,
        destination,
        source_port,
        destination_port,
        extensions,
        data,
    );
}

/// The destination port of a connection over IPv6 is read back, whatever the
/// connection sends after the header.
pub proof fn an_ipv6_port_is_read_back(
    command: u8,
    family: u8,
    source: Seq<u8>,
    destination: Seq<u8>,
    source_port: u16,
    destination_port: u16,
    extensions: Seq<u8>,
    data: Seq<u8>,
)
    requires
        family == 0x21 || family == 0x22,
        source.len() == 16,
        destination.len() == 16,
        36 + extensions.len() <= u16::MAX,
    ensures
        ({
            let bytes = proxy_header(
                command,
                family,
                source,
                destination,
                source_port,
                destination_port,
                extensions,
            ) + data;
            proxied_port(bytes) == Ok::<u16, ProxyProtocolError>(destination_port)
        }),
{
    a_port_is_read_back(
        command,
        family,
        source,
        destination,
        source_port,
        destination_port,
        extensions,
        data,
    );
}

/// The destination port is read back where the addresses are of the size that
/// the family has.
proof fn a_port_is_read_back(
    command: u8,
    family: u8,
    source: Seq<u8>,
    destination: Seq<u8>,
    source_port: u16,
    destination_port: u16,
    extensions: Seq<u8>,
    data: Seq<u8>,
)
    requires
        source.len() + destination.len() + 2 == port_offset(family),
        port_offset(family) + 2 + extensions.len() <= u16::MAX,
    ensures
        ({
            let bytes = proxy_header(
                command,
                family,
                source,
                destination,
                source_port,
                destination_port,
                extensions,
            ) + data;
            proxied_port(bytes) == Ok::<u16, ProxyProtocolError>(destination_port)
        }),
{
    let offset = port_offset(family);
    let size = (offset + 2 + extensions.len()) as u16;
    let header = proxy_header(
        command,
        family,
        source,
        destination,
        source_port,
        destination_port,
        extensions,
    );
    let bytes = header + data;
    let front = bytes.take(HEADER_SIZE as int);
    assert(front.take(12) =~= signature());
    assert(bytes[FAMILY_INDEX as int] == family);
    assert(front[14] == two_bytes(size)[0]);
    assert(front[15] == two_bytes(size)[1]);
    assert(big_endian(front[14], front[15]) == size);
    let body = bytes.subrange(HEADER_SIZE as int, HEADER_SIZE + size);
    assert(body[offset] == bytes[HEADER_SIZE + offset]);
    assert(body[offset + 1] == bytes[HEADER_SIZE + offset + 1]);
    assert(bytes[HEADER_SIZE + offset] == two_bytes(destination_port)[0]);
    assert(bytes[HEADER_SIZE + offset + 1] == two_bytes(destination_port)[1]);
}

/// What does not start with the signature is rejected, whatever it is.
pub proof fn other_protocols_are_rejected(bytes: Seq<u8>)
    requires
        bytes.len() >= HEADER_SIZE,
        bytes.take(12) != signature(),
    ensures
        proxied_port(bytes) == Err::<u16, ProxyProtocolError>(ProxyProtocolError::InvalidSignature),
{
    assert(bytes.take(HEADER_SIZE as int).take(12) =~= bytes.take(12));
}

} // verus!
