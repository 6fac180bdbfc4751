//! Socket addresses and their C `sockaddr_in` / `sockaddr_in6` form.
//!
//! The C structures are held as their fields: the family, the port and the
//! address as the bytes that stand in memory (network byte order), the IPv6
//! flow information and scope id, and the length of the structure. Encoding
//! an address fills them as the kernel expects; decoding goes by the length
//! the kernel reported, as `recvmsg` and `accept` fill it in.
use vstd::prelude::*;

verus! {

/// A socket address: IPv4 or IPv6, with its port.
#[derive(Clone, Copy, PartialEq, Eq, Debug)]
pub enum SockAddrValue {
    /// An IPv4 address (its 32 bits, most significant first) and port.
    V4 { ip: u32, port: u16 },
    /// An IPv6 address (its 16 octets), port, flow information and scope id.
    V6 { ip: [u8; 16], port: u16, flowinfo: u32, scope_id: u32 },
}

/// The fields of a C `sockaddr_in` or `sockaddr_in6`.
#[derive(Clone, Copy, PartialEq, Eq, Debug)]
pub struct CSockAddrBytes {
    /// `sin_family` / `sin6_family`.
    pub family: u16,
    /// The bytes of `sin_port` / `sin6_port`, in memory order.
    pub port: [u8; 2],
    /// The bytes of the address: `sin_addr` in the first four, or
    /// `sin6_addr`.
    pub addr: [u8; 16],
    /// `sin6_flowinfo` (0 for IPv4).
    pub flowinfo: u32,
    /// `sin6_scope_id` (0 for IPv4).
    pub scope_id: u32,
    /// The length of the structure.
    pub len: usize,
}

/// The two bytes of `x`, most significant first.
pub open spec fn be16(x: u16) -> Seq<u8> {
    seq![(x / 256) as u8, (x % 256) as u8]
}

/// The four bytes of `x`, most significant first.
pub open spec fn be32(x: u32) -> Seq<u8> {
    seq![(x / 0x100_0000) as u8, ((x / 0x1_0000) % 256) as u8, ((x / 256) % 256) as u8, (x % 256) as u8]
}

/// The number whose bytes, most significant first, are `b0`, `b1`.
pub open spec fn be16_value(b0: u8, b1: u8) -> u16 {
    (b0 * 256 + b1) as u16
}

/// The number whose bytes, most significant first, are `b0` .. `b3`.
pub open spec fn be32_value(b0: u8, b1: u8, b2: u8, b3: u8) -> u32 {
    (b0 * 0x100_0000 + b1 * 0x1_0000 + b2 * 256 + b3) as u32
}

/// `libc::AF_INET`, the IPv4 address family.
#[verifier::external_body]
fn af_inet() -> (r: u16)
    ensures
        r == 2,
{
    libc::AF_INET as u16
}

/// `libc::AF_INET6`, the IPv6 address family.
#[verifier::external_body]
fn af_inet6() -> (r: u16)
    ensures
        r == 10,
{
    libc::AF_INET6 as u16
}

/// `std::mem::size_of::<libc::sockaddr_in>()`: two 16-bit fields, a 32-bit
/// address and eight bytes of padding.
#[verifier::external_body]
fn sockaddr_in_len() -> (r: usize)
    ensures
        r == 16,
{
    std::mem::size_of::<libc::sockaddr_in>()
}

/// `std::mem::size_of::<libc::sockaddr_in6>()`: two 16-bit fields, two
/// 32-bit fields and a 16-byte address.
#[verifier::external_body]
fn sockaddr_in6_len() -> (r: usize)
    ensures
        r == 28,
{
    std::mem::size_of::<libc::sockaddr_in6>()
}

/// `libc::htons`, taken as the bytes it leaves in memory: network byte
/// order, most significant byte first, on every machine.
#[verifier::external_body]
fn htons_bytes(x: u16) -> (b: [u8; 2])
    ensures
        b@ == be16(x),
{
    libc::htons(x).to_ne_bytes()
}

/// `libc::htonl`, taken as the bytes it leaves in memory: network byte
/// order, most significant byte first, on every machine.
#[verifier::external_body]
fn htonl_bytes(x: u32) -> (b: [u8; 4])
    ensures
        b@ == be32(x),
{
    libc::htonl(x).to_ne_bytes()
}

/// `libc::ntohs` of the 16-bit field whose bytes in memory are `b`: the
/// number whose bytes, most significant first, they are.
#[verifier::external_body]
fn ntohs_bytes(b: [u8; 2]) -> (r: u16)
    ensures
        r == be16_value(b@[0], b@[1]),
{
    libc::ntohs(u16::from_ne_bytes(b))
}

/// `libc::ntohl` of the 32-bit field whose bytes in memory are `b`: the
/// number whose bytes, most significant first, they are.
#[verifier::external_body]
fn ntohl_bytes(b: [u8; 4]) -> (r: u32)
    ensures
        r == be32_value(b@[0], b@[1], b@[2], b@[3]),
{
    libc::ntohl(u32::from_ne_bytes(b))
}

/// Whether `c` is the C form of `a`: for IPv4 a `sockaddr_in` with the
/// port and address in network byte order and the rest zero; for IPv6 a
/// `sockaddr_in6` with the port in network byte order, the address octets,
/// and zero flow information and scope id.
pub open spec fn encodes(a: SockAddrValue, c: CSockAddrBytes) -> bool {
    &&& c.flowinfo == 0
    &&& c.scope_id == 0
    &&& match a {
        SockAddrValue::V4 { ip, port } => {
            &&& c.len == 16
            &&& c.family == 2
            &&& c.port@ == be16(port)
            &&& c.addr@ == be32(ip) + Seq::new(12, |i: int| 0u8)
        },
        SockAddrValue::V6 { ip, port, .. } => {
            &&& c.len == 28
            &&& c.family == 10
            &&& c.port@ == be16(port)
            &&& c.addr == ip
        },
    }
}

/// The address a C structure of length `c.len` holds: IPv4 for the length
/// of a `sockaddr_in`, IPv6 for that of a `sockaddr_in6`, none otherwise.
pub open spec fn decode_spec(c: CSockAddrBytes) -> Option<SockAddrValue> {
    if c.len == 16 {
        Some(
            SockAddrValue::V4 {
                ip: be32_value(c.addr@[0], c.addr@[1], c.addr@[2], c.addr@[3]),
                port: be16_value(c.port@[0], c.port@[1]),
            },
        )
    } else if c.len == 28 {
        Some(
            SockAddrValue::V6 {
                ip: c.addr,
                port: be16_value(c.port@[0], c.port@[1]),
                flowinfo: c.flowinfo,
                scope_id: c.scope_id,
            },
        )
    } else {
        None
    }
}

/// The C form of a socket address.
pub fn csock_from(a: SockAddrValue) -> (c: CSockAddrBytes)
    ensures
        encodes(a, c),
{
    match a {
        SockAddrValue::V4 { ip, port } => {
            let b = htonl_bytes(ip);
            let mut addr: [u8; 16] = [0u8; 16];
            addr[0] = b[0];
            addr[1] = b[1];
            addr[2] = b[2];
            addr[3] = b[3];
            assert(addr@ =~= be32(ip) + Seq::new(12, |i: int| 0u8));
            CSockAddrBytes {
                family: af_inet(),
                port: htons_bytes(port),
                addr,
                flowinfo: 0,
                scope_id: 0,
                len: sockaddr_in_len(),
            }
        },
        SockAddrValue::V6 { ip, port, .. } => CSockAddrBytes {
            family: af_inet6(),
            port: htons_bytes(port),
            addr: ip,
            flowinfo: 0,
            scope_id: 0,
            len: sockaddr_in6_len(),
        },
    }
}

/// The socket address a C structure holds, by its length; `None` when the
/// length is that of neither structure.
pub fn csock_to_addr(c: &CSockAddrBytes) -> (r: Option<SockAddrValue>)
    ensures
        r == decode_spec(*c),
{
    let port = ntohs_bytes(c.port);
    if c.len == sockaddr_in_len() {
        let ip = ntohl_bytes([c.addr[0], c.addr[1], c.addr[2], c.addr[3]]);
        Some(SockAddrValue::V4 { ip, port })
    } else if c.len == sockaddr_in6_len() {
        Some(SockAddrValue::V6 { ip: c.addr, port, flowinfo: c.flowinfo, scope_id: c.scope_id })
    } else {
        None
    }
}

/// Decoding the C form of a socket address gives the address back; an IPv6
/// address comes back whole only when its flow information and scope id are
/// zero, since the C form is made with zero in both.
pub proof fn law_sockaddr_roundtrip(a: SockAddrValue, c: CSockAddrBytes)
    requires
        encodes(a, c),
        a matches SockAddrValue::V6 { flowinfo, scope_id, .. } ==> flowinfo == 0 && scope_id == 0,
    ensures
        decode_spec(c) == Some(a),
{
    match a {
        SockAddrValue::V4 { ip, port } => {
            assert(c.addr@[0] == be32(ip)[0]);
            assert(c.addr@[1] == be32(ip)[1]);
            assert(c.addr@[2] == be32(ip)[2]);
            assert(c.addr@[3] == be32(ip)[3]);
            lemma_be32_roundtrip(ip);
            lemma_be16_roundtrip(port);
        },
        SockAddrValue::V6 { ip, port, .. } => {
            lemma_be16_roundtrip(port);
        },
    }
}

/// A 16-bit number is the number of its own two bytes.
proof fn lemma_be16_roundtrip(x: u16)
    ensures
        be16_value(be16(x)[0], be16(x)[1]) == x,
{
    assert(((x / 256) as u8) * 256 + ((x % 256) as u8) == x);
}

/// A 32-bit number is the number of its own four bytes.
proof fn lemma_be32_roundtrip(x: u32)
    ensures
        be32_value(be32(x)[0], be32(x)[1], be32(x)[2], be32(x)[3]) == x,
{
    let b = be32(x);
    assert(b[0] * 0x100_0000 + b[1] * 0x1_0000 + b[2] * 256 + b[3] == x);
}

/// Decoding reads the structure as the kernel filled it: a structure of
/// `sockaddr_in6` length (28) gives the IPv6 address of its address bytes,
/// the port of its port bytes taken most significant first, and its flow
/// information and scope id unchanged; one of `sockaddr_in` length (16) gives
/// the IPv4 address of its first four address bytes and the port, both
/// taken most significant first; any other length gives nothing.
pub proof fn law_decode_fields(c: CSockAddrBytes)
    ensures
        c.len == 28 ==> (decode_spec(c) matches Some(
            SockAddrValue::V6 { ip, port, flowinfo, scope_id },
        ) && ip == c.addr && port == c.port@[0] * 256 + c.port@[1] && flowinfo == c.flowinfo
            && scope_id == c.scope_id),
        c.len == 16 ==> (decode_spec(c) matches Some(SockAddrValue::V4 { ip, port }) && ip
            == c.addr@[0] * 0x100_0000 + c.addr@[1] * 0x1_0000 + c.addr@[2] * 256 + c.addr@[3]
            && port == c.port@[0] * 256 + c.port@[1]),
        c.len != 16 && c.len != 28 ==> decode_spec(c) is None,
{
    let b0 = c.port@[0];
    let b1 = c.port@[1];
    assert(0 <= b0 * 256 + b1 < 0x1_0000);
    let a0 = c.addr@[0];
    let a1 = c.addr@[1];
    let a2 = c.addr@[2];
    let a3 = c.addr@[3];
    assert(0 <= a0 * 0x100_0000 + a1 * 0x1_0000 + a2 * 256 + a3 < 0x1_0000_0000);
}

/// The C form of an address holds its fields as the kernel expects them:
/// for IPv4, family 2 (`AF_INET`), length 16, the port's bytes most
/// significant first, the address's four bytes most significant first and
/// zero in the rest; for IPv6, family 10 (`AF_INET6`), length 28, the port's
/// bytes most significant first and the sixteen address octets; flow
/// information and scope id are zero.
pub proof fn law_encoding_fields(a: SockAddrValue, c: CSockAddrBytes)
    requires
        encodes(a, c),
    ensures
        c.flowinfo == 0,
        c.scope_id == 0,
        a matches SockAddrValue::V4 { ip, port } ==> {
            &&& c.len == 16
            &&& c.family == 2
            &&& c.port@[0] == port / 256
            &&& c.port@[1] == port % 256
            &&& c.addr@[0] == ip / 0x100_0000
            &&& c.addr@[1] == (ip / 0x1_0000) % 256
            &&& c.addr@[2] == (ip / 256) % 256
            &&& c.addr@[3] == ip % 256
            &&& forall|i: int| 4 <= i < 16 ==> #[trigger] c.addr@[i] == 0
        },
        a matches SockAddrValue::V6 { ip, port, .. } ==> {
            &&& c.len == 28
            &&& c.family == 10
            &&& c.port@[0] == port / 256
            &&& c.port@[1] == port % 256
            &&& c.addr == ip
        },
{
    match a {
        SockAddrValue::V4 { ip, port } => {
            assert forall|i: int| 4 <= i < 16 implies #[trigger] c.addr@[i] == 0 by {
                assert(c.addr@[i] == (be32(ip) + Seq::new(12, |j: int| 0u8))[i]);
            }
        },
        _ => {},
    }
}

} // verus!
