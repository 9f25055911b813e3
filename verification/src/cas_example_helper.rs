//! The decisions behind the shared BACnet/IP plumbing: the 6-byte IPv4
//! connection string (4 IP octets, then the UDP port BIG-endian), which
//! received datagrams are handed to the stack, the local subnet broadcast
//! address that I-Am targets, and the `--port` / `--deviceID` command-line
//! values.
//!
//! The socket, the native stack's callbacks and the console stay with the
//! application; it hands these functions plain values.
use vstd::prelude::*;
use vstd::string::StringExecFns;

use crate::text::{parse_unsigned, parse_unsigned_at_most};

verus! {

/// The version of these shared helpers (not of an application built on them).
pub const COMMON_VERSION: &'static str = "1.0.0";

/// Length of a BACnet/IP connection string: 4 IP octets and 2 port bytes.
pub const IPV4_CONNECTION_STRING_LEN: usize = 6;

// ---------------------------------------------------------------------------
// Connection strings
// ---------------------------------------------------------------------------

/// The connection string of `ip`:`port`: the four octets, then the port
/// big-endian.
pub open spec fn connection_string(ip: Seq<u8>, port: u16) -> Seq<u8> {
    ip + seq![(port / 256) as u8, (port % 256) as u8]
}

/// The port that a connection string names: bytes 4 and 5, big-endian.
pub open spec fn connection_string_port(cs: Seq<u8>) -> int {
    cs[4] * 256 + cs[5]
}

/// The 6-byte connection string of `ip`:`port`.
pub fn encode_connection_string(ip: [u8; 4], port: u16) -> (cs: [u8; 6])
    ensures
        cs@ == connection_string(ip@, port),
        cs[0] == ip[0] && cs[1] == ip[1] && cs[2] == ip[2] && cs[3] == ip[3],
        cs[4] == port / 256 && cs[5] == port % 256,
{
    let cs: [u8; 6] = [ip[0], ip[1], ip[2], ip[3], (port / 256) as u8, (port % 256) as u8];
    assert(cs@ =~= connection_string(ip@, port));
    cs
}

/// The IP octets and port that a connection string names, or `None` when it is
/// shorter than 6 bytes. Bytes past the sixth are not read.
pub fn decode_connection_string(cs: &[u8]) -> (r: Option<([u8; 4], u16)>)
    ensures
        r is None <==> cs@.len() < 6,
        r matches Some((ip, port)) ==> ip@ == cs@.take(4) && port == connection_string_port(cs@)
            && port == cs@[4] * 256 + cs@[5],
{
    if cs.len() < IPV4_CONNECTION_STRING_LEN {
        return None;
    }
    let ip: [u8; 4] = [cs[0], cs[1], cs[2], cs[3]];
    let port: u16 = (cs[4] as u16) * 256 + (cs[5] as u16);
    assert(ip@ =~= cs@.take(4));
    Some((ip, port))
}

/// A connection string reads back as the address and port it was made of, and
/// the first six bytes of any connection string are made again from what they
/// read as.
pub proof fn lemma_connection_string_round_trip(ip: Seq<u8>, port: u16, cs: Seq<u8>)
    requires
        ip.len() == 4,
        cs.len() >= 6,
    ensures
        connection_string(ip, port).len() == 6,
        connection_string(ip, port).take(4) == ip,
        connection_string_port(connection_string(ip, port)) == port,
        connection_string(cs.take(4), connection_string_port(cs) as u16) == cs.take(6),
{
    assert(connection_string(ip, port).take(4) =~= ip);
    assert(connection_string(cs.take(4), connection_string_port(cs) as u16) =~= cs.take(6));
}

// ---------------------------------------------------------------------------
// Received datagrams
// ---------------------------------------------------------------------------

/// What the receive callback reports for a datagram of `message_len` bytes
/// from `from_ip`:`from_port`, when the stack's buffer holds
/// `max_message_length` bytes: its length and source connection string, or
/// `None` when it does not fit and is dropped.
pub fn frame_received_datagram(
    message_len: usize,
    max_message_length: u16,
    from_ip: [u8; 4],
    from_port: u16,
) -> (r: Option<(u16, [u8; 6])>)
    ensures
        r is None <==> message_len > max_message_length,
        r matches Some((len, cs)) ==> len == message_len && cs@ == connection_string(
            from_ip@,
            from_port,
        ),
{
    if message_len > max_message_length as usize {
        return None;
    }
    Some((message_len as u16, encode_connection_string(from_ip, from_port)))
}

// ---------------------------------------------------------------------------
// Local IPv4 addressing
// ---------------------------------------------------------------------------

/// The primary IPv4 interface's address, netmask, and derived broadcast
/// address, as octets.
pub struct LocalIpv4 {
    pub address: [u8; 4],
    pub netmask: [u8; 4],
    pub broadcast: [u8; 4],
}

/// The broadcast address of the subnet of `address` under `netmask`: the
/// network bits of the address with every host bit set.
pub open spec fn subnet_broadcast(address: [u8; 4], netmask: [u8; 4]) -> Seq<u8> {
    seq![
        address[0] | !netmask[0],
        address[1] | !netmask[1],
        address[2] | !netmask[2],
        address[3] | !netmask[3],
    ]
}

/// The addressing reported for the outbound interface address `address`. A
/// loopback address (127.0.0.0/8) is reported as 127.0.0.1 / 255.0.0.0 /
/// 127.255.255.255; any other address is assumed to be on a /24
/// (255.255.255.0) network, with the subnet broadcast derived from it.
pub fn local_ipv4_from_address(address: [u8; 4]) -> (r: LocalIpv4)
    ensures
        address[0] == 127 ==> r.address@ == seq![127u8, 0, 0, 1] && r.netmask@ == seq![
            255u8,
            0,
            0,
            0,
        ] && r.broadcast@ == seq![127u8, 255, 255, 255],
        address[0] != 127 ==> r.address == address && r.netmask@ == seq![255u8, 255, 255, 0]
            && r.broadcast@ == seq![address[0], address[1], address[2], 255u8],
        r.broadcast@ == subnet_broadcast(r.address, r.netmask),
{
    if address[0] == 127 {
        let r = LocalIpv4 {
            address: [127, 0, 0, 1],
            netmask: [255, 0, 0, 0],
            broadcast: [127, 255, 255, 255],
        };
        assert(r.address@ =~= seq![127u8, 0, 0, 1]);
        assert(r.netmask@ =~= seq![255u8, 0, 0, 0]);
        assert(r.broadcast@ =~= seq![127u8, 255, 255, 255]);
        assert(127u8 | !255u8 == 127u8) by (bit_vector);
        assert(0u8 | !0u8 == 255u8) by (bit_vector);
        assert(1u8 | !0u8 == 255u8) by (bit_vector);
        assert(r.broadcast@ =~= subnet_broadcast(r.address, r.netmask));
        return r;
    }
    let netmask: [u8; 4] = [255, 255, 255, 0];
    let broadcast: [u8; 4] = [
        address[0] | !netmask[0],
        address[1] | !netmask[1],
        address[2] | !netmask[2],
        address[3] | !netmask[3],
    ];
    let a0 = address[0];
    let a1 = address[1];
    let a2 = address[2];
    let a3 = address[3];
    assert(a0 | !255u8 == a0) by (bit_vector);
    assert(a1 | !255u8 == a1) by (bit_vector);
    assert(a2 | !255u8 == a2) by (bit_vector);
    assert(a3 | !0u8 == 255u8) by (bit_vector);
    let r = LocalIpv4 { address, netmask, broadcast };
    assert(r.netmask@ =~= seq![255u8, 255, 255, 0]);
    assert(r.broadcast@ =~= seq![address[0], address[1], address[2], 255u8]);
    assert(r.broadcast@ =~= subnet_broadcast(r.address, r.netmask));
    r
}

/// The subnet broadcast keeps the network bits of the address and sets every
/// host bit.
pub proof fn lemma_subnet_broadcast_bits(address: [u8; 4], netmask: [u8; 4])
    ensures
        forall|i: int|
            0 <= i < 4 ==> (#[trigger] subnet_broadcast(address, netmask)[i]) & netmask[i]
                == address[i] & netmask[i] && subnet_broadcast(address, netmask)[i] | netmask[i]
                == 255u8,
{
    assert forall|i: int| 0 <= i < 4 implies (#[trigger] subnet_broadcast(address, netmask)[i])
        & netmask[i] == address[i] & netmask[i] && subnet_broadcast(address, netmask)[i]
        | netmask[i] == 255u8 by {
        let a = address[i];
        let m = netmask[i];
        assert(subnet_broadcast(address, netmask)[i] == a | !m);
        assert((a | !m) & m == a & m && (a | !m) | m == 255u8) by (bit_vector);
    }
}

// ---------------------------------------------------------------------------
// Command-line values
// ---------------------------------------------------------------------------

/// The message for a `--port` value that is not an integer 1..65535.
pub open spec fn port_message(raw: Seq<char>) -> Seq<char> {
    "--port expects an integer 1..65535, got \""@ + raw + "\""@
}

/// The message for a `--deviceID` value that is not an integer 0..4194302.
pub open spec fn device_id_message(raw: Seq<char>) -> Seq<char> {
    "--deviceID expects an integer 0..4194302, got \""@ + raw + "\""@
}

/// `--port <n>`: an integer 1..65535, written in decimal with an optional
/// leading '+'.
pub fn parse_port(raw: &str) -> (r: Result<u16, String>)
    ensures
        r is Ok <==> (parse_unsigned(raw@) matches Some(n) && 1 <= n <= 65535),
        r matches Ok(v) ==> parse_unsigned(raw@) == Some(v as nat),
        r matches Err(m) ==> m@ == port_message(raw@),
{
    match parse_unsigned_at_most(raw, 65535) {
        Some(v) => {
            if v == 0 {
                let mut m = String::from_str("--port expects an integer 1..65535, got \"");
                m.append(raw);
                m.append("\"");
                Err(m)
            } else {
                Ok(v as u16)
            }
        },
        None => {
            let mut m = String::from_str("--port expects an integer 1..65535, got \"");
            m.append(raw);
            m.append("\"");
            Err(m)
        },
    }
}

/// `--deviceID <inst>`: an integer 0..4194302, written in decimal with an
/// optional leading '+'. 4194303 is the BACnet "unconfigured" sentinel, which
/// a real device may not use.
pub fn parse_device_id(raw: &str) -> (r: Result<u32, String>)
    ensures
        r is Ok <==> (parse_unsigned(raw@) matches Some(n) && n <= 4194302),
        r matches Ok(v) ==> parse_unsigned(raw@) == Some(v as nat),
        r matches Err(m) ==> m@ == device_id_message(raw@),
{
    match parse_unsigned_at_most(raw, 4194302) {
        Some(v) => Ok(v as u32),
        None => {
            let mut m = String::from_str("--deviceID expects an integer 0..4194302, got \"");
            m.append(raw);
            m.append("\"");
            Err(m)
        },
    }
}

} // verus!
