use bacnet_bss::cas_example_helper::{
    decode_connection_string, encode_connection_string, frame_received_datagram,
    local_ipv4_from_address, parse_device_id, parse_port, COMMON_VERSION,
    IPV4_CONNECTION_STRING_LEN,
};
use bacnet_bss::constants::{NETWORK_PORT_INSTANCE, NETWORK_PORT_REFERENCE_PORT_NONE};

#[test]
fn common_version_and_constants() {
    assert_eq!(COMMON_VERSION, "1.0.0");
    assert_eq!(IPV4_CONNECTION_STRING_LEN, 6);
    assert_eq!(NETWORK_PORT_INSTANCE, 1);
    assert_eq!(NETWORK_PORT_REFERENCE_PORT_NONE, 4194303);
}

#[test]
fn connection_string_port_is_big_endian() {
    assert_eq!(encode_connection_string([192, 168, 1, 255], 47808), [192, 168, 1, 255, 186, 192]);
    assert_eq!(encode_connection_string([10, 0, 0, 1], 1), [10, 0, 0, 1, 0, 1]);
}

#[test]
fn connection_string_round_trip() {
    for (ip, port) in [([192u8, 168, 1, 255], 47808u16), ([0, 0, 0, 0], 0), ([255, 255, 255, 255], 65535)] {
        let cs = encode_connection_string(ip, port);
        assert_eq!(decode_connection_string(&cs), Some((ip, port)));
    }
    let longer = [1u8, 2, 3, 4, 0xBA, 0xC0, 9, 9];
    assert_eq!(decode_connection_string(&longer), Some(([1, 2, 3, 4], 47808)));
}

#[test]
fn connection_string_too_short() {
    assert_eq!(decode_connection_string(&[1, 2, 3, 4, 5]), None);
    assert_eq!(decode_connection_string(&[]), None);
}

#[test]
fn received_datagram_framing() {
    assert_eq!(
        frame_received_datagram(100, 1497, [192, 168, 1, 20], 47808),
        Some((100, [192, 168, 1, 20, 186, 192]))
    );
    assert_eq!(frame_received_datagram(1497, 1497, [1, 2, 3, 4], 5).map(|f| f.0), Some(1497));
    assert_eq!(frame_received_datagram(1498, 1497, [1, 2, 3, 4], 5), None);
}

#[test]
fn local_ipv4_assumes_slash_24() {
    let l = local_ipv4_from_address([192, 168, 1, 23]);
    assert_eq!(l.address, [192, 168, 1, 23]);
    assert_eq!(l.netmask, [255, 255, 255, 0]);
    assert_eq!(l.broadcast, [192, 168, 1, 255]);
    for i in 0..4 {
        assert_eq!(l.broadcast[i] & l.netmask[i], l.address[i] & l.netmask[i]);
        assert_eq!(l.broadcast[i] | l.netmask[i], 255);
    }
}

#[test]
fn local_ipv4_loopback() {
    for a in [[127u8, 0, 0, 1], [127, 1, 2, 3]] {
        let l = local_ipv4_from_address(a);
        assert_eq!(l.address, [127, 0, 0, 1]);
        assert_eq!(l.netmask, [255, 0, 0, 0]);
        assert_eq!(l.broadcast, [127, 255, 255, 255]);
    }
}

#[test]
fn parse_port_accepts_1_to_65535() {
    assert_eq!(parse_port("47808"), Ok(47808));
    assert_eq!(parse_port("1"), Ok(1));
    assert_eq!(parse_port("65535"), Ok(65535));
    assert_eq!(parse_port("+80"), Ok(80));
    assert_eq!(parse_port("00080"), Ok(80));
}

#[test]
fn parse_port_refusals() {
    for raw in ["0", "65536", "-1", " 80", "80 ", "", "+", "abc", "8o", "99999999999999999999999", "٨٠"] {
        assert_eq!(
            parse_port(raw),
            Err(format!("--port expects an integer 1..65535, got \"{raw}\"")),
            "{raw}"
        );
        assert_eq!(parse_port(raw).is_ok(), raw.parse::<u16>().map(|v| v != 0).unwrap_or(false));
    }
}

#[test]
fn parse_port_reads_back_printed_ports() {
    for v in [1u16, 9, 10, 99, 100, 47808, 65535] {
        assert_eq!(parse_port(&v.to_string()), Ok(v));
    }
}

#[test]
fn parse_device_id_range() {
    assert_eq!(parse_device_id("0"), Ok(0));
    assert_eq!(parse_device_id("389001"), Ok(389001));
    assert_eq!(parse_device_id("4194302"), Ok(4194302));
    for raw in ["4194303", "4294967296", "-5", "1e3", ""] {
        assert_eq!(
            parse_device_id(raw),
            Err(format!("--deviceID expects an integer 0..4194302, got \"{raw}\"")),
            "{raw}"
        );
    }
}
