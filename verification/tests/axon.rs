use subtensor_client::axon::{
    decode_endpoint, encode_endpoint, serve_axon_payload, AsAddr, AxonProtocol, IpAddress,
    ServeAxon, SocketAddress, WithAxonProtocol, SERVE_AXON_CALL, SUBTENSOR_MODULE,
};
use subtensor_client::codec::{decode, encode};
use subtensor_client::rpc::types::{AxonInfo, PrometheusInfo};

fn v4(a: u8, b: u8, c: u8, d: u8, port: u16) -> SocketAddress {
    SocketAddress { ip: IpAddress::V4(u32::from_be_bytes([a, b, c, d])), port }
}

#[test]
fn protocol_display_literals() {
    assert_eq!(AxonProtocol::Tcp.to_string(), "TCP:0");
    assert_eq!(AxonProtocol::Udp.to_string(), "UDP:1");
    assert_eq!(AxonProtocol::Other.to_string(), "TCP/UDP:4");
}

#[test]
fn protocol_codes() {
    assert_eq!(AxonProtocol::Tcp.code(), 0);
    assert_eq!(AxonProtocol::Udp.code(), 1);
    assert_eq!(AxonProtocol::Other.code(), 4);
    assert_eq!(AxonProtocol::default(), AxonProtocol::Other);
}

#[test]
fn protocol_from_code() {
    assert_eq!(AxonProtocol::from_code(0), Some(AxonProtocol::Tcp));
    assert_eq!(AxonProtocol::from_code(1), Some(AxonProtocol::Udp));
    assert_eq!(AxonProtocol::from_code(4), Some(AxonProtocol::Other));
    assert_eq!(AxonProtocol::from_code(2), None);
    assert_eq!(AxonProtocol::from_code(3), None);
    for code in 5..=255u8 {
        assert_eq!(AxonProtocol::from_code(code), None);
    }
}

#[test]
fn protocol_code_round_trip() {
    for protocol in [AxonProtocol::Tcp, AxonProtocol::Udp, AxonProtocol::Other] {
        assert_eq!(AxonProtocol::from_code(protocol.code()), Some(protocol));
    }
}

#[test]
fn encode_v4_endpoint() {
    let stored = encode_endpoint(v4(127, 0, 0, 1, 8091), AxonProtocol::Tcp);
    assert_eq!(stored, (0x7f00_0001u128, 4u8, 8091u16, 0u8));
}

#[test]
fn encode_v6_endpoint() {
    let bits: u128 = 0x2001_0db8_0000_0000_0000_0000_0000_0001;
    let address = SocketAddress { ip: IpAddress::V6(bits), port: 443 };
    assert_eq!(encode_endpoint(address, AxonProtocol::Other), (bits, 6u8, 443u16, 4u8));
}

#[test]
fn endpoint_round_trip_v4() {
    for address in [v4(0, 0, 0, 0, 0), v4(10, 1, 2, 3, 65535), v4(255, 255, 255, 255, 1)] {
        let (ip, ip_type, port, code) = encode_endpoint(address, AxonProtocol::Udp);
        assert_eq!(decode_endpoint(ip, port, ip_type), address);
        assert_eq!(AxonProtocol::from_code(code), Some(AxonProtocol::Udp));
    }
}

#[test]
fn endpoint_round_trip_v6() {
    for bits in [0u128, 1, u128::MAX, 0x2001_0db8 << 96] {
        let address = SocketAddress { ip: IpAddress::V6(bits), port: 30333 };
        let (ip, ip_type, port, _) = encode_endpoint(address, AxonProtocol::Tcp);
        assert_eq!(decode_endpoint(ip, port, ip_type), address);
    }
}

#[test]
fn decode_type_four_keeps_low_32_bits_only() {
    let address = decode_endpoint(0xffff_0000_0000_0000_0000_0001_c0a8_0001, 80, 4);
    assert_eq!(address, v4(192, 168, 0, 1, 80));
}

#[test]
fn decode_other_types_as_v6() {
    for ip_type in [0u8, 5, 6, 7, 255] {
        let address = decode_endpoint(0x7f00_0001, 80, ip_type);
        assert_eq!(address, SocketAddress { ip: IpAddress::V6(0x7f00_0001), port: 80 });
    }
}

#[test]
fn axon_info_as_addr_and_protocol() {
    let axon = AxonInfo {
        block: 1,
        version: 1,
        ip: 0x0a00_0001,
        port: 9000,
        ip_type: 4,
        protocol: 1,
        placeholder1: 0,
        placeholder2: 0,
    };
    assert_eq!(axon.as_addr(), v4(10, 0, 0, 1, 9000));
    assert_eq!(axon.axon_protocol(), Some(AxonProtocol::Udp));
    let unknown = AxonInfo { protocol: 3, ..axon };
    assert_eq!(unknown.axon_protocol(), None);
    assert_eq!(AxonInfo::default().axon_protocol(), Some(AxonProtocol::Tcp));
}

#[test]
fn prometheus_info_as_addr() {
    let prometheus = PrometheusInfo { block: 1, version: 1, ip: 42, port: 9100, ip_type: 6 };
    assert_eq!(prometheus.as_addr(), SocketAddress { ip: IpAddress::V6(42), port: 9100 });
}

#[test]
fn serve_axon_payload_fields() {
    let call = serve_axon_payload(12, v4(1, 2, 3, 4, 8091), AxonProtocol::Other);
    assert_eq!(
        call,
        ServeAxon {
            netuid: 12,
            version: 1,
            ip: 0x0102_0304,
            port: 8091,
            ip_type: 4,
            protocol: 4,
            placeholder1: 0,
            placeholder2: 0,
        }
    );
    assert_eq!(SUBTENSOR_MODULE, "SubtensorModule");
    assert_eq!(SERVE_AXON_CALL, "serve_axon");
}

#[test]
fn serve_axon_payload_arguments_on_the_wire() {
    let call = serve_axon_payload(0x0102, v4(127, 0, 0, 1, 0x1f9b), AxonProtocol::Tcp);
    let mut expected = vec![0x02, 0x01, 1, 0, 0, 0, 0x01, 0x00, 0x00, 0x7f];
    expected.extend([0u8; 12]);
    expected.extend([0x9b, 0x1f, 4, 0, 0, 0]);
    assert_eq!(encode(&call), expected);
    assert_eq!(decode::<ServeAxon>(&expected), Ok(call));
}

#[test]
fn announced_endpoint_reads_back() {
    let bits: u128 = 0xfe80 << 112 | 7;
    let address = SocketAddress { ip: IpAddress::V6(bits), port: 1 };
    let call = serve_axon_payload(3, address, AxonProtocol::Udp);
    let kept = AxonInfo {
        block: 100,
        version: call.version,
        ip: call.ip,
        port: call.port,
        ip_type: call.ip_type,
        protocol: call.protocol,
        placeholder1: call.placeholder1,
        placeholder2: call.placeholder2,
    };
    assert_eq!(kept.as_addr(), address);
    assert_eq!(kept.axon_protocol(), Some(AxonProtocol::Udp));
}
