//! Announcing a network endpoint on-chain: the address and protocol codes
//! that the chain stores, and the way back from them.

use vstd::prelude::*;
use crate::codec::{
    CodecError, Wire, end_of, lemma_concat_assoc, lemma_has_at_join, lemma_has_at_split,
};
use crate::rpc::types::{AxonInfo, PrometheusInfo};

verus! {

/// The pallet that holds the subnet calls.
pub const SUBTENSOR_MODULE: &'static str = "SubtensorModule";

/// The call that announces an axon endpoint.
pub const SERVE_AXON_CALL: &'static str = "serve_axon";

/// The version that every announcement carries.
pub const SERVE_AXON_VERSION: u32 = 1;

/// The transport that an axon speaks.
#[derive(Clone, Copy, Debug, PartialEq, Eq, Structural)]
pub enum AxonProtocol {
    Tcp,
    Udp,
    /// Either of the two. This is what an axon announces when nothing else is
    /// asked for.
    Other,
}

impl AxonProtocol {
    /// The code that the chain stores: 0, 1 and 4. The codes 2 and 3 stand
    /// for nothing.
    pub open spec fn spec_code(self) -> u8 {
        match self {
            AxonProtocol::Tcp => 0,
            AxonProtocol::Udp => 1,
            AxonProtocol::Other => 4,
        }
    }

    /// The protocol that a stored code stands for, if it stands for one.
    pub open spec fn spec_from_code(code: u8) -> Option<AxonProtocol> {
        if code == 0 {
            Some(AxonProtocol::Tcp)
        } else if code == 1 {
            Some(AxonProtocol::Udp)
        } else if code == 4 {
            Some(AxonProtocol::Other)
        } else {
            None
        }
    }

    /// The text that the protocol is shown as.
    pub open spec fn text(self) -> Seq<char> {
        match self {
            AxonProtocol::Tcp => "TCP:0"@,
            AxonProtocol::Udp => "UDP:1"@,
            AxonProtocol::Other => "TCP/UDP:4"@,
        }
    }

    #[verifier::when_used_as_spec(spec_code)]
    pub fn code(self) -> (code: u8)
        ensures
            code == self.spec_code(),
    {
        match self {
            AxonProtocol::Tcp => 0,
            AxonProtocol::Udp => 1,
            AxonProtocol::Other => 4,
        }
    }

    #[verifier::when_used_as_spec(spec_from_code)]
    pub fn from_code(code: u8) -> (protocol: Option<AxonProtocol>)
        ensures
            protocol == Self::spec_from_code(code),
    {
        if code == 0 {
            Some(AxonProtocol::Tcp)
        } else if code == 1 {
            Some(AxonProtocol::Udp)
        } else if code == 4 {
            Some(AxonProtocol::Other)
        } else {
            None
        }
    }

    /// `"TCP:0"`, `"UDP:1"` or `"TCP/UDP:4"`.
    pub fn to_string(&self) -> (shown: String)
        ensures
            shown@ == self.text(),
    {
        match self {
            AxonProtocol::Tcp => "TCP:0".to_owned(),
            AxonProtocol::Udp => "UDP:1".to_owned(),
            AxonProtocol::Other => "TCP/UDP:4".to_owned(),
        }
    }
}

impl Default for AxonProtocol {
    fn default() -> (protocol: AxonProtocol)
        ensures
            protocol == AxonProtocol::Other,
    {
        AxonProtocol::Other
    }
}

/// A code stands for the protocol that it was taken from, and for no other.
pub proof fn lemma_protocol_code_round_trip(protocol: AxonProtocol)
    ensures
        AxonProtocol::spec_from_code(protocol.spec_code()) == Some(protocol),
{
}

/// Only the codes 0, 1 and 4 stand for a protocol.
pub proof fn lemma_protocol_codes(code: u8)
    ensures
        AxonProtocol::spec_from_code(code) is Some <==> code == 0 || code == 1 || code == 4,
        AxonProtocol::spec_from_code(code) matches Some(protocol) ==> protocol.spec_code() == code,
{
}

/// An internet address, as the number that its bytes spell in network order.
#[derive(Clone, Copy, Debug, PartialEq, Eq, Structural)]
pub enum IpAddress {
    V4(u32),
    V6(u128),
}

/// An address and a port.
#[derive(Clone, Copy, Debug, PartialEq, Eq, Structural)]
pub struct SocketAddress {
    pub ip: IpAddress,
    pub port: u16,
}

/// The address type that marks a v4 address on-chain.
pub const IP_TYPE_V4: u8 = 4;

/// The address type that marks a v6 address on-chain.
pub const IP_TYPE_V6: u8 = 6;

/// What the chain stores of an address: its number, widened to 128 bits, and
/// the address type that says how to read it.
pub open spec fn spec_encode_ip(ip: IpAddress) -> (u128, u8) {
    match ip {
        IpAddress::V4(bits) => (bits as u128, IP_TYPE_V4),
        IpAddress::V6(bits) => (bits, IP_TYPE_V6),
    }
}

/// The endpoint that stored values stand for. With type 4 only the low 32
/// bits of `ip` count and the rest is dropped without complaint; every other
/// type is read as a v6 address.
pub open spec fn spec_decode_endpoint(ip: u128, port: u16, ip_type: u8) -> SocketAddress {
    if ip_type == IP_TYPE_V4 {
        SocketAddress { ip: IpAddress::V4((ip % 0x1_0000_0000) as u32), port }
    } else {
        SocketAddress { ip: IpAddress::V6(ip), port }
    }
}

/// The values that the chain stores for an endpoint and its protocol: the
/// address number, the address type, the port and the protocol's code.
pub fn encode_endpoint(address: SocketAddress, protocol: AxonProtocol) -> (stored: (
    u128,
    u8,
    u16,
    u8,
))
    ensures
        (stored.0, stored.1) == spec_encode_ip(address.ip),
        stored.2 == address.port,
        stored.3 == protocol.spec_code(),
{
    match address.ip {
        IpAddress::V4(bits) => (bits as u128, IP_TYPE_V4, address.port, protocol.code()),
        IpAddress::V6(bits) => (bits, IP_TYPE_V6, address.port, protocol.code()),
    }
}

/// The endpoint that stored values stand for; see [`spec_decode_endpoint`].
pub fn decode_endpoint(ip: u128, port: u16, ip_type: u8) -> (address: SocketAddress)
    ensures
        address == spec_decode_endpoint(ip, port, ip_type),
{
    if ip_type == IP_TYPE_V4 {
        SocketAddress { ip: IpAddress::V4((ip % 0x1_0000_0000) as u32), port }
    } else {
        SocketAddress { ip: IpAddress::V6(ip), port }
    }
}

/// Reading back what was stored for an endpoint gives the endpoint, v4 or v6.
pub proof fn lemma_endpoint_round_trip(address: SocketAddress)
    ensures
        spec_decode_endpoint(
            spec_encode_ip(address.ip).0,
            address.port,
            spec_encode_ip(address.ip).1,
        ) == address,
{
}

/// Something announced at a network endpoint.
pub trait AsAddr {
    spec fn addr(&self) -> SocketAddress;

    fn as_addr(&self) -> (address: SocketAddress)
        ensures
            address == self.addr(),
    ;
}

/// Something that says which transport it speaks.
pub trait WithAxonProtocol {
    spec fn protocol_announced(&self) -> Option<AxonProtocol>;

    /// The protocol, or `None` where the stored code stands for none.
    fn axon_protocol(&self) -> (protocol: Option<AxonProtocol>)
        ensures
            protocol == self.protocol_announced(),
    ;
}

impl AsAddr for AxonInfo {
    open spec fn addr(&self) -> SocketAddress {
        spec_decode_endpoint(self.ip, self.port, self.ip_type)
    }

    fn as_addr(&self) -> (address: SocketAddress) {
        decode_endpoint(self.ip, self.port, self.ip_type)
    }
}

impl AsAddr for PrometheusInfo {
    open spec fn addr(&self) -> SocketAddress {
        spec_decode_endpoint(self.ip, self.port, self.ip_type)
    }

    fn as_addr(&self) -> (address: SocketAddress) {
        decode_endpoint(self.ip, self.port, self.ip_type)
    }
}

impl WithAxonProtocol for AxonInfo {
    open spec fn protocol_announced(&self) -> Option<AxonProtocol> {
        AxonProtocol::spec_from_code(self.protocol)
    }

    fn axon_protocol(&self) -> (protocol: Option<AxonProtocol>) {
        AxonProtocol::from_code(self.protocol)
    }
}

/// The arguments of the call that announces an axon endpoint on a subnet, in the
/// order in which the call takes them.
#[derive(Clone, Copy, Debug, PartialEq, Eq)]
pub struct ServeAxon {
    /// The subnet.
    pub netuid: u16,
    /// The version of the serving software.
    pub version: u32,
    /// The address: a v4 address in the low 32 bits, or a v6 address.
    pub ip: u128,
    /// The port.
    pub port: u16,
    /// 4 for a v4 address, 6 for a v6 address.
    pub ip_type: u8,
    /// The transport protocol, by its code.
    pub protocol: u8,
    /// Reserved, always 0.
    pub placeholder1: u8,
    /// Reserved, always 0.
    pub placeholder2: u8,
}

/// The value of a [`ServeAxon`].
pub struct ServeAxonModel {
    pub netuid: u16,
    pub version: u32,
    pub ip: u128,
    pub port: u16,
    pub ip_type: u8,
    pub protocol: u8,
    pub placeholder1: u8,
    pub placeholder2: u8,
}

impl Wire for ServeAxon {
    type Model = ServeAxonModel;

    open spec fn model(&self) -> ServeAxonModel {
        ServeAxonModel {
            netuid: self.netuid.model(),
            version: self.version.model(),
            ip: self.ip.model(),
            port: self.port.model(),
            ip_type: self.ip_type.model(),
            protocol: self.protocol.model(),
            placeholder1: self.placeholder1.model(),
            placeholder2: self.placeholder2.model(),
        }
    }

    open spec fn encodable(m: ServeAxonModel) -> bool {
        &&& <u16>::encodable(m.netuid)
        &&& <u32>::encodable(m.version)
        &&& <u128>::encodable(m.ip)
        &&& <u16>::encodable(m.port)
        &&& <u8>::encodable(m.ip_type)
        &&& <u8>::encodable(m.protocol)
        &&& <u8>::encodable(m.placeholder1)
        &&& <u8>::encodable(m.placeholder2)
    }

    open spec fn encoding(m: ServeAxonModel) -> Seq<u8> {
        <u16>::encoding(m.netuid)
            + <u32>::encoding(m.version)
            + <u128>::encoding(m.ip)
            + <u16>::encoding(m.port)
            + <u8>::encoding(m.ip_type)
            + <u8>::encoding(m.protocol)
            + <u8>::encoding(m.placeholder1)
            + <u8>::encoding(m.placeholder2)
    }

    open spec fn parse(bytes: Seq<u8>, pos: int) -> Result<(ServeAxonModel, int), CodecError> {
        let netuid = <u16>::parse(bytes, pos);
        let after_netuid = end_of(netuid, pos);
        let version = <u32>::parse(bytes, after_netuid);
        let after_version = end_of(version, after_netuid);
        let ip = <u128>::parse(bytes, after_version);
        let after_ip = end_of(ip, after_version);
        let port = <u16>::parse(bytes, after_ip);
        let after_port = end_of(port, after_ip);
        let ip_type = <u8>::parse(bytes, after_port);
        let after_ip_type = end_of(ip_type, after_port);
        let protocol = <u8>::parse(bytes, after_ip_type);
        let after_protocol = end_of(protocol, after_ip_type);
        let placeholder1 = <u8>::parse(bytes, after_protocol);
        let after_placeholder1 = end_of(placeholder1, after_protocol);
        let placeholder2 = <u8>::parse(bytes, after_placeholder1);
        let after_placeholder2 = end_of(placeholder2, after_placeholder1);
        if netuid is Err {
            Err(netuid->Err_0)
        } else if version is Err {
            Err(version->Err_0)
        } else if ip is Err {
            Err(ip->Err_0)
        } else if port is Err {
            Err(port->Err_0)
        } else if ip_type is Err {
            Err(ip_type->Err_0)
        } else if protocol is Err {
            Err(protocol->Err_0)
        } else if placeholder1 is Err {
            Err(placeholder1->Err_0)
        } else if placeholder2 is Err {
            Err(placeholder2->Err_0)
        } else {
            Ok(
                (
                    ServeAxonModel {
                        netuid: netuid->Ok_0.0,
                        version: version->Ok_0.0,
                        ip: ip->Ok_0.0,
                        port: port->Ok_0.0,
                        ip_type: ip_type->Ok_0.0,
                        protocol: protocol->Ok_0.0,
                        placeholder1: placeholder1->Ok_0.0,
                        placeholder2: placeholder2->Ok_0.0,
                    },
                    after_placeholder2,
                ),
            )
        }
    }

    proof fn lemma_round_trip(m: ServeAxonModel, bytes: Seq<u8>, pos: int) {
        let netuid = <u16>::encoding(m.netuid);
        let version = <u32>::encoding(m.version);
        let ip = <u128>::encoding(m.ip);
        let port = <u16>::encoding(m.port);
        let ip_type = <u8>::encoding(m.ip_type);
        let protocol = <u8>::encoding(m.protocol);
        let placeholder1 = <u8>::encoding(m.placeholder1);
        let placeholder2 = <u8>::encoding(m.placeholder2);
        let to_netuid = netuid;
        let to_version = to_netuid + version;
        let to_ip = to_version + ip;
        let to_port = to_ip + port;
        let to_ip_type = to_port + ip_type;
        let to_protocol = to_ip_type + protocol;
        let to_placeholder1 = to_protocol + placeholder1;
        lemma_has_at_split(bytes, pos, to_placeholder1, placeholder2);
        lemma_has_at_split(bytes, pos, to_protocol, placeholder1);
        lemma_has_at_split(bytes, pos, to_ip_type, protocol);
        lemma_has_at_split(bytes, pos, to_port, ip_type);
        lemma_has_at_split(bytes, pos, to_ip, port);
        lemma_has_at_split(bytes, pos, to_version, ip);
        lemma_has_at_split(bytes, pos, to_netuid, version);
        <u16>::lemma_round_trip(m.netuid, bytes, pos);
        <u32>::lemma_round_trip(m.version, bytes, pos + to_netuid.len());
        <u128>::lemma_round_trip(m.ip, bytes, pos + to_version.len());
        <u16>::lemma_round_trip(m.port, bytes, pos + to_ip.len());
        <u8>::lemma_round_trip(m.ip_type, bytes, pos + to_port.len());
        <u8>::lemma_round_trip(m.protocol, bytes, pos + to_ip_type.len());
        <u8>::lemma_round_trip(m.placeholder1, bytes, pos + to_protocol.len());
        <u8>::lemma_round_trip(m.placeholder2, bytes, pos + to_placeholder1.len());
    }

    proof fn lemma_canonical(bytes: Seq<u8>, pos: int) {
        let netuid = <u16>::parse(bytes, pos);
        <u16>::lemma_canonical(bytes, pos);
        let after_netuid = end_of(netuid, pos);
        let version = <u32>::parse(bytes, after_netuid);
        <u32>::lemma_canonical(bytes, after_netuid);
        let after_version = end_of(version, after_netuid);
        let ip = <u128>::parse(bytes, after_version);
        <u128>::lemma_canonical(bytes, after_version);
        let after_ip = end_of(ip, after_version);
        let port = <u16>::parse(bytes, after_ip);
        <u16>::lemma_canonical(bytes, after_ip);
        let after_port = end_of(port, after_ip);
        let ip_type = <u8>::parse(bytes, after_port);
        <u8>::lemma_canonical(bytes, after_port);
        let after_ip_type = end_of(ip_type, after_port);
        let protocol = <u8>::parse(bytes, after_ip_type);
        <u8>::lemma_canonical(bytes, after_ip_type);
        let after_protocol = end_of(protocol, after_ip_type);
        let placeholder1 = <u8>::parse(bytes, after_protocol);
        <u8>::lemma_canonical(bytes, after_protocol);
        let after_placeholder1 = end_of(placeholder1, after_protocol);
        let placeholder2 = <u8>::parse(bytes, after_placeholder1);
        <u8>::lemma_canonical(bytes, after_placeholder1);
        if Self::parse(bytes, pos) is Ok {
            let to_netuid = <u16>::encoding(netuid->Ok_0.0);
            let e_version = <u32>::encoding(version->Ok_0.0);
            lemma_has_at_join(bytes, pos, to_netuid, e_version);
            let to_version = to_netuid + e_version;
            let e_ip = <u128>::encoding(ip->Ok_0.0);
            lemma_has_at_join(bytes, pos, to_version, e_ip);
            let to_ip = to_version + e_ip;
            let e_port = <u16>::encoding(port->Ok_0.0);
            lemma_has_at_join(bytes, pos, to_ip, e_port);
            let to_port = to_ip + e_port;
            let e_ip_type = <u8>::encoding(ip_type->Ok_0.0);
            lemma_has_at_join(bytes, pos, to_port, e_ip_type);
            let to_ip_type = to_port + e_ip_type;
            let e_protocol = <u8>::encoding(protocol->Ok_0.0);
            lemma_has_at_join(bytes, pos, to_ip_type, e_protocol);
            let to_protocol = to_ip_type + e_protocol;
            let e_placeholder1 = <u8>::encoding(placeholder1->Ok_0.0);
            lemma_has_at_join(bytes, pos, to_protocol, e_placeholder1);
            let to_placeholder1 = to_protocol + e_placeholder1;
            let e_placeholder2 = <u8>::encoding(placeholder2->Ok_0.0);
            lemma_has_at_join(bytes, pos, to_placeholder1, e_placeholder2);
        }
    }

    fn can_encode(&self) -> (yes: bool) {
        self.netuid.can_encode()
            && self.version.can_encode()
            && self.ip.can_encode()
            && self.port.can_encode()
            && self.ip_type.can_encode()
            && self.protocol.can_encode()
            && self.placeholder1.can_encode()
            && self.placeholder2.can_encode()
    }

    fn encode_to(&self, out: &mut Vec<u8>) {
        let ghost m = self.model();
        let ghost start = out@;
        self.netuid.encode_to(out);
        let ghost written = <u16>::encoding(m.netuid);
        self.version.encode_to(out);
        proof {
            lemma_concat_assoc(start, written, <u32>::encoding(m.version));
        }
        let ghost written = written + <u32>::encoding(m.version);
        self.ip.encode_to(out);
        proof {
            lemma_concat_assoc(start, written, <u128>::encoding(m.ip));
        }
        let ghost written = written + <u128>::encoding(m.ip);
        self.port.encode_to(out);
        proof {
            lemma_concat_assoc(start, written, <u16>::encoding(m.port));
        }
        let ghost written = written + <u16>::encoding(m.port);
        self.ip_type.encode_to(out);
        proof {
            lemma_concat_assoc(start, written, <u8>::encoding(m.ip_type));
        }
        let ghost written = written + <u8>::encoding(m.ip_type);
        self.protocol.encode_to(out);
        proof {
            lemma_concat_assoc(start, written, <u8>::encoding(m.protocol));
        }
        let ghost written = written + <u8>::encoding(m.protocol);
        self.placeholder1.encode_to(out);
        proof {
            lemma_concat_assoc(start, written, <u8>::encoding(m.placeholder1));
        }
        let ghost written = written + <u8>::encoding(m.placeholder1);
        self.placeholder2.encode_to(out);
        proof {
            lemma_concat_assoc(start, written, <u8>::encoding(m.placeholder2));
        }
    }

    fn decode_at(bytes: &[u8], pos: usize) -> (r: Result<(ServeAxon, usize), CodecError>) {
        let (netuid, at) = <u16>::decode_at(bytes, pos)?;
        let (version, at) = <u32>::decode_at(bytes, at)?;
        let (ip, at) = <u128>::decode_at(bytes, at)?;
        let (port, at) = <u16>::decode_at(bytes, at)?;
        let (ip_type, at) = <u8>::decode_at(bytes, at)?;
        let (protocol, at) = <u8>::decode_at(bytes, at)?;
        let (placeholder1, at) = <u8>::decode_at(bytes, at)?;
        let (placeholder2, at) = <u8>::decode_at(bytes, at)?;
        Ok(
            (
                ServeAxon {
                    netuid,
                    version,
                    ip,
                    port,
                    ip_type,
                    protocol,
                    placeholder1,
                    placeholder2,
                },
                at,
            ),
        )
    }
}

/// The announcement of `address` and `protocol` for a neuron on `netuid`.
pub open spec fn spec_serve_axon(netuid: u16, address: SocketAddress, protocol: AxonProtocol)
    -> ServeAxon {
    ServeAxon {
        netuid,
        version: SERVE_AXON_VERSION,
        ip: spec_encode_ip(address.ip).0,
        port: address.port,
        ip_type: spec_encode_ip(address.ip).1,
        protocol: protocol.spec_code(),
        placeholder1: 0,
        placeholder2: 0,
    }
}

/// Builds the arguments of the call that announces an axon at `address`.
pub fn serve_axon_payload(netuid: u16, address: SocketAddress, protocol: AxonProtocol) -> (call:
    ServeAxon)
    ensures
        call == spec_serve_axon(netuid, address, protocol),
{
    let (ip, ip_type, port, code) = encode_endpoint(address, protocol);
    ServeAxon {
        netuid,
        version: SERVE_AXON_VERSION,
        ip,
        port,
        ip_type,
        protocol: code,
        placeholder1: 0,
        placeholder2: 0,
    }
}

/// An announced endpoint reads back, from the record that the chain keeps of
/// it, as the address and the protocol that were announced.
pub proof fn lemma_announcement_reads_back(
    netuid: u16,
    address: SocketAddress,
    protocol: AxonProtocol,
    block: u64,
)
    ensures
        ({
            let call = spec_serve_axon(netuid, address, protocol);
            let kept = AxonInfo {
                block,
                version: call.version,
                ip: call.ip,
                port: call.port,
                ip_type: call.ip_type,
                protocol: call.protocol,
                placeholder1: call.placeholder1,
                placeholder2: call.placeholder2,
            };
            kept.addr() == address && kept.protocol_announced() == Some(protocol)
        }),
{
}

} // verus!
