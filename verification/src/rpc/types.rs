//! The records that the chain's runtime queries return.
//!
//! Each record is its fields written one after the other, in the order in
//! which they are declared. An integer held in a `Compact` travels in the
//! compact form; every other integer takes its full width, low byte first.

use vstd::prelude::*;
use crate::AccountId;
use crate::codec::{
    CodecError, Wire, end_of, lemma_concat_assoc, lemma_has_at_join, lemma_has_at_prefix,
    lemma_has_at_split,
};
use crate::codec::compact::Compact;

verus! {

/// What the chain reports of one delegate.
#[derive(Clone, Debug, PartialEq, Eq)]
pub struct DelegateInfo {
    /// The delegate's account.
    pub delegate_ss58: AccountId,
    /// The fraction of rewards that the delegate keeps as its fee.
    pub take: Compact<u16>,
    /// The accounts that stake on the delegate, each with its stake.
    pub nominators: Vec<(AccountId, Compact<u64>)>,
    /// The account that owns the delegate.
    pub owner_ss58: AccountId,
    /// The subnets on which the delegate is registered.
    pub registrations: Vec<Compact<u16>>,
    /// The subnets on which the delegate may validate.
    pub validator_permits: Vec<Compact<u16>>,
    /// The daily return for each 1000 staked, after the fee.
    pub return_per_1000: Compact<u64>,
    /// The daily return of all the delegate's nominators.
    pub total_daily_return: Compact<u64>,
}

/// The value of a [`DelegateInfo`].
pub struct DelegateInfoModel {
    pub delegate_ss58: Seq<u8>,
    pub take: u16,
    pub nominators: Seq<(Seq<u8>, u64)>,
    pub owner_ss58: Seq<u8>,
    pub registrations: Seq<u16>,
    pub validator_permits: Seq<u16>,
    pub return_per_1000: u64,
    pub total_daily_return: u64,
}

impl Wire for DelegateInfo {
    type Model = DelegateInfoModel;

    open spec fn model(&self) -> DelegateInfoModel {
        DelegateInfoModel {
            delegate_ss58: self.delegate_ss58.model(),
            take: self.take.model(),
            nominators: self.nominators.model(),
            owner_ss58: self.owner_ss58.model(),
            registrations: self.registrations.model(),
            validator_permits: self.validator_permits.model(),
            return_per_1000: self.return_per_1000.model(),
            total_daily_return: self.total_daily_return.model(),
        }
    }

    open spec fn encodable(m: DelegateInfoModel) -> bool {
        &&& <AccountId>::encodable(m.delegate_ss58)
        &&& <Compact<u16>>::encodable(m.take)
        &&& <Vec<(AccountId, Compact<u64>)>>::encodable(m.nominators)
        &&& <AccountId>::encodable(m.owner_ss58)
        &&& <Vec<Compact<u16>>>::encodable(m.registrations)
        &&& <Vec<Compact<u16>>>::encodable(m.validator_permits)
        &&& <Compact<u64>>::encodable(m.return_per_1000)
        &&& <Compact<u64>>::encodable(m.total_daily_return)
    }

    open spec fn encoding(m: DelegateInfoModel) -> Seq<u8> {
        <AccountId>::encoding(m.delegate_ss58)
            + <Compact<u16>>::encoding(m.take)
            + <Vec<(AccountId, Compact<u64>)>>::encoding(m.nominators)
            + <AccountId>::encoding(m.owner_ss58)
            + <Vec<Compact<u16>>>::encoding(m.registrations)
            + <Vec<Compact<u16>>>::encoding(m.validator_permits)
            + <Compact<u64>>::encoding(m.return_per_1000)
            + <Compact<u64>>::encoding(m.total_daily_return)
    }

    open spec fn parse(bytes: Seq<u8>, pos: int) -> Result<(DelegateInfoModel, int), CodecError> {
        let delegate_ss58 = <AccountId>::parse(bytes, pos);
        let after_delegate_ss58 = end_of(delegate_ss58, pos);
        let take = <Compact<u16>>::parse(bytes, after_delegate_ss58);
        let after_take = end_of(take, after_delegate_ss58);
        let nominators = <Vec<(AccountId, Compact<u64>)>>::parse(bytes, after_take);
        let after_nominators = end_of(nominators, after_take);
        let owner_ss58 = <AccountId>::parse(bytes, after_nominators);
        let after_owner_ss58 = end_of(owner_ss58, after_nominators);
        let registrations = <Vec<Compact<u16>>>::parse(bytes, after_owner_ss58);
        let after_registrations = end_of(registrations, after_owner_ss58);
        let validator_permits = <Vec<Compact<u16>>>::parse(bytes, after_registrations);
        let after_validator_permits = end_of(validator_permits, after_registrations);
        let return_per_1000 = <Compact<u64>>::parse(bytes, after_validator_permits);
        let after_return_per_1000 = end_of(return_per_1000, after_validator_permits);
        let total_daily_return = <Compact<u64>>::parse(bytes, after_return_per_1000);
        let after_total_daily_return = end_of(total_daily_return, after_return_per_1000);
        if delegate_ss58 is Err {
            Err(delegate_ss58->Err_0)
        } else if take is Err {
            Err(take->Err_0)
        } else if nominators is Err {
            Err(nominators->Err_0)
        } else if owner_ss58 is Err {
            Err(owner_ss58->Err_0)
        } else if registrations is Err {
            Err(registrations->Err_0)
        } else if validator_permits is Err {
            Err(validator_permits->Err_0)
        } else if return_per_1000 is Err {
            Err(return_per_1000->Err_0)
        } else if total_daily_return is Err {
            Err(total_daily_return->Err_0)
        } else {
            Ok(
                (
                    DelegateInfoModel {
                        delegate_ss58: delegate_ss58->Ok_0.0,
                        take: take->Ok_0.0,
                        nominators: nominators->Ok_0.0,
                        owner_ss58: owner_ss58->Ok_0.0,
                        registrations: registrations->Ok_0.0,
                        validator_permits: validator_permits->Ok_0.0,
                        return_per_1000: return_per_1000->Ok_0.0,
                        total_daily_return: total_daily_return->Ok_0.0,
                    },
                    after_total_daily_return,
                ),
            )
        }
    }

    proof fn lemma_round_trip(m: DelegateInfoModel, bytes: Seq<u8>, pos: int) {
        let delegate_ss58 = <AccountId>::encoding(m.delegate_ss58);
        let take = <Compact<u16>>::encoding(m.take);
        let nominators = <Vec<(AccountId, Compact<u64>)>>::encoding(m.nominators);
        let owner_ss58 = <AccountId>::encoding(m.owner_ss58);
        let registrations = <Vec<Compact<u16>>>::encoding(m.registrations);
        let validator_permits = <Vec<Compact<u16>>>::encoding(m.validator_permits);
        let return_per_1000 = <Compact<u64>>::encoding(m.return_per_1000);
        let total_daily_return = <Compact<u64>>::encoding(m.total_daily_return);
        let to_delegate_ss58 = delegate_ss58;
        let to_take = to_delegate_ss58 + take;
        let to_nominators = to_take + nominators;
        let to_owner_ss58 = to_nominators + owner_ss58;
        let to_registrations = to_owner_ss58 + registrations;
        let to_validator_permits = to_registrations + validator_permits;
        let to_return_per_1000 = to_validator_permits + return_per_1000;
        lemma_has_at_split(bytes, pos, to_return_per_1000, total_daily_return);
        lemma_has_at_split(bytes, pos, to_validator_permits, return_per_1000);
        lemma_has_at_split(bytes, pos, to_registrations, validator_permits);
        lemma_has_at_split(bytes, pos, to_owner_ss58, registrations);
        lemma_has_at_split(bytes, pos, to_nominators, owner_ss58);
        lemma_has_at_split(bytes, pos, to_take, nominators);
        lemma_has_at_split(bytes, pos, to_delegate_ss58, take);
        <AccountId>::lemma_round_trip(m.delegate_ss58, bytes, pos);
        <Compact<u16>>::lemma_round_trip(m.take, bytes, pos + to_delegate_ss58.len());
        <Vec<(AccountId, Compact<u64>)>>::lemma_round_trip(m.nominators, bytes, pos + to_take.len());
        <AccountId>::lemma_round_trip(m.owner_ss58, bytes, pos + to_nominators.len());
        <Vec<Compact<u16>>>::lemma_round_trip(m.registrations, bytes, pos + to_owner_ss58.len());
        <Vec<Compact<u16>>>::lemma_round_trip(m.validator_permits, bytes, pos + to_registrations.len());
        <Compact<u64>>::lemma_round_trip(m.return_per_1000, bytes, pos + to_validator_permits.len());
        <Compact<u64>>::lemma_round_trip(m.total_daily_return, bytes, pos + to_return_per_1000.len());
    }

    proof fn lemma_canonical(bytes: Seq<u8>, pos: int) {
        let delegate_ss58 = <AccountId>::parse(bytes, pos);
        <AccountId>::lemma_canonical(bytes, pos);
        let after_delegate_ss58 = end_of(delegate_ss58, pos);
        let take = <Compact<u16>>::parse(bytes, after_delegate_ss58);
        <Compact<u16>>::lemma_canonical(bytes, after_delegate_ss58);
        let after_take = end_of(take, after_delegate_ss58);
        let nominators = <Vec<(AccountId, Compact<u64>)>>::parse(bytes, after_take);
        <Vec<(AccountId, Compact<u64>)>>::lemma_canonical(bytes, after_take);
        let after_nominators = end_of(nominators, after_take);
        let owner_ss58 = <AccountId>::parse(bytes, after_nominators);
        <AccountId>::lemma_canonical(bytes, after_nominators);
        let after_owner_ss58 = end_of(owner_ss58, after_nominators);
        let registrations = <Vec<Compact<u16>>>::parse(bytes, after_owner_ss58);
        <Vec<Compact<u16>>>::lemma_canonical(bytes, after_owner_ss58);
        let after_registrations = end_of(registrations, after_owner_ss58);
        let validator_permits = <Vec<Compact<u16>>>::parse(bytes, after_registrations);
        <Vec<Compact<u16>>>::lemma_canonical(bytes, after_registrations);
        let after_validator_permits = end_of(validator_permits, after_registrations);
        let return_per_1000 = <Compact<u64>>::parse(bytes, after_validator_permits);
        <Compact<u64>>::lemma_canonical(bytes, after_validator_permits);
        let after_return_per_1000 = end_of(return_per_1000, after_validator_permits);
        let total_daily_return = <Compact<u64>>::parse(bytes, after_return_per_1000);
        <Compact<u64>>::lemma_canonical(bytes, after_return_per_1000);
        if Self::parse(bytes, pos) is Ok {
            let to_delegate_ss58 = <AccountId>::encoding(delegate_ss58->Ok_0.0);
            let e_take = <Compact<u16>>::encoding(take->Ok_0.0);
            lemma_has_at_join(bytes, pos, to_delegate_ss58, e_take);
            let to_take = to_delegate_ss58 + e_take;
            let e_nominators = <Vec<(AccountId, Compact<u64>)>>::encoding(nominators->Ok_0.0);
            lemma_has_at_join(bytes, pos, to_take, e_nominators);
            let to_nominators = to_take + e_nominators;
            let e_owner_ss58 = <AccountId>::encoding(owner_ss58->Ok_0.0);
            lemma_has_at_join(bytes, pos, to_nominators, e_owner_ss58);
            let to_owner_ss58 = to_nominators + e_owner_ss58;
            let e_registrations = <Vec<Compact<u16>>>::encoding(registrations->Ok_0.0);
            lemma_has_at_join(bytes, pos, to_owner_ss58, e_registrations);
            let to_registrations = to_owner_ss58 + e_registrations;
            let e_validator_permits = <Vec<Compact<u16>>>::encoding(validator_permits->Ok_0.0);
            lemma_has_at_join(bytes, pos, to_registrations, e_validator_permits);
            let to_validator_permits = to_registrations + e_validator_permits;
            let e_return_per_1000 = <Compact<u64>>::encoding(return_per_1000->Ok_0.0);
            lemma_has_at_join(bytes, pos, to_validator_permits, e_return_per_1000);
            let to_return_per_1000 = to_validator_permits + e_return_per_1000;
            let e_total_daily_return = <Compact<u64>>::encoding(total_daily_return->Ok_0.0);
            lemma_has_at_join(bytes, pos, to_return_per_1000, e_total_daily_return);
        }
    }

    fn can_encode(&self) -> (yes: bool) {
        self.delegate_ss58.can_encode()
            && self.take.can_encode()
            && self.nominators.can_encode()
            && self.owner_ss58.can_encode()
            && self.registrations.can_encode()
            && self.validator_permits.can_encode()
            && self.return_per_1000.can_encode()
            && self.total_daily_return.can_encode()
    }

    fn encode_to(&self, out: &mut Vec<u8>) {
        let ghost m = self.model();
        let ghost start = out@;
        self.delegate_ss58.encode_to(out);
        let ghost written = <AccountId>::encoding(m.delegate_ss58);
        self.take.encode_to(out);
        proof {
            lemma_concat_assoc(start, written, <Compact<u16>>::encoding(m.take));
        }
        let ghost written = written + <Compact<u16>>::encoding(m.take);
        self.nominators.encode_to(out);
        proof {
            lemma_concat_assoc(start, written, <Vec<(AccountId, Compact<u64>)>>::encoding(m.nominators));
        }
        let ghost written = written + <Vec<(AccountId, Compact<u64>)>>::encoding(m.nominators);
        self.owner_ss58.encode_to(out);
        proof {
            lemma_concat_assoc(start, written, <AccountId>::encoding(m.owner_ss58));
        }
        let ghost written = written + <AccountId>::encoding(m.owner_ss58);
        self.registrations.encode_to(out);
        proof {
            lemma_concat_assoc(start, written, <Vec<Compact<u16>>>::encoding(m.registrations));
        }
        let ghost written = written + <Vec<Compact<u16>>>::encoding(m.registrations);
        self.validator_permits.encode_to(out);
        proof {
            lemma_concat_assoc(start, written, <Vec<Compact<u16>>>::encoding(m.validator_permits));
        }
        let ghost written = written + <Vec<Compact<u16>>>::encoding(m.validator_permits);
        self.return_per_1000.encode_to(out);
        proof {
            lemma_concat_assoc(start, written, <Compact<u64>>::encoding(m.return_per_1000));
        }
        let ghost written = written + <Compact<u64>>::encoding(m.return_per_1000);
        self.total_daily_return.encode_to(out);
        proof {
            lemma_concat_assoc(start, written, <Compact<u64>>::encoding(m.total_daily_return));
        }
    }

    fn decode_at(bytes: &[u8], pos: usize) -> (r: Result<(DelegateInfo, usize), CodecError>) {
        let (delegate_ss58, at) = <AccountId>::decode_at(bytes, pos)?;
        let (take, at) = <Compact<u16>>::decode_at(bytes, at)?;
        let (nominators, at) = <Vec<(AccountId, Compact<u64>)>>::decode_at(bytes, at)?;
        let (owner_ss58, at) = <AccountId>::decode_at(bytes, at)?;
        let (registrations, at) = <Vec<Compact<u16>>>::decode_at(bytes, at)?;
        let (validator_permits, at) = <Vec<Compact<u16>>>::decode_at(bytes, at)?;
        let (return_per_1000, at) = <Compact<u64>>::decode_at(bytes, at)?;
        let (total_daily_return, at) = <Compact<u64>>::decode_at(bytes, at)?;
        Ok(
            (
                DelegateInfo {
                    delegate_ss58,
                    take,
                    nominators,
                    owner_ss58,
                    registrations,
                    validator_permits,
                    return_per_1000,
                    total_daily_return,
                },
                at,
            ),
        )
    }
}

/// The endpoint at which a neuron serves requests.
#[derive(Clone, Copy, Debug, Default, PartialEq, Eq)]
pub struct AxonInfo {
    /// The block at which the endpoint was announced.
    pub block: u64,
    /// The version of the serving software.
    pub version: u32,
    /// The address: a v4 address in the low 32 bits, or a v6 address.
    pub ip: u128,
    /// The port.
    pub port: u16,
    /// 4 for a v4 address, 6 for a v6 address.
    pub ip_type: u8,
    /// The transport protocol, by its code.
    pub protocol: u8,
    /// Reserved.
    pub placeholder1: u8,
    /// Reserved.
    pub placeholder2: u8,
}

/// The value of a [`AxonInfo`].
pub struct AxonInfoModel {
    pub block: u64,
    pub version: u32,
    pub ip: u128,
    pub port: u16,
    pub ip_type: u8,
    pub protocol: u8,
    pub placeholder1: u8,
    pub placeholder2: u8,
}

impl Wire for AxonInfo {
    type Model = AxonInfoModel;

    open spec fn model(&self) -> AxonInfoModel {
        AxonInfoModel {
            block: self.block.model(),
            version: self.version.model(),
            ip: self.ip.model(),
            port: self.port.model(),
            ip_type: self.ip_type.model(),
            protocol: self.protocol.model(),
            placeholder1: self.placeholder1.model(),
            placeholder2: self.placeholder2.model(),
        }
    }

    open spec fn encodable(m: AxonInfoModel) -> bool {
        &&& <u64>::encodable(m.block)
        &&& <u32>::encodable(m.version)
        &&& <u128>::encodable(m.ip)
        &&& <u16>::encodable(m.port)
        &&& <u8>::encodable(m.ip_type)
        &&& <u8>::encodable(m.protocol)
        &&& <u8>::encodable(m.placeholder1)
        &&& <u8>::encodable(m.placeholder2)
    }

    open spec fn encoding(m: AxonInfoModel) -> Seq<u8> {
        <u64>::encoding(m.block)
            + <u32>::encoding(m.version)
            + <u128>::encoding(m.ip)
            + <u16>::encoding(m.port)
            + <u8>::encoding(m.ip_type)
            + <u8>::encoding(m.protocol)
            + <u8>::encoding(m.placeholder1)
            + <u8>::encoding(m.placeholder2)
    }

    open spec fn parse(bytes: Seq<u8>, pos: int) -> Result<(AxonInfoModel, int), CodecError> {
        let block = <u64>::parse(bytes, pos);
        let after_block = end_of(block, pos);
        let version = <u32>::parse(bytes, after_block);
        let after_version = end_of(version, after_block);
        let ip = <u128>::parse(bytes, after_version);
        let after_ip = end_of(ip, after_version);
        let port = <u16>::parse(bytes, after_ip);
        let after_port = end_of(port, after_ip);
        let ip_type = <u8>::parse(bytes, after_port);
        let after_ip_type = end_of(ip_type, after_port);
        let protocol = <u8>::parse(bytes, after_ip_type);
        let after_protocol = end_of(protocol, after_ip_type);
        let placeholder1 = <u8>::parse(bytes, after_protocol);
        let after_placeholder1 = end_of(placeholder1, after_protocol);
        let placeholder2 = <u8>::parse(bytes, after_placeholder1);
        let after_placeholder2 = end_of(placeholder2, after_placeholder1);
        if block is Err {
            Err(block->Err_0)
        } else if version is Err {
            Err(version->Err_0)
        } else if ip is Err {
            Err(ip->Err_0)
        } else if port is Err {
            Err(port->Err_0)
        } else if ip_type is Err {
            Err(ip_type->Err_0)
        } else if protocol is Err {
            Err(protocol->Err_0)
        } else if placeholder1 is Err {
            Err(placeholder1->Err_0)
        } else if placeholder2 is Err {
            Err(placeholder2->Err_0)
        } else {
            Ok(
                (
                    AxonInfoModel {
                        block: block->Ok_0.0,
                        version: version->Ok_0.0,
                        ip: ip->Ok_0.0,
                        port: port->Ok_0.0,
                        ip_type: ip_type->Ok_0.0,
                        protocol: protocol->Ok_0.0,
                        placeholder1: placeholder1->Ok_0.0,
                        placeholder2: placeholder2->Ok_0.0,
                    },
                    after_placeholder2,
                ),
            )
        }
    }

    proof fn lemma_round_trip(m: AxonInfoModel, bytes: Seq<u8>, pos: int) {
        let block = <u64>::encoding(m.block);
        let version = <u32>::encoding(m.version);
        let ip = <u128>::encoding(m.ip);
        let port = <u16>::encoding(m.port);
        let ip_type = <u8>::encoding(m.ip_type);
        let protocol = <u8>::encoding(m.protocol);
        let placeholder1 = <u8>::encoding(m.placeholder1);
        let placeholder2 = <u8>::encoding(m.placeholder2);
        let to_block = block;
        let to_version = to_block + version;
        let to_ip = to_version + ip;
        let to_port = to_ip + port;
        let to_ip_type = to_port + ip_type;
        let to_protocol = to_ip_type + protocol;
        let to_placeholder1 = to_protocol + placeholder1;
        lemma_has_at_split(bytes, pos, to_placeholder1, placeholder2);
        lemma_has_at_split(bytes, pos, to_protocol, placeholder1);
        lemma_has_at_split(bytes, pos, to_ip_type, protocol);
        lemma_has_at_split(bytes, pos, to_port, ip_type);
        lemma_has_at_split(bytes, pos, to_ip, port);
        lemma_has_at_split(bytes, pos, to_version, ip);
        lemma_has_at_split(bytes, pos, to_block, version);
        <u64>::lemma_round_trip(m.block, bytes, pos);
        <u32>::lemma_round_trip(m.version, bytes, pos + to_block.len());
        <u128>::lemma_round_trip(m.ip, bytes, pos + to_version.len());
        <u16>::lemma_round_trip(m.port, bytes, pos + to_ip.len());
        <u8>::lemma_round_trip(m.ip_type, bytes, pos + to_port.len());
        <u8>::lemma_round_trip(m.protocol, bytes, pos + to_ip_type.len());
        <u8>::lemma_round_trip(m.placeholder1, bytes, pos + to_protocol.len());
        <u8>::lemma_round_trip(m.placeholder2, bytes, pos + to_placeholder1.len());
    }

    proof fn lemma_canonical(bytes: Seq<u8>, pos: int) {
        let block = <u64>::parse(bytes, pos);
        <u64>::lemma_canonical(bytes, pos);
        let after_block = end_of(block, pos);
        let version = <u32>::parse(bytes, after_block);
        <u32>::lemma_canonical(bytes, after_block);
        let after_version = end_of(version, after_block);
        let ip = <u128>::parse(bytes, after_version);
        <u128>::lemma_canonical(bytes, after_version);
        let after_ip = end_of(ip, after_version);
        let port = <u16>::parse(bytes, after_ip);
        <u16>::lemma_canonical(bytes, after_ip);
        let after_port = end_of(port, after_ip);
        let ip_type = <u8>::parse(bytes, after_port);
        <u8>::lemma_canonical(bytes, after_port);
        let after_ip_type = end_of(ip_type, after_port);
        let protocol = <u8>::parse(bytes, after_ip_type);
        <u8>::lemma_canonical(bytes, after_ip_type);
        let after_protocol = end_of(protocol, after_ip_type);
        let placeholder1 = <u8>::parse(bytes, after_protocol);
        <u8>::lemma_canonical(bytes, after_protocol);
        let after_placeholder1 = end_of(placeholder1, after_protocol);
        let placeholder2 = <u8>::parse(bytes, after_placeholder1);
        <u8>::lemma_canonical(bytes, after_placeholder1);
        if Self::parse(bytes, pos) is Ok {
            let to_block = <u64>::encoding(block->Ok_0.0);
            let e_version = <u32>::encoding(version->Ok_0.0);
            lemma_has_at_join(bytes, pos, to_block, e_version);
            let to_version = to_block + e_version;
            let e_ip = <u128>::encoding(ip->Ok_0.0);
            lemma_has_at_join(bytes, pos, to_version, e_ip);
            let to_ip = to_version + e_ip;
            let e_port = <u16>::encoding(port->Ok_0.0);
            lemma_has_at_join(bytes, pos, to_ip, e_port);
            let to_port = to_ip + e_port;
            let e_ip_type = <u8>::encoding(ip_type->Ok_0.0);
            lemma_has_at_join(bytes, pos, to_port, e_ip_type);
            let to_ip_type = to_port + e_ip_type;
            let e_protocol = <u8>::encoding(protocol->Ok_0.0);
            lemma_has_at_join(bytes, pos, to_ip_type, e_protocol);
            let to_protocol = to_ip_type + e_protocol;
            let e_placeholder1 = <u8>::encoding(placeholder1->Ok_0.0);
            lemma_has_at_join(bytes, pos, to_protocol, e_placeholder1);
            let to_placeholder1 = to_protocol + e_placeholder1;
            let e_placeholder2 = <u8>::encoding(placeholder2->Ok_0.0);
            lemma_has_at_join(bytes, pos, to_placeholder1, e_placeholder2);
        }
    }

    fn can_encode(&self) -> (yes: bool) {
        self.block.can_encode()
            && self.version.can_encode()
            && self.ip.can_encode()
            && self.port.can_encode()
            && self.ip_type.can_encode()
            && self.protocol.can_encode()
            && self.placeholder1.can_encode()
            && self.placeholder2.can_encode()
    }

    fn encode_to(&self, out: &mut Vec<u8>) {
        let ghost m = self.model();
        let ghost start = out@;
        self.block.encode_to(out);
        let ghost written = <u64>::encoding(m.block);
        self.version.encode_to(out);
        proof {
            lemma_concat_assoc(start, written, <u32>::encoding(m.version));
        }
        let ghost written = written + <u32>::encoding(m.version);
        self.ip.encode_to(out);
        proof {
            lemma_concat_assoc(start, written, <u128>::encoding(m.ip));
        }
        let ghost written = written + <u128>::encoding(m.ip);
        self.port.encode_to(out);
        proof {
            lemma_concat_assoc(start, written, <u16>::encoding(m.port));
        }
        let ghost written = written + <u16>::encoding(m.port);
        self.ip_type.encode_to(out);
        proof {
            lemma_concat_assoc(start, written, <u8>::encoding(m.ip_type));
        }
        let ghost written = written + <u8>::encoding(m.ip_type);
        self.protocol.encode_to(out);
        proof {
            lemma_concat_assoc(start, written, <u8>::encoding(m.protocol));
        }
        let ghost written = written + <u8>::encoding(m.protocol);
        self.placeholder1.encode_to(out);
        proof {
            lemma_concat_assoc(start, written, <u8>::encoding(m.placeholder1));
        }
        let ghost written = written + <u8>::encoding(m.placeholder1);
        self.placeholder2.encode_to(out);
        proof {
            lemma_concat_assoc(start, written, <u8>::encoding(m.placeholder2));
        }
    }

    fn decode_at(bytes: &[u8], pos: usize) -> (r: Result<(AxonInfo, usize), CodecError>) {
        let (block, at) = <u64>::decode_at(bytes, pos)?;
        let (version, at) = <u32>::decode_at(bytes, at)?;
        let (ip, at) = <u128>::decode_at(bytes, at)?;
        let (port, at) = <u16>::decode_at(bytes, at)?;
        let (ip_type, at) = <u8>::decode_at(bytes, at)?;
        let (protocol, at) = <u8>::decode_at(bytes, at)?;
        let (placeholder1, at) = <u8>::decode_at(bytes, at)?;
        let (placeholder2, at) = <u8>::decode_at(bytes, at)?;
        Ok(
            (
                AxonInfo {
                    block,
                    version,
                    ip,
                    port,
                    ip_type,
                    protocol,
                    placeholder1,
                    placeholder2,
                },
                at,
            ),
        )
    }
}

/// The endpoint at which a neuron exposes its metrics.
#[derive(Clone, Copy, Debug, Default, PartialEq, Eq)]
pub struct PrometheusInfo {
    /// The block at which the endpoint was announced.
    pub block: u64,
    /// The version of the serving software.
    pub version: u32,
    /// The address: a v4 address in the low 32 bits, or a v6 address.
    pub ip: u128,
    /// The port.
    pub port: u16,
    /// 4 for a v4 address, 6 for a v6 address.
    pub ip_type: u8,
}

/// The value of a [`PrometheusInfo`].
pub struct PrometheusInfoModel {
    pub block: u64,
    pub version: u32,
    pub ip: u128,
    pub port: u16,
    pub ip_type: u8,
}

impl Wire for PrometheusInfo {
    type Model = PrometheusInfoModel;

    open spec fn model(&self) -> PrometheusInfoModel {
        PrometheusInfoModel {
            block: self.block.model(),
            version: self.version.model(),
            ip: self.ip.model(),
            port: self.port.model(),
            ip_type: self.ip_type.model(),
        }
    }

    open spec fn encodable(m: PrometheusInfoModel) -> bool {
        &&& <u64>::encodable(m.block)
        &&& <u32>::encodable(m.version)
        &&& <u128>::encodable(m.ip)
        &&& <u16>::encodable(m.port)
        &&& <u8>::encodable(m.ip_type)
    }

    open spec fn encoding(m: PrometheusInfoModel) -> Seq<u8> {
        <u64>::encoding(m.block)
            + <u32>::encoding(m.version)
            + <u128>::encoding(m.ip)
            + <u16>::encoding(m.port)
            + <u8>::encoding(m.ip_type)
    }

    open spec fn parse(bytes: Seq<u8>, pos: int) -> Result<(PrometheusInfoModel, int), CodecError> {
        let block = <u64>::parse(bytes, pos);
        let after_block = end_of(block, pos);
        let version = <u32>::parse(bytes, after_block);
        let after_version = end_of(version, after_block);
        let ip = <u128>::parse(bytes, after_version);
        let after_ip = end_of(ip, after_version);
        let port = <u16>::parse(bytes, after_ip);
        let after_port = end_of(port, after_ip);
        let ip_type = <u8>::parse(bytes, after_port);
        let after_ip_type = end_of(ip_type, after_port);
        if block is Err {
            Err(block->Err_0)
        } else if version is Err {
            Err(version->Err_0)
        } else if ip is Err {
            Err(ip->Err_0)
        } else if port is Err {
            Err(port->Err_0)
        } else if ip_type is Err {
            Err(ip_type->Err_0)
        } else {
            Ok(
                (
                    PrometheusInfoModel {
                        block: block->Ok_0.0,
                        version: version->Ok_0.0,
                        ip: ip->Ok_0.0,
                        port: port->Ok_0.0,
                        ip_type: ip_type->Ok_0.0,
                    },
                    after_ip_type,
                ),
            )
        }
    }

    proof fn lemma_round_trip(m: PrometheusInfoModel, bytes: Seq<u8>, pos: int) {
        let block = <u64>::encoding(m.block);
        let version = <u32>::encoding(m.version);
        let ip = <u128>::encoding(m.ip);
        let port = <u16>::encoding(m.port);
        let ip_type = <u8>::encoding(m.ip_type);
        let to_block = block;
        let to_version = to_block + version;
        let to_ip = to_version + ip;
        let to_port = to_ip + port;
        lemma_has_at_split(bytes, pos, to_port, ip_type);
        lemma_has_at_split(bytes, pos, to_ip, port);
        lemma_has_at_split(bytes, pos, to_version, ip);
        lemma_has_at_split(bytes, pos, to_block, version);
        <u64>::lemma_round_trip(m.block, bytes, pos);
        <u32>::lemma_round_trip(m.version, bytes, pos + to_block.len());
        <u128>::lemma_round_trip(m.ip, bytes, pos + to_version.len());
        <u16>::lemma_round_trip(m.port, bytes, pos + to_ip.len());
        <u8>::lemma_round_trip(m.ip_type, bytes, pos + to_port.len());
    }

    proof fn lemma_canonical(bytes: Seq<u8>, pos: int) {
        let block = <u64>::parse(bytes, pos);
        <u64>::lemma_canonical(bytes, pos);
        let after_block = end_of(block, pos);
        let version = <u32>::parse(bytes, after_block);
        <u32>::lemma_canonical(bytes, after_block);
        let after_version = end_of(version, after_block);
        let ip = <u128>::parse(bytes, after_version);
        <u128>::lemma_canonical(bytes, after_version);
        let after_ip = end_of(ip, after_version);
        let port = <u16>::parse(bytes, after_ip);
        <u16>::lemma_canonical(bytes, after_ip);
        let after_port = end_of(port, after_ip);
        let ip_type = <u8>::parse(bytes, after_port);
        <u8>::lemma_canonical(bytes, after_port);
        if Self::parse(bytes, pos) is Ok {
            let to_block = <u64>::encoding(block->Ok_0.0);
            let e_version = <u32>::encoding(version->Ok_0.0);
            lemma_has_at_join(bytes, pos, to_block, e_version);
            let to_version = to_block + e_version;
            let e_ip = <u128>::encoding(ip->Ok_0.0);
            lemma_has_at_join(bytes, pos, to_version, e_ip);
            let to_ip = to_version + e_ip;
            let e_port = <u16>::encoding(port->Ok_0.0);
            lemma_has_at_join(bytes, pos, to_ip, e_port);
            let to_port = to_ip + e_port;
            let e_ip_type = <u8>::encoding(ip_type->Ok_0.0);
            lemma_has_at_join(bytes, pos, to_port, e_ip_type);
        }
    }

    fn can_encode(&self) -> (yes: bool) {
        self.block.can_encode()
            && self.version.can_encode()
            && self.ip.can_encode()
            && self.port.can_encode()
            && self.ip_type.can_encode()
    }

    fn encode_to(&self, out: &mut Vec<u8>) {
        let ghost m = self.model();
        let ghost start = out@;
        self.block.encode_to(out);
        let ghost written = <u64>::encoding(m.block);
        self.version.encode_to(out);
        proof {
            lemma_concat_assoc(start, written, <u32>::encoding(m.version));
        }
        let ghost written = written + <u32>::encoding(m.version);
        self.ip.encode_to(out);
        proof {
            lemma_concat_assoc(start, written, <u128>::encoding(m.ip));
        }
        let ghost written = written + <u128>::encoding(m.ip);
        self.port.encode_to(out);
        proof {
            lemma_concat_assoc(start, written, <u16>::encoding(m.port));
        }
        let ghost written = written + <u16>::encoding(m.port);
        self.ip_type.encode_to(out);
        proof {
            lemma_concat_assoc(start, written, <u8>::encoding(m.ip_type));
        }
    }

    fn decode_at(bytes: &[u8], pos: usize) -> (r: Result<(PrometheusInfo, usize), CodecError>) {
        let (block, at) = <u64>::decode_at(bytes, pos)?;
        let (version, at) = <u32>::decode_at(bytes, at)?;
        let (ip, at) = <u128>::decode_at(bytes, at)?;
        let (port, at) = <u16>::decode_at(bytes, at)?;
        let (ip_type, at) = <u8>::decode_at(bytes, at)?;
        Ok(
            (
                PrometheusInfo {
                    block,
                    version,
                    ip,
                    port,
                    ip_type,
                },
                at,
            ),
        )
    }
}

/// A neuron with the weights and bonds it has set.
#[derive(Clone, Debug, PartialEq, Eq)]
pub struct NeuronInfo {
    /// The account that signs for the neuron.
    pub hotkey: AccountId,
    /// The account that holds the neuron's stake.
    pub coldkey: AccountId,
    /// The neuron's index within its subnet.
    pub uid: Compact<u16>,
    /// The subnet.
    pub netuid: Compact<u16>,
    /// Whether the neuron is active.
    pub active: bool,
    /// Where the neuron serves requests.
    pub axon_info: AxonInfo,
    /// Where the neuron exposes its metrics.
    pub prometheus_info: PrometheusInfo,
    /// The stake on this neuron by account, delegations included, in the order
    /// in which the chain lists it.
    pub stake: Vec<(AccountId, Compact<u64>)>,
    pub rank: Compact<u16>,
    pub emission: Compact<u64>,
    pub incentive: Compact<u16>,
    pub consensus: Compact<u16>,
    pub trust: Compact<u16>,
    pub validator_trust: Compact<u16>,
    pub dividends: Compact<u16>,
    /// The block of the neuron's last weight update.
    pub last_update: Compact<u64>,
    /// Whether the neuron may validate.
    pub validator_permit: bool,
    /// The weights set by the neuron: neuron index and weight.
    pub weights: Vec<(Compact<u16>, Compact<u16>)>,
    /// The bonds held by the neuron: neuron index and bond.
    pub bonds: Vec<(Compact<u16>, Compact<u16>)>,
    pub pruning_score: Compact<u16>,
}

/// The value of a [`NeuronInfo`].
pub struct NeuronInfoModel {
    pub hotkey: Seq<u8>,
    pub coldkey: Seq<u8>,
    pub uid: u16,
    pub netuid: u16,
    pub active: bool,
    pub axon_info: AxonInfoModel,
    pub prometheus_info: PrometheusInfoModel,
    pub stake: Seq<(Seq<u8>, u64)>,
    pub rank: u16,
    pub emission: u64,
    pub incentive: u16,
    pub consensus: u16,
    pub trust: u16,
    pub validator_trust: u16,
    pub dividends: u16,
    pub last_update: u64,
    pub validator_permit: bool,
    pub weights: Seq<(u16, u16)>,
    pub bonds: Seq<(u16, u16)>,
    pub pruning_score: u16,
}

impl Wire for NeuronInfo {
    type Model = NeuronInfoModel;

    open spec fn model(&self) -> NeuronInfoModel {
        NeuronInfoModel {
            hotkey: self.hotkey.model(),
            coldkey: self.coldkey.model(),
            uid: self.uid.model(),
            netuid: self.netuid.model(),
            active: self.active.model(),
            axon_info: self.axon_info.model(),
            prometheus_info: self.prometheus_info.model(),
            stake: self.stake.model(),
            rank: self.rank.model(),
            emission: self.emission.model(),
            incentive: self.incentive.model(),
            consensus: self.consensus.model(),
            trust: self.trust.model(),
            validator_trust: self.validator_trust.model(),
            dividends: self.dividends.model(),
            last_update: self.last_update.model(),
            validator_permit: self.validator_permit.model(),
            weights: self.weights.model(),
            bonds: self.bonds.model(),
            pruning_score: self.pruning_score.model(),
        }
    }

    open spec fn encodable(m: NeuronInfoModel) -> bool {
        &&& <AccountId>::encodable(m.hotkey)
        &&& <AccountId>::encodable(m.coldkey)
        &&& <Compact<u16>>::encodable(m.uid)
        &&& <Compact<u16>>::encodable(m.netuid)
        &&& <bool>::encodable(m.active)
        &&& <AxonInfo>::encodable(m.axon_info)
        &&& <PrometheusInfo>::encodable(m.prometheus_info)
        &&& <Vec<(AccountId, Compact<u64>)>>::encodable(m.stake)
        &&& <Compact<u16>>::encodable(m.rank)
        &&& <Compact<u64>>::encodable(m.emission)
        &&& <Compact<u16>>::encodable(m.incentive)
        &&& <Compact<u16>>::encodable(m.consensus)
        &&& <Compact<u16>>::encodable(m.trust)
        &&& <Compact<u16>>::encodable(m.validator_trust)
        &&& <Compact<u16>>::encodable(m.dividends)
        &&& <Compact<u64>>::encodable(m.last_update)
        &&& <bool>::encodable(m.validator_permit)
        &&& <Vec<(Compact<u16>, Compact<u16>)>>::encodable(m.weights)
        &&& <Vec<(Compact<u16>, Compact<u16>)>>::encodable(m.bonds)
        &&& <Compact<u16>>::encodable(m.pruning_score)
    }

    open spec fn encoding(m: NeuronInfoModel) -> Seq<u8> {
        <AccountId>::encoding(m.hotkey)
            + <AccountId>::encoding(m.coldkey)
            + <Compact<u16>>::encoding(m.uid)
            + <Compact<u16>>::encoding(m.netuid)
            + <bool>::encoding(m.active)
            + <AxonInfo>::encoding(m.axon_info)
            + <PrometheusInfo>::encoding(m.prometheus_info)
            + <Vec<(AccountId, Compact<u64>)>>::encoding(m.stake)
            + <Compact<u16>>::encoding(m.rank)
            + <Compact<u64>>::encoding(m.emission)
            + <Compact<u16>>::encoding(m.incentive)
            + <Compact<u16>>::encoding(m.consensus)
            + <Compact<u16>>::encoding(m.trust)
            + <Compact<u16>>::encoding(m.validator_trust)
            + <Compact<u16>>::encoding(m.dividends)
            + <Compact<u64>>::encoding(m.last_update)
            + <bool>::encoding(m.validator_permit)
            + <Vec<(Compact<u16>, Compact<u16>)>>::encoding(m.weights)
            + <Vec<(Compact<u16>, Compact<u16>)>>::encoding(m.bonds)
            + <Compact<u16>>::encoding(m.pruning_score)
    }

    open spec fn parse(bytes: Seq<u8>, pos: int) -> Result<(NeuronInfoModel, int), CodecError> {
        let hotkey = <AccountId>::parse(bytes, pos);
        let after_hotkey = end_of(hotkey, pos);
        let coldkey = <AccountId>::parse(bytes, after_hotkey);
        let after_coldkey = end_of(coldkey, after_hotkey);
        let uid = <Compact<u16>>::parse(bytes, after_coldkey);
        let after_uid = end_of(uid, after_coldkey);
        let netuid = <Compact<u16>>::parse(bytes, after_uid);
        let after_netuid = end_of(netuid, after_uid);
        let active = <bool>::parse(bytes, after_netuid);
        let after_active = end_of(active, after_netuid);
        let axon_info = <AxonInfo>::parse(bytes, after_active);
        let after_axon_info = end_of(axon_info, after_active);
        let prometheus_info = <PrometheusInfo>::parse(bytes, after_axon_info);
        let after_prometheus_info = end_of(prometheus_info, after_axon_info);
        let stake = <Vec<(AccountId, Compact<u64>)>>::parse(bytes, after_prometheus_info);
        let after_stake = end_of(stake, after_prometheus_info);
        let rank = <Compact<u16>>::parse(bytes, after_stake);
        let after_rank = end_of(rank, after_stake);
        let emission = <Compact<u64>>::parse(bytes, after_rank);
        let after_emission = end_of(emission, after_rank);
        let incentive = <Compact<u16>>::parse(bytes, after_emission);
        let after_incentive = end_of(incentive, after_emission);
        let consensus = <Compact<u16>>::parse(bytes, after_incentive);
        let after_consensus = end_of(consensus, after_incentive);
        let trust = <Compact<u16>>::parse(bytes, after_consensus);
        let after_trust = end_of(trust, after_consensus);
        let validator_trust = <Compact<u16>>::parse(bytes, after_trust);
        let after_validator_trust = end_of(validator_trust, after_trust);
        let dividends = <Compact<u16>>::parse(bytes, after_validator_trust);
        let after_dividends = end_of(dividends, after_validator_trust);
        let last_update = <Compact<u64>>::parse(bytes, after_dividends);
        let after_last_update = end_of(last_update, after_dividends);
        let validator_permit = <bool>::parse(bytes, after_last_update);
        let after_validator_permit = end_of(validator_permit, after_last_update);
        let weights = <Vec<(Compact<u16>, Compact<u16>)>>::parse(bytes, after_validator_permit);
        let after_weights = end_of(weights, after_validator_permit);
        let bonds = <Vec<(Compact<u16>, Compact<u16>)>>::parse(bytes, after_weights);
        let after_bonds = end_of(bonds, after_weights);
        let pruning_score = <Compact<u16>>::parse(bytes, after_bonds);
        let after_pruning_score = end_of(pruning_score, after_bonds);
        if hotkey is Err {
            Err(hotkey->Err_0)
        } else if coldkey is Err {
            Err(coldkey->Err_0)
        } else if uid is Err {
            Err(uid->Err_0)
        } else if netuid is Err {
            Err(netuid->Err_0)
        } else if active is Err {
            Err(active->Err_0)
        } else if axon_info is Err {
            Err(axon_info->Err_0)
        } else if prometheus_info is Err {
            Err(prometheus_info->Err_0)
        } else if stake is Err {
            Err(stake->Err_0)
        } else if rank is Err {
            Err(rank->Err_0)
        } else if emission is Err {
            Err(emission->Err_0)
        } else if incentive is Err {
            Err(incentive->Err_0)
        } else if consensus is Err {
            Err(consensus->Err_0)
        } else if trust is Err {
            Err(trust->Err_0)
        } else if validator_trust is Err {
            Err(validator_trust->Err_0)
        } else if dividends is Err {
            Err(dividends->Err_0)
        } else if last_update is Err {
            Err(last_update->Err_0)
        } else if validator_permit is Err {
            Err(validator_permit->Err_0)
        } else if weights is Err {
            Err(weights->Err_0)
        } else if bonds is Err {
            Err(bonds->Err_0)
        } else if pruning_score is Err {
            Err(pruning_score->Err_0)
        } else {
            Ok(
                (
                    NeuronInfoModel {
                        hotkey: hotkey->Ok_0.0,
                        coldkey: coldkey->Ok_0.0,
                        uid: uid->Ok_0.0,
                        netuid: netuid->Ok_0.0,
                        active: active->Ok_0.0,
                        axon_info: axon_info->Ok_0.0,
                        prometheus_info: prometheus_info->Ok_0.0,
                        stake: stake->Ok_0.0,
                        rank: rank->Ok_0.0,
                        emission: emission->Ok_0.0,
                        incentive: incentive->Ok_0.0,
                        consensus: consensus->Ok_0.0,
                        trust: trust->Ok_0.0,
                        validator_trust: validator_trust->Ok_0.0,
                        dividends: dividends->Ok_0.0,
                        last_update: last_update->Ok_0.0,
                        validator_permit: validator_permit->Ok_0.0,
                        weights: weights->Ok_0.0,
                        bonds: bonds->Ok_0.0,
                        pruning_score: pruning_score->Ok_0.0,
                    },
                    after_pruning_score,
                ),
            )
        }
    }

    proof fn lemma_round_trip(m: NeuronInfoModel, bytes: Seq<u8>, pos: int) {
        let hotkey = <AccountId>::encoding(m.hotkey);
        let coldkey = <AccountId>::encoding(m.coldkey);
        let uid = <Compact<u16>>::encoding(m.uid);
        let netuid = <Compact<u16>>::encoding(m.netuid);
        let active = <bool>::encoding(m.active);
        let axon_info = <AxonInfo>::encoding(m.axon_info);
        let prometheus_info = <PrometheusInfo>::encoding(m.prometheus_info);
        let stake = <Vec<(AccountId, Compact<u64>)>>::encoding(m.stake);
        let rank = <Compact<u16>>::encoding(m.rank);
        let emission = <Compact<u64>>::encoding(m.emission);
        let incentive = <Compact<u16>>::encoding(m.incentive);
        let consensus = <Compact<u16>>::encoding(m.consensus);
        let trust = <Compact<u16>>::encoding(m.trust);
        let validator_trust = <Compact<u16>>::encoding(m.validator_trust);
        let dividends = <Compact<u16>>::encoding(m.dividends);
        let last_update = <Compact<u64>>::encoding(m.last_update);
        let validator_permit = <bool>::encoding(m.validator_permit);
        let weights = <Vec<(Compact<u16>, Compact<u16>)>>::encoding(m.weights);
        let bonds = <Vec<(Compact<u16>, Compact<u16>)>>::encoding(m.bonds);
        let pruning_score = <Compact<u16>>::encoding(m.pruning_score);
        let to_hotkey = hotkey;
        let to_coldkey = to_hotkey + coldkey;
        let to_uid = to_coldkey + uid;
        let to_netuid = to_uid + netuid;
        let to_active = to_netuid + active;
        let to_axon_info = to_active + axon_info;
        let to_prometheus_info = to_axon_info + prometheus_info;
        let to_stake = to_prometheus_info + stake;
        let to_rank = to_stake + rank;
        let to_emission = to_rank + emission;
        let to_incentive = to_emission + incentive;
        let to_consensus = to_incentive + consensus;
        let to_trust = to_consensus + trust;
        let to_validator_trust = to_trust + validator_trust;
        let to_dividends = to_validator_trust + dividends;
        let to_last_update = to_dividends + last_update;
        let to_validator_permit = to_last_update + validator_permit;
        let to_weights = to_validator_permit + weights;
        let to_bonds = to_weights + bonds;
        lemma_has_at_split(bytes, pos, to_bonds, pruning_score);
        lemma_has_at_split(bytes, pos, to_weights, bonds);
        lemma_has_at_split(bytes, pos, to_validator_permit, weights);
        lemma_has_at_split(bytes, pos, to_last_update, validator_permit);
        lemma_has_at_split(bytes, pos, to_dividends, last_update);
        lemma_has_at_split(bytes, pos, to_validator_trust, dividends);
        lemma_has_at_split(bytes, pos, to_trust, validator_trust);
        lemma_has_at_split(bytes, pos, to_consensus, trust);
        lemma_has_at_split(bytes, pos, to_incentive, consensus);
        lemma_has_at_split(bytes, pos, to_emission, incentive);
        lemma_has_at_split(bytes, pos, to_rank, emission);
        lemma_has_at_split(bytes, pos, to_stake, rank);
        lemma_has_at_split(bytes, pos, to_prometheus_info, stake);
        lemma_has_at_split(bytes, pos, to_axon_info, prometheus_info);
        lemma_has_at_split(bytes, pos, to_active, axon_info);
        lemma_has_at_split(bytes, pos, to_netuid, active);
        lemma_has_at_split(bytes, pos, to_uid, netuid);
        lemma_has_at_split(bytes, pos, to_coldkey, uid);
        lemma_has_at_split(bytes, pos, to_hotkey, coldkey);
        <AccountId>::lemma_round_trip(m.hotkey, bytes, pos);
        <AccountId>::lemma_round_trip(m.coldkey, bytes, pos + to_hotkey.len());
        <Compact<u16>>::lemma_round_trip(m.uid, bytes, pos + to_coldkey.len());
        <Compact<u16>>::lemma_round_trip(m.netuid, bytes, pos + to_uid.len());
        <bool>::lemma_round_trip(m.active, bytes, pos + to_netuid.len());
        <AxonInfo>::lemma_round_trip(m.axon_info, bytes, pos + to_active.len());
        <PrometheusInfo>::lemma_round_trip(m.prometheus_info, bytes, pos + to_axon_info.len());
        <Vec<(AccountId, Compact<u64>)>>::lemma_round_trip(m.stake, bytes, pos + to_prometheus_info.len());
        <Compact<u16>>::lemma_round_trip(m.rank, bytes, pos + to_stake.len());
        <Compact<u64>>::lemma_round_trip(m.emission, bytes, pos + to_rank.len());
        <Compact<u16>>::lemma_round_trip(m.incentive, bytes, pos + to_emission.len());
        <Compact<u16>>::lemma_round_trip(m.consensus, bytes, pos + to_incentive.len());
        <Compact<u16>>::lemma_round_trip(m.trust, bytes, pos + to_consensus.len());
        <Compact<u16>>::lemma_round_trip(m.validator_trust, bytes, pos + to_trust.len());
        <Compact<u16>>::lemma_round_trip(m.dividends, bytes, pos + to_validator_trust.len());
        <Compact<u64>>::lemma_round_trip(m.last_update, bytes, pos + to_dividends.len());
        <bool>::lemma_round_trip(m.validator_permit, bytes, pos + to_last_update.len());
        <Vec<(Compact<u16>, Compact<u16>)>>::lemma_round_trip(m.weights, bytes, pos + to_validator_permit.len());
        <Vec<(Compact<u16>, Compact<u16>)>>::lemma_round_trip(m.bonds, bytes, pos + to_weights.len());
        <Compact<u16>>::lemma_round_trip(m.pruning_score, bytes, pos + to_bonds.len());
    }

    proof fn lemma_canonical(bytes: Seq<u8>, pos: int) {
        let hotkey = <AccountId>::parse(bytes, pos);
        <AccountId>::lemma_canonical(bytes, pos);
        let after_hotkey = end_of(hotkey, pos);
        let coldkey = <AccountId>::parse(bytes, after_hotkey);
        <AccountId>::lemma_canonical(bytes, after_hotkey);
        let after_coldkey = end_of(coldkey, after_hotkey);
        let uid = <Compact<u16>>::parse(bytes, after_coldkey);
        <Compact<u16>>::lemma_canonical(bytes, after_coldkey);
        let after_uid = end_of(uid, after_coldkey);
        let netuid = <Compact<u16>>::parse(bytes, after_uid);
        <Compact<u16>>::lemma_canonical(bytes, after_uid);
        let after_netuid = end_of(netuid, after_uid);
        let active = <bool>::parse(bytes, after_netuid);
        <bool>::lemma_canonical(bytes, after_netuid);
        let after_active = end_of(active, after_netuid);
        let axon_info = <AxonInfo>::parse(bytes, after_active);
        <AxonInfo>::lemma_canonical(bytes, after_active);
        let after_axon_info = end_of(axon_info, after_active);
        let prometheus_info = <PrometheusInfo>::parse(bytes, after_axon_info);
        <PrometheusInfo>::lemma_canonical(bytes, after_axon_info);
        let after_prometheus_info = end_of(prometheus_info, after_axon_info);
        let stake = <Vec<(AccountId, Compact<u64>)>>::parse(bytes, after_prometheus_info);
        <Vec<(AccountId, Compact<u64>)>>::lemma_canonical(bytes, after_prometheus_info);
        let after_stake = end_of(stake, after_prometheus_info);
        let rank = <Compact<u16>>::parse(bytes, after_stake);
        <Compact<u16>>::lemma_canonical(bytes, after_stake);
        let after_rank = end_of(rank, after_stake);
        let emission = <Compact<u64>>::parse(bytes, after_rank);
        <Compact<u64>>::lemma_canonical(bytes, after_rank);
        let after_emission = end_of(emission, after_rank);
        let incentive = <Compact<u16>>::parse(bytes, after_emission);
        <Compact<u16>>::lemma_canonical(bytes, after_emission);
        let after_incentive = end_of(incentive, after_emission);
        let consensus = <Compact<u16>>::parse(bytes, after_incentive);
        <Compact<u16>>::lemma_canonical(bytes, after_incentive);
        let after_consensus = end_of(consensus, after_incentive);
        let trust = <Compact<u16>>::parse(bytes, after_consensus);
        <Compact<u16>>::lemma_canonical(bytes, after_consensus);
        let after_trust = end_of(trust, after_consensus);
        let validator_trust = <Compact<u16>>::parse(bytes, after_trust);
        <Compact<u16>>::lemma_canonical(bytes, after_trust);
        let after_validator_trust = end_of(validator_trust, after_trust);
        let dividends = <Compact<u16>>::parse(bytes, after_validator_trust);
        <Compact<u16>>::lemma_canonical(bytes, after_validator_trust);
        let after_dividends = end_of(dividends, after_validator_trust);
        let last_update = <Compact<u64>>::parse(bytes, after_dividends);
        <Compact<u64>>::lemma_canonical(bytes, after_dividends);
        let after_last_update = end_of(last_update, after_dividends);
        let validator_permit = <bool>::parse(bytes, after_last_update);
        <bool>::lemma_canonical(bytes, after_last_update);
        let after_validator_permit = end_of(validator_permit, after_last_update);
        let weights = <Vec<(Compact<u16>, Compact<u16>)>>::parse(bytes, after_validator_permit);
        <Vec<(Compact<u16>, Compact<u16>)>>::lemma_canonical(bytes, after_validator_permit);
        let after_weights = end_of(weights, after_validator_permit);
        let bonds = <Vec<(Compact<u16>, Compact<u16>)>>::parse(bytes, after_weights);
        <Vec<(Compact<u16>, Compact<u16>)>>::lemma_canonical(bytes, after_weights);
        let after_bonds = end_of(bonds, after_weights);
        let pruning_score = <Compact<u16>>::parse(bytes, after_bonds);
        <Compact<u16>>::lemma_canonical(bytes, after_bonds);
        if Self::parse(bytes, pos) is Ok {
            let to_hotkey = <AccountId>::encoding(hotkey->Ok_0.0);
            let e_coldkey = <AccountId>::encoding(coldkey->Ok_0.0);
            lemma_has_at_join(bytes, pos, to_hotkey, e_coldkey);
            let to_coldkey = to_hotkey + e_coldkey;
            let e_uid = <Compact<u16>>::encoding(uid->Ok_0.0);
            lemma_has_at_join(bytes, pos, to_coldkey, e_uid);
            let to_uid = to_coldkey + e_uid;
            let e_netuid = <Compact<u16>>::encoding(netuid->Ok_0.0);
            lemma_has_at_join(bytes, pos, to_uid, e_netuid);
            let to_netuid = to_uid + e_netuid;
            let e_active = <bool>::encoding(active->Ok_0.0);
            lemma_has_at_join(bytes, pos, to_netuid, e_active);
            let to_active = to_netuid + e_active;
            let e_axon_info = <AxonInfo>::encoding(axon_info->Ok_0.0);
            lemma_has_at_join(bytes, pos, to_active, e_axon_info);
            let to_axon_info = to_active + e_axon_info;
            let e_prometheus_info = <PrometheusInfo>::encoding(prometheus_info->Ok_0.0);
            lemma_has_at_join(bytes, pos, to_axon_info, e_prometheus_info);
            let to_prometheus_info = to_axon_info + e_prometheus_info;
            let e_stake = <Vec<(AccountId, Compact<u64>)>>::encoding(stake->Ok_0.0);
            lemma_has_at_join(bytes, pos, to_prometheus_info, e_stake);
            let to_stake = to_prometheus_info + e_stake;
            let e_rank = <Compact<u16>>::encoding(rank->Ok_0.0);
            lemma_has_at_join(bytes, pos, to_stake, e_rank);
            let to_rank = to_stake + e_rank;
            let e_emission = <Compact<u64>>::encoding(emission->Ok_0.0);
            lemma_has_at_join(bytes, pos, to_rank, e_emission);
            let to_emission = to_rank + e_emission;
            let e_incentive = <Compact<u16>>::encoding(incentive->Ok_0.0);
            lemma_has_at_join(bytes, pos, to_emission, e_incentive);
            let to_incentive = to_emission + e_incentive;
            let e_consensus = <Compact<u16>>::encoding(consensus->Ok_0.0);
            lemma_has_at_join(bytes, pos, to_incentive, e_consensus);
            let to_consensus = to_incentive + e_consensus;
            let e_trust = <Compact<u16>>::encoding(trust->Ok_0.0);
            lemma_has_at_join(bytes, pos, to_consensus, e_trust);
            let to_trust = to_consensus + e_trust;
            let e_validator_trust = <Compact<u16>>::encoding(validator_trust->Ok_0.0);
            lemma_has_at_join(bytes, pos, to_trust, e_validator_trust);
            let to_validator_trust = to_trust + e_validator_trust;
            let e_dividends = <Compact<u16>>::encoding(dividends->Ok_0.0);
            lemma_has_at_join(bytes, pos, to_validator_trust, e_dividends);
            let to_dividends = to_validator_trust + e_dividends;
            let e_last_update = <Compact<u64>>::encoding(last_update->Ok_0.0);
            lemma_has_at_join(bytes, pos, to_dividends, e_last_update);
            let to_last_update = to_dividends + e_last_update;
            let e_validator_permit = <bool>::encoding(validator_permit->Ok_0.0);
            lemma_has_at_join(bytes, pos, to_last_update, e_validator_permit);
            let to_validator_permit = to_last_update + e_validator_permit;
            let e_weights = <Vec<(Compact<u16>, Compact<u16>)>>::encoding(weights->Ok_0.0);
            lemma_has_at_join(bytes, pos, to_validator_permit, e_weights);
            let to_weights = to_validator_permit + e_weights;
            let e_bonds = <Vec<(Compact<u16>, Compact<u16>)>>::encoding(bonds->Ok_0.0);
            lemma_has_at_join(bytes, pos, to_weights, e_bonds);
            let to_bonds = to_weights + e_bonds;
            let e_pruning_score = <Compact<u16>>::encoding(pruning_score->Ok_0.0);
            lemma_has_at_join(bytes, pos, to_bonds, e_pruning_score);
        }
    }

    fn can_encode(&self) -> (yes: bool) {
        self.hotkey.can_encode()
            && self.coldkey.can_encode()
            && self.uid.can_encode()
            && self.netuid.can_encode()
            && self.active.can_encode()
            && self.axon_info.can_encode()
            && self.prometheus_info.can_encode()
            && self.stake.can_encode()
            && self.rank.can_encode()
            && self.emission.can_encode()
            && self.incentive.can_encode()
            && self.consensus.can_encode()
            && self.trust.can_encode()
            && self.validator_trust.can_encode()
            && self.dividends.can_encode()
            && self.last_update.can_encode()
            && self.validator_permit.can_encode()
            && self.weights.can_encode()
            && self.bonds.can_encode()
            && self.pruning_score.can_encode()
    }

    fn encode_to(&self, out: &mut Vec<u8>) {
        let ghost m = self.model();
        let ghost start = out@;
        self.hotkey.encode_to(out);
        let ghost written = <AccountId>::encoding(m.hotkey);
        self.coldkey.encode_to(out);
        proof {
            lemma_concat_assoc(start, written, <AccountId>::encoding(m.coldkey));
        }
        let ghost written = written + <AccountId>::encoding(m.coldkey);
        self.uid.encode_to(out);
        proof {
            lemma_concat_assoc(start, written, <Compact<u16>>::encoding(m.uid));
        }
        let ghost written = written + <Compact<u16>>::encoding(m.uid);
        self.netuid.encode_to(out);
        proof {
            lemma_concat_assoc(start, written, <Compact<u16>>::encoding(m.netuid));
        }
        let ghost written = written + <Compact<u16>>::encoding(m.netuid);
        self.active.encode_to(out);
        proof {
            lemma_concat_assoc(start, written, <bool>::encoding(m.active));
        }
        let ghost written = written + <bool>::encoding(m.active);
        self.axon_info.encode_to(out);
        proof {
            lemma_concat_assoc(start, written, <AxonInfo>::encoding(m.axon_info));
        }
        let ghost written = written + <AxonInfo>::encoding(m.axon_info);
        self.prometheus_info.encode_to(out);
        proof {
            lemma_concat_assoc(start, written, <PrometheusInfo>::encoding(m.prometheus_info));
        }
        let ghost written = written + <PrometheusInfo>::encoding(m.prometheus_info);
        self.stake.encode_to(out);
        proof {
            lemma_concat_assoc(start, written, <Vec<(AccountId, Compact<u64>)>>::encoding(m.stake));
        }
        let ghost written = written + <Vec<(AccountId, Compact<u64>)>>::encoding(m.stake);
        self.rank.encode_to(out);
        proof {
            lemma_concat_assoc(start, written, <Compact<u16>>::encoding(m.rank));
        }
        let ghost written = written + <Compact<u16>>::encoding(m.rank);
        self.emission.encode_to(out);
        proof {
            lemma_concat_assoc(start, written, <Compact<u64>>::encoding(m.emission));
        }
        let ghost written = written + <Compact<u64>>::encoding(m.emission);
        self.incentive.encode_to(out);
        proof {
            lemma_concat_assoc(start, written, <Compact<u16>>::encoding(m.incentive));
        }
        let ghost written = written + <Compact<u16>>::encoding(m.incentive);
        self.consensus.encode_to(out);
        proof {
            lemma_concat_assoc(start, written, <Compact<u16>>::encoding(m.consensus));
        }
        let ghost written = written + <Compact<u16>>::encoding(m.consensus);
        self.trust.encode_to(out);
        proof {
            lemma_concat_assoc(start, written, <Compact<u16>>::encoding(m.trust));
        }
        let ghost written = written + <Compact<u16>>::encoding(m.trust);
        self.validator_trust.encode_to(out);
        proof {
            lemma_concat_assoc(start, written, <Compact<u16>>::encoding(m.validator_trust));
        }
        let ghost written = written + <Compact<u16>>::encoding(m.validator_trust);
        self.dividends.encode_to(out);
        proof {
            lemma_concat_assoc(start, written, <Compact<u16>>::encoding(m.dividends));
        }
        let ghost written = written + <Compact<u16>>::encoding(m.dividends);
        self.last_update.encode_to(out);
        proof {
            lemma_concat_assoc(start, written, <Compact<u64>>::encoding(m.last_update));
        }
        let ghost written = written + <Compact<u64>>::encoding(m.last_update);
        self.validator_permit.encode_to(out);
        proof {
            lemma_concat_assoc(start, written, <bool>::encoding(m.validator_permit));
        }
        let ghost written = written + <bool>::encoding(m.validator_permit);
        self.weights.encode_to(out);
        proof {
            lemma_concat_assoc(start, written, <Vec<(Compact<u16>, Compact<u16>)>>::encoding(m.weights));
        }
        let ghost written = written + <Vec<(Compact<u16>, Compact<u16>)>>::encoding(m.weights);
        self.bonds.encode_to(out);
        proof {
            lemma_concat_assoc(start, written, <Vec<(Compact<u16>, Compact<u16>)>>::encoding(m.bonds));
        }
        let ghost written = written + <Vec<(Compact<u16>, Compact<u16>)>>::encoding(m.bonds);
        self.pruning_score.encode_to(out);
        proof {
            lemma_concat_assoc(start, written, <Compact<u16>>::encoding(m.pruning_score));
        }
    }

    fn decode_at(bytes: &[u8], pos: usize) -> (r: Result<(NeuronInfo, usize), CodecError>) {
        let (hotkey, at) = <AccountId>::decode_at(bytes, pos)?;
        let (coldkey, at) = <AccountId>::decode_at(bytes, at)?;
        let (uid, at) = <Compact<u16>>::decode_at(bytes, at)?;
        let (netuid, at) = <Compact<u16>>::decode_at(bytes, at)?;
        let (active, at) = <bool>::decode_at(bytes, at)?;
        let (axon_info, at) = <AxonInfo>::decode_at(bytes, at)?;
        let (prometheus_info, at) = <PrometheusInfo>::decode_at(bytes, at)?;
        let (stake, at) = <Vec<(AccountId, Compact<u64>)>>::decode_at(bytes, at)?;
        let (rank, at) = <Compact<u16>>::decode_at(bytes, at)?;
        let (emission, at) = <Compact<u64>>::decode_at(bytes, at)?;
        let (incentive, at) = <Compact<u16>>::decode_at(bytes, at)?;
        let (consensus, at) = <Compact<u16>>::decode_at(bytes, at)?;
        let (trust, at) = <Compact<u16>>::decode_at(bytes, at)?;
        let (validator_trust, at) = <Compact<u16>>::decode_at(bytes, at)?;
        let (dividends, at) = <Compact<u16>>::decode_at(bytes, at)?;
        let (last_update, at) = <Compact<u64>>::decode_at(bytes, at)?;
        let (validator_permit, at) = <bool>::decode_at(bytes, at)?;
        let (weights, at) = <Vec<(Compact<u16>, Compact<u16>)>>::decode_at(bytes, at)?;
        let (bonds, at) = <Vec<(Compact<u16>, Compact<u16>)>>::decode_at(bytes, at)?;
        let (pruning_score, at) = <Compact<u16>>::decode_at(bytes, at)?;
        Ok(
            (
                NeuronInfo {
                    hotkey,
                    coldkey,
                    uid,
                    netuid,
                    active,
                    axon_info,
                    prometheus_info,
                    stake,
                    rank,
                    emission,
                    incentive,
                    consensus,
                    trust,
                    validator_trust,
                    dividends,
                    last_update,
                    validator_permit,
                    weights,
                    bonds,
                    pruning_score,
                },
                at,
            ),
        )
    }
}

/// A neuron without its weights and bonds, for queries over many neurons.
#[derive(Clone, Debug, PartialEq, Eq)]
pub struct NeuronInfoLite {
    /// The account that signs for the neuron.
    pub hotkey: AccountId,
    /// The account that holds the neuron's stake.
    pub coldkey: AccountId,
    /// The neuron's index within its subnet.
    pub uid: Compact<u16>,
    /// The subnet.
    pub netuid: Compact<u16>,
    /// Whether the neuron is active.
    pub active: bool,
    /// Where the neuron serves requests.
    pub axon_info: AxonInfo,
    /// Where the neuron exposes its metrics.
    pub prometheus_info: PrometheusInfo,
    /// The stake on this neuron by account, delegations included, in the order
    /// in which the chain lists it.
    pub stake: Vec<(AccountId, Compact<u64>)>,
    pub rank: Compact<u16>,
    pub emission: Compact<u64>,
    pub incentive: Compact<u16>,
    pub consensus: Compact<u16>,
    pub trust: Compact<u16>,
    pub validator_trust: Compact<u16>,
    pub dividends: Compact<u16>,
    /// The block of the neuron's last weight update.
    pub last_update: Compact<u64>,
    /// Whether the neuron may validate.
    pub validator_permit: bool,
    pub pruning_score: Compact<u16>,
}

/// The value of a [`NeuronInfoLite`].
pub struct NeuronInfoLiteModel {
    pub hotkey: Seq<u8>,
    pub coldkey: Seq<u8>,
    pub uid: u16,
    pub netuid: u16,
    pub active: bool,
    pub axon_info: AxonInfoModel,
    pub prometheus_info: PrometheusInfoModel,
    pub stake: Seq<(Seq<u8>, u64)>,
    pub rank: u16,
    pub emission: u64,
    pub incentive: u16,
    pub consensus: u16,
    pub trust: u16,
    pub validator_trust: u16,
    pub dividends: u16,
    pub last_update: u64,
    pub validator_permit: bool,
    pub pruning_score: u16,
}

impl Wire for NeuronInfoLite {
    type Model = NeuronInfoLiteModel;

    open spec fn model(&self) -> NeuronInfoLiteModel {
        NeuronInfoLiteModel {
            hotkey: self.hotkey.model(),
            coldkey: self.coldkey.model(),
            uid: self.uid.model(),
            netuid: self.netuid.model(),
            active: self.active.model(),
            axon_info: self.axon_info.model(),
            prometheus_info: self.prometheus_info.model(),
            stake: self.stake.model(),
            rank: self.rank.model(),
            emission: self.emission.model(),
            incentive: self.incentive.model(),
            consensus: self.consensus.model(),
            trust: self.trust.model(),
            validator_trust: self.validator_trust.model(),
            dividends: self.dividends.model(),
            last_update: self.last_update.model(),
            validator_permit: self.validator_permit.model(),
            pruning_score: self.pruning_score.model(),
        }
    }

    open spec fn encodable(m: NeuronInfoLiteModel) -> bool {
        &&& <AccountId>::encodable(m.hotkey)
        &&& <AccountId>::encodable(m.coldkey)
        &&& <Compact<u16>>::encodable(m.uid)
        &&& <Compact<u16>>::encodable(m.netuid)
        &&& <bool>::encodable(m.active)
        &&& <AxonInfo>::encodable(m.axon_info)
        &&& <PrometheusInfo>::encodable(m.prometheus_info)
        &&& <Vec<(AccountId, Compact<u64>)>>::encodable(m.stake)
        &&& <Compact<u16>>::encodable(m.rank)
        &&& <Compact<u64>>::encodable(m.emission)
        &&& <Compact<u16>>::encodable(m.incentive)
        &&& <Compact<u16>>::encodable(m.consensus)
        &&& <Compact<u16>>::encodable(m.trust)
        &&& <Compact<u16>>::encodable(m.validator_trust)
        &&& <Compact<u16>>::encodable(m.dividends)
        &&& <Compact<u64>>::encodable(m.last_update)
        &&& <bool>::encodable(m.validator_permit)
        &&& <Compact<u16>>::encodable(m.pruning_score)
    }

    open spec fn encoding(m: NeuronInfoLiteModel) -> Seq<u8> {
        <AccountId>::encoding(m.hotkey)
            + <AccountId>::encoding(m.coldkey)
            + <Compact<u16>>::encoding(m.uid)
            + <Compact<u16>>::encoding(m.netuid)
            + <bool>::encoding(m.active)
            + <AxonInfo>::encoding(m.axon_info)
            + <PrometheusInfo>::encoding(m.prometheus_info)
            + <Vec<(AccountId, Compact<u64>)>>::encoding(m.stake)
            + <Compact<u16>>::encoding(m.rank)
            + <Compact<u64>>::encoding(m.emission)
            + <Compact<u16>>::encoding(m.incentive)
            + <Compact<u16>>::encoding(m.consensus)
            + <Compact<u16>>::encoding(m.trust)
            + <Compact<u16>>::encoding(m.validator_trust)
            + <Compact<u16>>::encoding(m.dividends)
            + <Compact<u64>>::encoding(m.last_update)
            + <bool>::encoding(m.validator_permit)
            + <Compact<u16>>::encoding(m.pruning_score)
    }

    open spec fn parse(bytes: Seq<u8>, pos: int) -> Result<(NeuronInfoLiteModel, int), CodecError> {
        let hotkey = <AccountId>::parse(bytes, pos);
        let after_hotkey = end_of(hotkey, pos);
        let coldkey = <AccountId>::parse(bytes, after_hotkey);
        let after_coldkey = end_of(coldkey, after_hotkey);
        let uid = <Compact<u16>>::parse(bytes, after_coldkey);
        let after_uid = end_of(uid, after_coldkey);
        let netuid = <Compact<u16>>::parse(bytes, after_uid);
        let after_netuid = end_of(netuid, after_uid);
        let active = <bool>::parse(bytes, after_netuid);
        let after_active = end_of(active, after_netuid);
        let axon_info = <AxonInfo>::parse(bytes, after_active);
        let after_axon_info = end_of(axon_info, after_active);
        let prometheus_info = <PrometheusInfo>::parse(bytes, after_axon_info);
        let after_prometheus_info = end_of(prometheus_info, after_axon_info);
        let stake = <Vec<(AccountId, Compact<u64>)>>::parse(bytes, after_prometheus_info);
        let after_stake = end_of(stake, after_prometheus_info);
        let rank = <Compact<u16>>::parse(bytes, after_stake);
        let after_rank = end_of(rank, after_stake);
        let emission = <Compact<u64>>::parse(bytes, after_rank);
        let after_emission = end_of(emission, after_rank);
        let incentive = <Compact<u16>>::parse(bytes, after_emission);
        let after_incentive = end_of(incentive, after_emission);
        let consensus = <Compact<u16>>::parse(bytes, after_incentive);
        let after_consensus = end_of(consensus, after_incentive);
        let trust = <Compact<u16>>::parse(bytes, after_consensus);
        let after_trust = end_of(trust, after_consensus);
        let validator_trust = <Compact<u16>>::parse(bytes, after_trust);
        let after_validator_trust = end_of(validator_trust, after_trust);
        let dividends = <Compact<u16>>::parse(bytes, after_validator_trust);
        let after_dividends = end_of(dividends, after_validator_trust);
        let last_update = <Compact<u64>>::parse(bytes, after_dividends);
        let after_last_update = end_of(last_update, after_dividends);
        let validator_permit = <bool>::parse(bytes, after_last_update);
        let after_validator_permit = end_of(validator_permit, after_last_update);
        let pruning_score = <Compact<u16>>::parse(bytes, after_validator_permit);
        let after_pruning_score = end_of(pruning_score, after_validator_permit);
        if hotkey is Err {
            Err(hotkey->Err_0)
        } else if coldkey is Err {
            Err(coldkey->Err_0)
        } else if uid is Err {
            Err(uid->Err_0)
        } else if netuid is Err {
            Err(netuid->Err_0)
        } else if active is Err {
            Err(active->Err_0)
        } else if axon_info is Err {
            Err(axon_info->Err_0)
        } else if prometheus_info is Err {
            Err(prometheus_info->Err_0)
        } else if stake is Err {
            Err(stake->Err_0)
        } else if rank is Err {
            Err(rank->Err_0)
        } else if emission is Err {
            Err(emission->Err_0)
        } else if incentive is Err {
            Err(incentive->Err_0)
        } else if consensus is Err {
            Err(consensus->Err_0)
        } else if trust is Err {
            Err(trust->Err_0)
        } else if validator_trust is Err {
            Err(validator_trust->Err_0)
        } else if dividends is Err {
            Err(dividends->Err_0)
        } else if last_update is Err {
            Err(last_update->Err_0)
        } else if validator_permit is Err {
            Err(validator_permit->Err_0)
        } else if pruning_score is Err {
            Err(pruning_score->Err_0)
        } else {
            Ok(
                (
                    NeuronInfoLiteModel {
                        hotkey: hotkey->Ok_0.0,
                        coldkey: coldkey->Ok_0.0,
                        uid: uid->Ok_0.0,
                        netuid: netuid->Ok_0.0,
                        active: active->Ok_0.0,
                        axon_info: axon_info->Ok_0.0,
                        prometheus_info: prometheus_info->Ok_0.0,
                        stake: stake->Ok_0.0,
                        rank: rank->Ok_0.0,
                        emission: emission->Ok_0.0,
                        incentive: incentive->Ok_0.0,
                        consensus: consensus->Ok_0.0,
                        trust: trust->Ok_0.0,
                        validator_trust: validator_trust->Ok_0.0,
                        dividends: dividends->Ok_0.0,
                        last_update: last_update->Ok_0.0,
                        validator_permit: validator_permit->Ok_0.0,
                        pruning_score: pruning_score->Ok_0.0,
                    },
                    after_pruning_score,
                ),
            )
        }
    }

    proof fn lemma_round_trip(m: NeuronInfoLiteModel, bytes: Seq<u8>, pos: int) {
        let hotkey = <AccountId>::encoding(m.hotkey);
        let coldkey = <AccountId>::encoding(m.coldkey);
        let uid = <Compact<u16>>::encoding(m.uid);
        let netuid = <Compact<u16>>::encoding(m.netuid);
        let active = <bool>::encoding(m.active);
        let axon_info = <AxonInfo>::encoding(m.axon_info);
        let prometheus_info = <PrometheusInfo>::encoding(m.prometheus_info);
        let stake = <Vec<(AccountId, Compact<u64>)>>::encoding(m.stake);
        let rank = <Compact<u16>>::encoding(m.rank);
        let emission = <Compact<u64>>::encoding(m.emission);
        let incentive = <Compact<u16>>::encoding(m.incentive);
        let consensus = <Compact<u16>>::encoding(m.consensus);
        let trust = <Compact<u16>>::encoding(m.trust);
        let validator_trust = <Compact<u16>>::encoding(m.validator_trust);
        let dividends = <Compact<u16>>::encoding(m.dividends);
        let last_update = <Compact<u64>>::encoding(m.last_update);
        let validator_permit = <bool>::encoding(m.validator_permit);
        let pruning_score = <Compact<u16>>::encoding(m.pruning_score);
        let to_hotkey = hotkey;
        let to_coldkey = to_hotkey + coldkey;
        let to_uid = to_coldkey + uid;
        let to_netuid = to_uid + netuid;
        let to_active = to_netuid + active;
        let to_axon_info = to_active + axon_info;
        let to_prometheus_info = to_axon_info + prometheus_info;
        let to_stake = to_prometheus_info + stake;
        let to_rank = to_stake + rank;
        let to_emission = to_rank + emission;
        let to_incentive = to_emission + incentive;
        let to_consensus = to_incentive + consensus;
        let to_trust = to_consensus + trust;
        let to_validator_trust = to_trust + validator_trust;
        let to_dividends = to_validator_trust + dividends;
        let to_last_update = to_dividends + last_update;
        let to_validator_permit = to_last_update + validator_permit;
        lemma_has_at_split(bytes, pos, to_validator_permit, pruning_score);
        lemma_has_at_split(bytes, pos, to_last_update, validator_permit);
        lemma_has_at_split(bytes, pos, to_dividends, last_update);
        lemma_has_at_split(bytes, pos, to_validator_trust, dividends);
        lemma_has_at_split(bytes, pos, to_trust, validator_trust);
        lemma_has_at_split(bytes, pos, to_consensus, trust);
        lemma_has_at_split(bytes, pos, to_incentive, consensus);
        lemma_has_at_split(bytes, pos, to_emission, incentive);
        lemma_has_at_split(bytes, pos, to_rank, emission);
        lemma_has_at_split(bytes, pos, to_stake, rank);
        lemma_has_at_split(bytes, pos, to_prometheus_info, stake);
        lemma_has_at_split(bytes, pos, to_axon_info, prometheus_info);
        lemma_has_at_split(bytes, pos, to_active, axon_info);
        lemma_has_at_split(bytes, pos, to_netuid, active);
        lemma_has_at_split(bytes, pos, to_uid, netuid);
        lemma_has_at_split(bytes, pos, to_coldkey, uid);
        lemma_has_at_split(bytes, pos, to_hotkey, coldkey);
        <AccountId>::lemma_round_trip(m.hotkey, bytes, pos);
        <AccountId>::lemma_round_trip(m.coldkey, bytes, pos + to_hotkey.len());
        <Compact<u16>>::lemma_round_trip(m.uid, bytes, pos + to_coldkey.len());
        <Compact<u16>>::lemma_round_trip(m.netuid, bytes, pos + to_uid.len());
        <bool>::lemma_round_trip(m.active, bytes, pos + to_netuid.len());
        <AxonInfo>::lemma_round_trip(m.axon_info, bytes, pos + to_active.len());
        <PrometheusInfo>::lemma_round_trip(m.prometheus_info, bytes, pos + to_axon_info.len());
        <Vec<(AccountId, Compact<u64>)>>::lemma_round_trip(m.stake, bytes, pos + to_prometheus_info.len());
        <Compact<u16>>::lemma_round_trip(m.rank, bytes, pos + to_stake.len());
        <Compact<u64>>::lemma_round_trip(m.emission, bytes, pos + to_rank.len());
        <Compact<u16>>::lemma_round_trip(m.incentive, bytes, pos + to_emission.len());
        <Compact<u16>>::lemma_round_trip(m.consensus, bytes, pos + to_incentive.len());
        <Compact<u16>>::lemma_round_trip(m.trust, bytes, pos + to_consensus.len());
        <Compact<u16>>::lemma_round_trip(m.validator_trust, bytes, pos + to_trust.len());
        <Compact<u16>>::lemma_round_trip(m.dividends, bytes, pos + to_validator_trust.len());
        <Compact<u64>>::lemma_round_trip(m.last_update, bytes, pos + to_dividends.len());
        <bool>::lemma_round_trip(m.validator_permit, bytes, pos + to_last_update.len());
        <Compact<u16>>::lemma_round_trip(m.pruning_score, bytes, pos + to_validator_permit.len());
    }

    proof fn lemma_canonical(bytes: Seq<u8>, pos: int) {
        let hotkey = <AccountId>::parse(bytes, pos);
        <AccountId>::lemma_canonical(bytes, pos);
        let after_hotkey = end_of(hotkey, pos);
        let coldkey = <AccountId>::parse(bytes, after_hotkey);
        <AccountId>::lemma_canonical(bytes, after_hotkey);
        let after_coldkey = end_of(coldkey, after_hotkey);
        let uid = <Compact<u16>>::parse(bytes, after_coldkey);
        <Compact<u16>>::lemma_canonical(bytes, after_coldkey);
        let after_uid = end_of(uid, after_coldkey);
        let netuid = <Compact<u16>>::parse(bytes, after_uid);
        <Compact<u16>>::lemma_canonical(bytes, after_uid);
        let after_netuid = end_of(netuid, after_uid);
        let active = <bool>::parse(bytes, after_netuid);
        <bool>::lemma_canonical(bytes, after_netuid);
        let after_active = end_of(active, after_netuid);
        let axon_info = <AxonInfo>::parse(bytes, after_active);
        <AxonInfo>::lemma_canonical(bytes, after_active);
        let after_axon_info = end_of(axon_info, after_active);
        let prometheus_info = <PrometheusInfo>::parse(bytes, after_axon_info);
        <PrometheusInfo>::lemma_canonical(bytes, after_axon_info);
        let after_prometheus_info = end_of(prometheus_info, after_axon_info);
        let stake = <Vec<(AccountId, Compact<u64>)>>::parse(bytes, after_prometheus_info);
        <Vec<(AccountId, Compact<u64>)>>::lemma_canonical(bytes, after_prometheus_info);
        let after_stake = end_of(stake, after_prometheus_info);
        let rank = <Compact<u16>>::parse(bytes, after_stake);
        <Compact<u16>>::lemma_canonical(bytes, after_stake);
        let after_rank = end_of(rank, after_stake);
        let emission = <Compact<u64>>::parse(bytes, after_rank);
        <Compact<u64>>::lemma_canonical(bytes, after_rank);
        let after_emission = end_of(emission, after_rank);
        let incentive = <Compact<u16>>::parse(bytes, after_emission);
        <Compact<u16>>::lemma_canonical(bytes, after_emission);
        let after_incentive = end_of(incentive, after_emission);
        let consensus = <Compact<u16>>::parse(bytes, after_incentive);
        <Compact<u16>>::lemma_canonical(bytes, after_incentive);
        let after_consensus = end_of(consensus, after_incentive);
        let trust = <Compact<u16>>::parse(bytes, after_consensus);
        <Compact<u16>>::lemma_canonical(bytes, after_consensus);
        let after_trust = end_of(trust, after_consensus);
        let validator_trust = <Compact<u16>>::parse(bytes, after_trust);
        <Compact<u16>>::lemma_canonical(bytes, after_trust);
        let after_validator_trust = end_of(validator_trust, after_trust);
        let dividends = <Compact<u16>>::parse(bytes, after_validator_trust);
        <Compact<u16>>::lemma_canonical(bytes, after_validator_trust);
        let after_dividends = end_of(dividends, after_validator_trust);
        let last_update = <Compact<u64>>::parse(bytes, after_dividends);
        <Compact<u64>>::lemma_canonical(bytes, after_dividends);
        let after_last_update = end_of(last_update, after_dividends);
        let validator_permit = <bool>::parse(bytes, after_last_update);
        <bool>::lemma_canonical(bytes, after_last_update);
        let after_validator_permit = end_of(validator_permit, after_last_update);
        let pruning_score = <Compact<u16>>::parse(bytes, after_validator_permit);
        <Compact<u16>>::lemma_canonical(bytes, after_validator_permit);
        if Self::parse(bytes, pos) is Ok {
            let to_hotkey = <AccountId>::encoding(hotkey->Ok_0.0);
            let e_coldkey = <AccountId>::encoding(coldkey->Ok_0.0);
            lemma_has_at_join(bytes, pos, to_hotkey, e_coldkey);
            let to_coldkey = to_hotkey + e_coldkey;
            let e_uid = <Compact<u16>>::encoding(uid->Ok_0.0);
            lemma_has_at_join(bytes, pos, to_coldkey, e_uid);
            let to_uid = to_coldkey + e_uid;
            let e_netuid = <Compact<u16>>::encoding(netuid->Ok_0.0);
            lemma_has_at_join(bytes, pos, to_uid, e_netuid);
            let to_netuid = to_uid + e_netuid;
            let e_active = <bool>::encoding(active->Ok_0.0);
            lemma_has_at_join(bytes, pos, to_netuid, e_active);
            let to_active = to_netuid + e_active;
            let e_axon_info = <AxonInfo>::encoding(axon_info->Ok_0.0);
            lemma_has_at_join(bytes, pos, to_active, e_axon_info);
            let to_axon_info = to_active + e_axon_info;
            let e_prometheus_info = <PrometheusInfo>::encoding(prometheus_info->Ok_0.0);
            lemma_has_at_join(bytes, pos, to_axon_info, e_prometheus_info);
            let to_prometheus_info = to_axon_info + e_prometheus_info;
            let e_stake = <Vec<(AccountId, Compact<u64>)>>::encoding(stake->Ok_0.0);
            lemma_has_at_join(bytes, pos, to_prometheus_info, e_stake);
            let to_stake = to_prometheus_info + e_stake;
            let e_rank = <Compact<u16>>::encoding(rank->Ok_0.0);
            lemma_has_at_join(bytes, pos, to_stake, e_rank);
            let to_rank = to_stake + e_rank;
            let e_emission = <Compact<u64>>::encoding(emission->Ok_0.0);
            lemma_has_at_join(bytes, pos, to_rank, e_emission);
            let to_emission = to_rank + e_emission;
            let e_incentive = <Compact<u16>>::encoding(incentive->Ok_0.0);
            lemma_has_at_join(bytes, pos, to_emission, e_incentive);
            let to_incentive = to_emission + e_incentive;
            let e_consensus = <Compact<u16>>::encoding(consensus->Ok_0.0);
            lemma_has_at_join(bytes, pos, to_incentive, e_consensus);
            let to_consensus = to_incentive + e_consensus;
            let e_trust = <Compact<u16>>::encoding(trust->Ok_0.0);
            lemma_has_at_join(bytes, pos, to_consensus, e_trust);
            let to_trust = to_consensus + e_trust;
            let e_validator_trust = <Compact<u16>>::encoding(validator_trust->Ok_0.0);
            lemma_has_at_join(bytes, pos, to_trust, e_validator_trust);
            let to_validator_trust = to_trust + e_validator_trust;
            let e_dividends = <Compact<u16>>::encoding(dividends->Ok_0.0);
            lemma_has_at_join(bytes, pos, to_validator_trust, e_dividends);
            let to_dividends = to_validator_trust + e_dividends;
            let e_last_update = <Compact<u64>>::encoding(last_update->Ok_0.0);
            lemma_has_at_join(bytes, pos, to_dividends, e_last_update);
            let to_last_update = to_dividends + e_last_update;
            let e_validator_permit = <bool>::encoding(validator_permit->Ok_0.0);
            lemma_has_at_join(bytes, pos, to_last_update, e_validator_permit);
            let to_validator_permit = to_last_update + e_validator_permit;
            let e_pruning_score = <Compact<u16>>::encoding(pruning_score->Ok_0.0);
            lemma_has_at_join(bytes, pos, to_validator_permit, e_pruning_score);
        }
    }

    fn can_encode(&self) -> (yes: bool) {
        self.hotkey.can_encode()
            && self.coldkey.can_encode()
            && self.uid.can_encode()
            && self.netuid.can_encode()
            && self.active.can_encode()
            && self.axon_info.can_encode()
            && self.prometheus_info.can_encode()
            && self.stake.can_encode()
            && self.rank.can_encode()
            && self.emission.can_encode()
            && self.incentive.can_encode()
            && self.consensus.can_encode()
            && self.trust.can_encode()
            && self.validator_trust.can_encode()
            && self.dividends.can_encode()
            && self.last_update.can_encode()
            && self.validator_permit.can_encode()
            && self.pruning_score.can_encode()
    }

    fn encode_to(&self, out: &mut Vec<u8>) {
        let ghost m = self.model();
        let ghost start = out@;
        self.hotkey.encode_to(out);
        let ghost written = <AccountId>::encoding(m.hotkey);
        self.coldkey.encode_to(out);
        proof {
            lemma_concat_assoc(start, written, <AccountId>::encoding(m.coldkey));
        }
        let ghost written = written + <AccountId>::encoding(m.coldkey);
        self.uid.encode_to(out);
        proof {
            lemma_concat_assoc(start, written, <Compact<u16>>::encoding(m.uid));
        }
        let ghost written = written + <Compact<u16>>::encoding(m.uid);
        self.netuid.encode_to(out);
        proof {
            lemma_concat_assoc(start, written, <Compact<u16>>::encoding(m.netuid));
        }
        let ghost written = written + <Compact<u16>>::encoding(m.netuid);
        self.active.encode_to(out);
        proof {
            lemma_concat_assoc(start, written, <bool>::encoding(m.active));
        }
        let ghost written = written + <bool>::encoding(m.active);
        self.axon_info.encode_to(out);
        proof {
            lemma_concat_assoc(start, written, <AxonInfo>::encoding(m.axon_info));
        }
        let ghost written = written + <AxonInfo>::encoding(m.axon_info);
        self.prometheus_info.encode_to(out);
        proof {
            lemma_concat_assoc(start, written, <PrometheusInfo>::encoding(m.prometheus_info));
        }
        let ghost written = written + <PrometheusInfo>::encoding(m.prometheus_info);
        self.stake.encode_to(out);
        proof {
            lemma_concat_assoc(start, written, <Vec<(AccountId, Compact<u64>)>>::encoding(m.stake));
        }
        let ghost written = written + <Vec<(AccountId, Compact<u64>)>>::encoding(m.stake);
        self.rank.encode_to(out);
        proof {
            lemma_concat_assoc(start, written, <Compact<u16>>::encoding(m.rank));
        }
        let ghost written = written + <Compact<u16>>::encoding(m.rank);
        self.emission.encode_to(out);
        proof {
            lemma_concat_assoc(start, written, <Compact<u64>>::encoding(m.emission));
        }
        let ghost written = written + <Compact<u64>>::encoding(m.emission);
        self.incentive.encode_to(out);
        proof {
            lemma_concat_assoc(start, written, <Compact<u16>>::encoding(m.incentive));
        }
        let ghost written = written + <Compact<u16>>::encoding(m.incentive);
        self.consensus.encode_to(out);
        proof {
            lemma_concat_assoc(start, written, <Compact<u16>>::encoding(m.consensus));
        }
        let ghost written = written + <Compact<u16>>::encoding(m.consensus);
        self.trust.encode_to(out);
        proof {
            lemma_concat_assoc(start, written, <Compact<u16>>::encoding(m.trust));
        }
        let ghost written = written + <Compact<u16>>::encoding(m.trust);
        self.validator_trust.encode_to(out);
        proof {
            lemma_concat_assoc(start, written, <Compact<u16>>::encoding(m.validator_trust));
        }
        let ghost written = written + <Compact<u16>>::encoding(m.validator_trust);
        self.dividends.encode_to(out);
        proof {
            lemma_concat_assoc(start, written, <Compact<u16>>::encoding(m.dividends));
        }
        let ghost written = written + <Compact<u16>>::encoding(m.dividends);
        self.last_update.encode_to(out);
        proof {
            lemma_concat_assoc(start, written, <Compact<u64>>::encoding(m.last_update));
        }
        let ghost written = written + <Compact<u64>>::encoding(m.last_update);
        self.validator_permit.encode_to(out);
        proof {
            lemma_concat_assoc(start, written, <bool>::encoding(m.validator_permit));
        }
        let ghost written = written + <bool>::encoding(m.validator_permit);
        self.pruning_score.encode_to(out);
        proof {
            lemma_concat_assoc(start, written, <Compact<u16>>::encoding(m.pruning_score));
        }
    }

    fn decode_at(bytes: &[u8], pos: usize) -> (r: Result<(NeuronInfoLite, usize), CodecError>) {
        let (hotkey, at) = <AccountId>::decode_at(bytes, pos)?;
        let (coldkey, at) = <AccountId>::decode_at(bytes, at)?;
        let (uid, at) = <Compact<u16>>::decode_at(bytes, at)?;
        let (netuid, at) = <Compact<u16>>::decode_at(bytes, at)?;
        let (active, at) = <bool>::decode_at(bytes, at)?;
        let (axon_info, at) = <AxonInfo>::decode_at(bytes, at)?;
        let (prometheus_info, at) = <PrometheusInfo>::decode_at(bytes, at)?;
        let (stake, at) = <Vec<(AccountId, Compact<u64>)>>::decode_at(bytes, at)?;
        let (rank, at) = <Compact<u16>>::decode_at(bytes, at)?;
        let (emission, at) = <Compact<u64>>::decode_at(bytes, at)?;
        let (incentive, at) = <Compact<u16>>::decode_at(bytes, at)?;
        let (consensus, at) = <Compact<u16>>::decode_at(bytes, at)?;
        let (trust, at) = <Compact<u16>>::decode_at(bytes, at)?;
        let (validator_trust, at) = <Compact<u16>>::decode_at(bytes, at)?;
        let (dividends, at) = <Compact<u16>>::decode_at(bytes, at)?;
        let (last_update, at) = <Compact<u64>>::decode_at(bytes, at)?;
        let (validator_permit, at) = <bool>::decode_at(bytes, at)?;
        let (pruning_score, at) = <Compact<u16>>::decode_at(bytes, at)?;
        Ok(
            (
                NeuronInfoLite {
                    hotkey,
                    coldkey,
                    uid,
                    netuid,
                    active,
                    axon_info,
                    prometheus_info,
                    stake,
                    rank,
                    emission,
                    incentive,
                    consensus,
                    trust,
                    validator_trust,
                    dividends,
                    last_update,
                    validator_permit,
                    pruning_score,
                },
                at,
            ),
        )
    }
}

/// The stake that one account holds on one neuron.
#[derive(Clone, Copy, Debug, PartialEq, Eq)]
pub struct StakeInfo {
    pub hotkey: AccountId,
    pub coldkey: AccountId,
    pub stake: Compact<u64>,
}

/// The value of a [`StakeInfo`].
pub struct StakeInfoModel {
    pub hotkey: Seq<u8>,
    pub coldkey: Seq<u8>,
    pub stake: u64,
}

impl Wire for StakeInfo {
    type Model = StakeInfoModel;

    open spec fn model(&self) -> StakeInfoModel {
        StakeInfoModel {
            hotkey: self.hotkey.model(),
            coldkey: self.coldkey.model(),
            stake: self.stake.model(),
        }
    }

    open spec fn encodable(m: StakeInfoModel) -> bool {
        &&& <AccountId>::encodable(m.hotkey)
        &&& <AccountId>::encodable(m.coldkey)
        &&& <Compact<u64>>::encodable(m.stake)
    }

    open spec fn encoding(m: StakeInfoModel) -> Seq<u8> {
        <AccountId>::encoding(m.hotkey)
            + <AccountId>::encoding(m.coldkey)
            + <Compact<u64>>::encoding(m.stake)
    }

    open spec fn parse(bytes: Seq<u8>, pos: int) -> Result<(StakeInfoModel, int), CodecError> {
        let hotkey = <AccountId>::parse(bytes, pos);
        let after_hotkey = end_of(hotkey, pos);
        let coldkey = <AccountId>::parse(bytes, after_hotkey);
        let after_coldkey = end_of(coldkey, after_hotkey);
        let stake = <Compact<u64>>::parse(bytes, after_coldkey);
        let after_stake = end_of(stake, after_coldkey);
        if hotkey is Err {
            Err(hotkey->Err_0)
        } else if coldkey is Err {
            Err(coldkey->Err_0)
        } else if stake is Err {
            Err(stake->Err_0)
        } else {
            Ok(
                (
                    StakeInfoModel {
                        hotkey: hotkey->Ok_0.0,
                        coldkey: coldkey->Ok_0.0,
                        stake: stake->Ok_0.0,
                    },
                    after_stake,
                ),
            )
        }
    }

    proof fn lemma_round_trip(m: StakeInfoModel, bytes: Seq<u8>, pos: int) {
        let hotkey = <AccountId>::encoding(m.hotkey);
        let coldkey = <AccountId>::encoding(m.coldkey);
        let stake = <Compact<u64>>::encoding(m.stake);
        let to_hotkey = hotkey;
        let to_coldkey = to_hotkey + coldkey;
        lemma_has_at_split(bytes, pos, to_coldkey, stake);
        lemma_has_at_split(bytes, pos, to_hotkey, coldkey);
        <AccountId>::lemma_round_trip(m.hotkey, bytes, pos);
        <AccountId>::lemma_round_trip(m.coldkey, bytes, pos + to_hotkey.len());
        <Compact<u64>>::lemma_round_trip(m.stake, bytes, pos + to_coldkey.len());
    }

    proof fn lemma_canonical(bytes: Seq<u8>, pos: int) {
        let hotkey = <AccountId>::parse(bytes, pos);
        <AccountId>::lemma_canonical(bytes, pos);
        let after_hotkey = end_of(hotkey, pos);
        let coldkey = <AccountId>::parse(bytes, after_hotkey);
        <AccountId>::lemma_canonical(bytes, after_hotkey);
        let after_coldkey = end_of(coldkey, after_hotkey);
        let stake = <Compact<u64>>::parse(bytes, after_coldkey);
        <Compact<u64>>::lemma_canonical(bytes, after_coldkey);
        if Self::parse(bytes, pos) is Ok {
            let to_hotkey = <AccountId>::encoding(hotkey->Ok_0.0);
            let e_coldkey = <AccountId>::encoding(coldkey->Ok_0.0);
            lemma_has_at_join(bytes, pos, to_hotkey, e_coldkey);
            let to_coldkey = to_hotkey + e_coldkey;
            let e_stake = <Compact<u64>>::encoding(stake->Ok_0.0);
            lemma_has_at_join(bytes, pos, to_coldkey, e_stake);
        }
    }

    fn can_encode(&self) -> (yes: bool) {
        self.hotkey.can_encode()
            && self.coldkey.can_encode()
            && self.stake.can_encode()
    }

    fn encode_to(&self, out: &mut Vec<u8>) {
        let ghost m = self.model();
        let ghost start = out@;
        self.hotkey.encode_to(out);
        let ghost written = <AccountId>::encoding(m.hotkey);
        self.coldkey.encode_to(out);
        proof {
            lemma_concat_assoc(start, written, <AccountId>::encoding(m.coldkey));
        }
        let ghost written = written + <AccountId>::encoding(m.coldkey);
        self.stake.encode_to(out);
        proof {
            lemma_concat_assoc(start, written, <Compact<u64>>::encoding(m.stake));
        }
    }

    fn decode_at(bytes: &[u8], pos: usize) -> (r: Result<(StakeInfo, usize), CodecError>) {
        let (hotkey, at) = <AccountId>::decode_at(bytes, pos)?;
        let (coldkey, at) = <AccountId>::decode_at(bytes, at)?;
        let (stake, at) = <Compact<u64>>::decode_at(bytes, at)?;
        Ok(
            (
                StakeInfo {
                    hotkey,
                    coldkey,
                    stake,
                },
                at,
            ),
        )
    }
}

/// How a subnet presents itself.
#[derive(Clone, Debug, Default, PartialEq, Eq)]
pub struct SubnetIdentity {
    /// The name of the subnet.
    pub subnet_name: Vec<u8>,
    /// The source repository of the subnet.
    pub github_repo: Vec<u8>,
    /// Where to reach the subnet's owner.
    pub subnet_contact: Vec<u8>,
}

/// The value of a [`SubnetIdentity`].
pub struct SubnetIdentityModel {
    pub subnet_name: Seq<u8>,
    pub github_repo: Seq<u8>,
    pub subnet_contact: Seq<u8>,
}

impl Wire for SubnetIdentity {
    type Model = SubnetIdentityModel;

    open spec fn model(&self) -> SubnetIdentityModel {
        SubnetIdentityModel {
            subnet_name: self.subnet_name.model(),
            github_repo: self.github_repo.model(),
            subnet_contact: self.subnet_contact.model(),
        }
    }

    open spec fn encodable(m: SubnetIdentityModel) -> bool {
        &&& <Vec<u8>>::encodable(m.subnet_name)
        &&& <Vec<u8>>::encodable(m.github_repo)
        &&& <Vec<u8>>::encodable(m.subnet_contact)
    }

    open spec fn encoding(m: SubnetIdentityModel) -> Seq<u8> {
        <Vec<u8>>::encoding(m.subnet_name)
            + <Vec<u8>>::encoding(m.github_repo)
            + <Vec<u8>>::encoding(m.subnet_contact)
    }

    open spec fn parse(bytes: Seq<u8>, pos: int) -> Result<(SubnetIdentityModel, int), CodecError> {
        let subnet_name = <Vec<u8>>::parse(bytes, pos);
        let after_subnet_name = end_of(subnet_name, pos);
        let github_repo = <Vec<u8>>::parse(bytes, after_subnet_name);
        let after_github_repo = end_of(github_repo, after_subnet_name);
        let subnet_contact = <Vec<u8>>::parse(bytes, after_github_repo);
        let after_subnet_contact = end_of(subnet_contact, after_github_repo);
        if subnet_name is Err {
            Err(subnet_name->Err_0)
        } else if github_repo is Err {
            Err(github_repo->Err_0)
        } else if subnet_contact is Err {
            Err(subnet_contact->Err_0)
        } else {
            Ok(
                (
                    SubnetIdentityModel {
                        subnet_name: subnet_name->Ok_0.0,
                        github_repo: github_repo->Ok_0.0,
                        subnet_contact: subnet_contact->Ok_0.0,
                    },
                    after_subnet_contact,
                ),
            )
        }
    }

    proof fn lemma_round_trip(m: SubnetIdentityModel, bytes: Seq<u8>, pos: int) {
        let subnet_name = <Vec<u8>>::encoding(m.subnet_name);
        let github_repo = <Vec<u8>>::encoding(m.github_repo);
        let subnet_contact = <Vec<u8>>::encoding(m.subnet_contact);
        let to_subnet_name = subnet_name;
        let to_github_repo = to_subnet_name + github_repo;
        lemma_has_at_split(bytes, pos, to_github_repo, subnet_contact);
        lemma_has_at_split(bytes, pos, to_subnet_name, github_repo);
        <Vec<u8>>::lemma_round_trip(m.subnet_name, bytes, pos);
        <Vec<u8>>::lemma_round_trip(m.github_repo, bytes, pos + to_subnet_name.len());
        <Vec<u8>>::lemma_round_trip(m.subnet_contact, bytes, pos + to_github_repo.len());
    }

    proof fn lemma_canonical(bytes: Seq<u8>, pos: int) {
        let subnet_name = <Vec<u8>>::parse(bytes, pos);
        <Vec<u8>>::lemma_canonical(bytes, pos);
        let after_subnet_name = end_of(subnet_name, pos);
        let github_repo = <Vec<u8>>::parse(bytes, after_subnet_name);
        <Vec<u8>>::lemma_canonical(bytes, after_subnet_name);
        let after_github_repo = end_of(github_repo, after_subnet_name);
        let subnet_contact = <Vec<u8>>::parse(bytes, after_github_repo);
        <Vec<u8>>::lemma_canonical(bytes, after_github_repo);
        if Self::parse(bytes, pos) is Ok {
            let to_subnet_name = <Vec<u8>>::encoding(subnet_name->Ok_0.0);
            let e_github_repo = <Vec<u8>>::encoding(github_repo->Ok_0.0);
            lemma_has_at_join(bytes, pos, to_subnet_name, e_github_repo);
            let to_github_repo = to_subnet_name + e_github_repo;
            let e_subnet_contact = <Vec<u8>>::encoding(subnet_contact->Ok_0.0);
            lemma_has_at_join(bytes, pos, to_github_repo, e_subnet_contact);
        }
    }

    fn can_encode(&self) -> (yes: bool) {
        self.subnet_name.can_encode()
            && self.github_repo.can_encode()
            && self.subnet_contact.can_encode()
    }

    fn encode_to(&self, out: &mut Vec<u8>) {
        let ghost m = self.model();
        let ghost start = out@;
        self.subnet_name.encode_to(out);
        let ghost written = <Vec<u8>>::encoding(m.subnet_name);
        self.github_repo.encode_to(out);
        proof {
            lemma_concat_assoc(start, written, <Vec<u8>>::encoding(m.github_repo));
        }
        let ghost written = written + <Vec<u8>>::encoding(m.github_repo);
        self.subnet_contact.encode_to(out);
        proof {
            lemma_concat_assoc(start, written, <Vec<u8>>::encoding(m.subnet_contact));
        }
    }

    fn decode_at(bytes: &[u8], pos: usize) -> (r: Result<(SubnetIdentity, usize), CodecError>) {
        let (subnet_name, at) = <Vec<u8>>::decode_at(bytes, pos)?;
        let (github_repo, at) = <Vec<u8>>::decode_at(bytes, at)?;
        let (subnet_contact, at) = <Vec<u8>>::decode_at(bytes, at)?;
        Ok(
            (
                SubnetIdentity {
                    subnet_name,
                    github_repo,
                    subnet_contact,
                },
                at,
            ),
        )
    }
}

/// The consensus parameters and state of a subnet.
#[derive(Clone, Debug, PartialEq, Eq)]
pub struct SubnetInfo {
    pub netuid: Compact<u16>,
    pub rho: Compact<u16>,
    pub kappa: Compact<u16>,
    pub difficulty: Compact<u64>,
    pub immunity_period: Compact<u16>,
    pub max_allowed_validators: Compact<u16>,
    pub min_allowed_weights: Compact<u16>,
    pub max_weights_limit: Compact<u16>,
    pub scaling_law_power: Compact<u16>,
    pub subnetwork_n: Compact<u16>,
    pub max_allowed_uids: Compact<u16>,
    pub blocks_since_last_step: Compact<u64>,
    pub tempo: Compact<u16>,
    pub network_modality: Compact<u16>,
    /// The subnets that this one is connected to, each with a requirement.
    pub network_connect: Vec<[u16; 2]>,
    pub emission_values: Compact<u64>,
    pub burn: Compact<u64>,
    /// The account that owns the subnet.
    pub owner: AccountId,
}

/// The value of a [`SubnetInfo`].
pub struct SubnetInfoModel {
    pub netuid: u16,
    pub rho: u16,
    pub kappa: u16,
    pub difficulty: u64,
    pub immunity_period: u16,
    pub max_allowed_validators: u16,
    pub min_allowed_weights: u16,
    pub max_weights_limit: u16,
    pub scaling_law_power: u16,
    pub subnetwork_n: u16,
    pub max_allowed_uids: u16,
    pub blocks_since_last_step: u64,
    pub tempo: u16,
    pub network_modality: u16,
    pub network_connect: Seq<(u16, u16)>,
    pub emission_values: u64,
    pub burn: u64,
    pub owner: Seq<u8>,
}

impl Wire for SubnetInfo {
    type Model = SubnetInfoModel;

    open spec fn model(&self) -> SubnetInfoModel {
        SubnetInfoModel {
            netuid: self.netuid.model(),
            rho: self.rho.model(),
            kappa: self.kappa.model(),
            difficulty: self.difficulty.model(),
            immunity_period: self.immunity_period.model(),
            max_allowed_validators: self.max_allowed_validators.model(),
            min_allowed_weights: self.min_allowed_weights.model(),
            max_weights_limit: self.max_weights_limit.model(),
            scaling_law_power: self.scaling_law_power.model(),
            subnetwork_n: self.subnetwork_n.model(),
            max_allowed_uids: self.max_allowed_uids.model(),
            blocks_since_last_step: self.blocks_since_last_step.model(),
            tempo: self.tempo.model(),
            network_modality: self.network_modality.model(),
            network_connect: self.network_connect.model(),
            emission_values: self.emission_values.model(),
            burn: self.burn.model(),
            owner: self.owner.model(),
        }
    }

    open spec fn encodable(m: SubnetInfoModel) -> bool {
        &&& <Compact<u16>>::encodable(m.netuid)
        &&& <Compact<u16>>::encodable(m.rho)
        &&& <Compact<u16>>::encodable(m.kappa)
        &&& <Compact<u64>>::encodable(m.difficulty)
        &&& <Compact<u16>>::encodable(m.immunity_period)
        &&& <Compact<u16>>::encodable(m.max_allowed_validators)
        &&& <Compact<u16>>::encodable(m.min_allowed_weights)
        &&& <Compact<u16>>::encodable(m.max_weights_limit)
        &&& <Compact<u16>>::encodable(m.scaling_law_power)
        &&& <Compact<u16>>::encodable(m.subnetwork_n)
        &&& <Compact<u16>>::encodable(m.max_allowed_uids)
        &&& <Compact<u64>>::encodable(m.blocks_since_last_step)
        &&& <Compact<u16>>::encodable(m.tempo)
        &&& <Compact<u16>>::encodable(m.network_modality)
        &&& <Vec<[u16; 2]>>::encodable(m.network_connect)
        &&& <Compact<u64>>::encodable(m.emission_values)
        &&& <Compact<u64>>::encodable(m.burn)
        &&& <AccountId>::encodable(m.owner)
    }

    open spec fn encoding(m: SubnetInfoModel) -> Seq<u8> {
        <Compact<u16>>::encoding(m.netuid)
            + <Compact<u16>>::encoding(m.rho)
            + <Compact<u16>>::encoding(m.kappa)
            + <Compact<u64>>::encoding(m.difficulty)
            + <Compact<u16>>::encoding(m.immunity_period)
            + <Compact<u16>>::encoding(m.max_allowed_validators)
            + <Compact<u16>>::encoding(m.min_allowed_weights)
            + <Compact<u16>>::encoding(m.max_weights_limit)
            + <Compact<u16>>::encoding(m.scaling_law_power)
            + <Compact<u16>>::encoding(m.subnetwork_n)
            + <Compact<u16>>::encoding(m.max_allowed_uids)
            + <Compact<u64>>::encoding(m.blocks_since_last_step)
            + <Compact<u16>>::encoding(m.tempo)
            + <Compact<u16>>::encoding(m.network_modality)
            + <Vec<[u16; 2]>>::encoding(m.network_connect)
            + <Compact<u64>>::encoding(m.emission_values)
            + <Compact<u64>>::encoding(m.burn)
            + <AccountId>::encoding(m.owner)
    }

    open spec fn parse(bytes: Seq<u8>, pos: int) -> Result<(SubnetInfoModel, int), CodecError> {
        let netuid = <Compact<u16>>::parse(bytes, pos);
        let after_netuid = end_of(netuid, pos);
        let rho = <Compact<u16>>::parse(bytes, after_netuid);
        let after_rho = end_of(rho, after_netuid);
        let kappa = <Compact<u16>>::parse(bytes, after_rho);
        let after_kappa = end_of(kappa, after_rho);
        let difficulty = <Compact<u64>>::parse(bytes, after_kappa);
        let after_difficulty = end_of(difficulty, after_kappa);
        let immunity_period = <Compact<u16>>::parse(bytes, after_difficulty);
        let after_immunity_period = end_of(immunity_period, after_difficulty);
        let max_allowed_validators = <Compact<u16>>::parse(bytes, after_immunity_period);
        let after_max_allowed_validators = end_of(max_allowed_validators, after_immunity_period);
        let min_allowed_weights = <Compact<u16>>::parse(bytes, after_max_allowed_validators);
        let after_min_allowed_weights = end_of(min_allowed_weights, after_max_allowed_validators);
        let max_weights_limit = <Compact<u16>>::parse(bytes, after_min_allowed_weights);
        let after_max_weights_limit = end_of(max_weights_limit, after_min_allowed_weights);
        let scaling_law_power = <Compact<u16>>::parse(bytes, after_max_weights_limit);
        let after_scaling_law_power = end_of(scaling_law_power, after_max_weights_limit);
        let subnetwork_n = <Compact<u16>>::parse(bytes, after_scaling_law_power);
        let after_subnetwork_n = end_of(subnetwork_n, after_scaling_law_power);
        let max_allowed_uids = <Compact<u16>>::parse(bytes, after_subnetwork_n);
        let after_max_allowed_uids = end_of(max_allowed_uids, after_subnetwork_n);
        let blocks_since_last_step = <Compact<u64>>::parse(bytes, after_max_allowed_uids);
        let after_blocks_since_last_step = end_of(blocks_since_last_step, after_max_allowed_uids);
        let tempo = <Compact<u16>>::parse(bytes, after_blocks_since_last_step);
        let after_tempo = end_of(tempo, after_blocks_since_last_step);
        let network_modality = <Compact<u16>>::parse(bytes, after_tempo);
        let after_network_modality = end_of(network_modality, after_tempo);
        let network_connect = <Vec<[u16; 2]>>::parse(bytes, after_network_modality);
        let after_network_connect = end_of(network_connect, after_network_modality);
        let emission_values = <Compact<u64>>::parse(bytes, after_network_connect);
        let after_emission_values = end_of(emission_values, after_network_connect);
        let burn = <Compact<u64>>::parse(bytes, after_emission_values);
        let after_burn = end_of(burn, after_emission_values);
        let owner = <AccountId>::parse(bytes, after_burn);
        let after_owner = end_of(owner, after_burn);
        if netuid is Err {
            Err(netuid->Err_0)
        } else if rho is Err {
            Err(rho->Err_0)
        } else if kappa is Err {
            Err(kappa->Err_0)
        } else if difficulty is Err {
            Err(difficulty->Err_0)
        } else if immunity_period is Err {
            Err(immunity_period->Err_0)
        } else if max_allowed_validators is Err {
            Err(max_allowed_validators->Err_0)
        } else if min_allowed_weights is Err {
            Err(min_allowed_weights->Err_0)
        } else if max_weights_limit is Err {
            Err(max_weights_limit->Err_0)
        } else if scaling_law_power is Err {
            Err(scaling_law_power->Err_0)
        } else if subnetwork_n is Err {
            Err(subnetwork_n->Err_0)
        } else if max_allowed_uids is Err {
            Err(max_allowed_uids->Err_0)
        } else if blocks_since_last_step is Err {
            Err(blocks_since_last_step->Err_0)
        } else if tempo is Err {
            Err(tempo->Err_0)
        } else if network_modality is Err {
            Err(network_modality->Err_0)
        } else if network_connect is Err {
            Err(network_connect->Err_0)
        } else if emission_values is Err {
            Err(emission_values->Err_0)
        } else if burn is Err {
            Err(burn->Err_0)
        } else if owner is Err {
            Err(owner->Err_0)
        } else {
            Ok(
                (
                    SubnetInfoModel {
                        netuid: netuid->Ok_0.0,
                        rho: rho->Ok_0.0,
                        kappa: kappa->Ok_0.0,
                        difficulty: difficulty->Ok_0.0,
                        immunity_period: immunity_period->Ok_0.0,
                        max_allowed_validators: max_allowed_validators->Ok_0.0,
                        min_allowed_weights: min_allowed_weights->Ok_0.0,
                        max_weights_limit: max_weights_limit->Ok_0.0,
                        scaling_law_power: scaling_law_power->Ok_0.0,
                        subnetwork_n: subnetwork_n->Ok_0.0,
                        max_allowed_uids: max_allowed_uids->Ok_0.0,
                        blocks_since_last_step: blocks_since_last_step->Ok_0.0,
                        tempo: tempo->Ok_0.0,
                        network_modality: network_modality->Ok_0.0,
                        network_connect: network_connect->Ok_0.0,
                        emission_values: emission_values->Ok_0.0,
                        burn: burn->Ok_0.0,
                        owner: owner->Ok_0.0,
                    },
                    after_owner,
                ),
            )
        }
    }

    proof fn lemma_round_trip(m: SubnetInfoModel, bytes: Seq<u8>, pos: int) {
        let netuid = <Compact<u16>>::encoding(m.netuid);
        let rho = <Compact<u16>>::encoding(m.rho);
        let kappa = <Compact<u16>>::encoding(m.kappa);
        let difficulty = <Compact<u64>>::encoding(m.difficulty);
        let immunity_period = <Compact<u16>>::encoding(m.immunity_period);
        let max_allowed_validators = <Compact<u16>>::encoding(m.max_allowed_validators);
        let min_allowed_weights = <Compact<u16>>::encoding(m.min_allowed_weights);
        let max_weights_limit = <Compact<u16>>::encoding(m.max_weights_limit);
        let scaling_law_power = <Compact<u16>>::encoding(m.scaling_law_power);
        let subnetwork_n = <Compact<u16>>::encoding(m.subnetwork_n);
        let max_allowed_uids = <Compact<u16>>::encoding(m.max_allowed_uids);
        let blocks_since_last_step = <Compact<u64>>::encoding(m.blocks_since_last_step);
        let tempo = <Compact<u16>>::encoding(m.tempo);
        let network_modality = <Compact<u16>>::encoding(m.network_modality);
        let network_connect = <Vec<[u16; 2]>>::encoding(m.network_connect);
        let emission_values = <Compact<u64>>::encoding(m.emission_values);
        let burn = <Compact<u64>>::encoding(m.burn);
        let owner = <AccountId>::encoding(m.owner);
        let to_netuid = netuid;
        let to_rho = to_netuid + rho;
        let to_kappa = to_rho + kappa;
        let to_difficulty = to_kappa + difficulty;
        let to_immunity_period = to_difficulty + immunity_period;
        let to_max_allowed_validators = to_immunity_period + max_allowed_validators;
        let to_min_allowed_weights = to_max_allowed_validators + min_allowed_weights;
        let to_max_weights_limit = to_min_allowed_weights + max_weights_limit;
        let to_scaling_law_power = to_max_weights_limit + scaling_law_power;
        let to_subnetwork_n = to_scaling_law_power + subnetwork_n;
        let to_max_allowed_uids = to_subnetwork_n + max_allowed_uids;
        let to_blocks_since_last_step = to_max_allowed_uids + blocks_since_last_step;
        let to_tempo = to_blocks_since_last_step + tempo;
        let to_network_modality = to_tempo + network_modality;
        let to_network_connect = to_network_modality + network_connect;
        let to_emission_values = to_network_connect + emission_values;
        let to_burn = to_emission_values + burn;
        lemma_has_at_split(bytes, pos, to_burn, owner);
        lemma_has_at_split(bytes, pos, to_emission_values, burn);
        lemma_has_at_split(bytes, pos, to_network_connect, emission_values);
        lemma_has_at_split(bytes, pos, to_network_modality, network_connect);
        lemma_has_at_split(bytes, pos, to_tempo, network_modality);
        lemma_has_at_split(bytes, pos, to_blocks_since_last_step, tempo);
        lemma_has_at_split(bytes, pos, to_max_allowed_uids, blocks_since_last_step);
        lemma_has_at_split(bytes, pos, to_subnetwork_n, max_allowed_uids);
        lemma_has_at_split(bytes, pos, to_scaling_law_power, subnetwork_n);
        lemma_has_at_split(bytes, pos, to_max_weights_limit, scaling_law_power);
        lemma_has_at_split(bytes, pos, to_min_allowed_weights, max_weights_limit);
        lemma_has_at_split(bytes, pos, to_max_allowed_validators, min_allowed_weights);
        lemma_has_at_split(bytes, pos, to_immunity_period, max_allowed_validators);
        lemma_has_at_split(bytes, pos, to_difficulty, immunity_period);
        lemma_has_at_split(bytes, pos, to_kappa, difficulty);
        lemma_has_at_split(bytes, pos, to_rho, kappa);
        lemma_has_at_split(bytes, pos, to_netuid, rho);
        <Compact<u16>>::lemma_round_trip(m.netuid, bytes, pos);
        <Compact<u16>>::lemma_round_trip(m.rho, bytes, pos + to_netuid.len());
        <Compact<u16>>::lemma_round_trip(m.kappa, bytes, pos + to_rho.len());
        <Compact<u64>>::lemma_round_trip(m.difficulty, bytes, pos + to_kappa.len());
        <Compact<u16>>::lemma_round_trip(m.immunity_period, bytes, pos + to_difficulty.len());
        <Compact<u16>>::lemma_round_trip(m.max_allowed_validators, bytes, pos + to_immunity_period.len());
        <Compact<u16>>::lemma_round_trip(m.min_allowed_weights, bytes, pos + to_max_allowed_validators.len());
        <Compact<u16>>::lemma_round_trip(m.max_weights_limit, bytes, pos + to_min_allowed_weights.len());
        <Compact<u16>>::lemma_round_trip(m.scaling_law_power, bytes, pos + to_max_weights_limit.len());
        <Compact<u16>>::lemma_round_trip(m.subnetwork_n, bytes, pos + to_scaling_law_power.len());
        <Compact<u16>>::lemma_round_trip(m.max_allowed_uids, bytes, pos + to_subnetwork_n.len());
        <Compact<u64>>::lemma_round_trip(m.blocks_since_last_step, bytes, pos + to_max_allowed_uids.len());
        <Compact<u16>>::lemma_round_trip(m.tempo, bytes, pos + to_blocks_since_last_step.len());
        <Compact<u16>>::lemma_round_trip(m.network_modality, bytes, pos + to_tempo.len());
        <Vec<[u16; 2]>>::lemma_round_trip(m.network_connect, bytes, pos + to_network_modality.len());
        <Compact<u64>>::lemma_round_trip(m.emission_values, bytes, pos + to_network_connect.len());
        <Compact<u64>>::lemma_round_trip(m.burn, bytes, pos + to_emission_values.len());
        <AccountId>::lemma_round_trip(m.owner, bytes, pos + to_burn.len());
    }

    proof fn lemma_canonical(bytes: Seq<u8>, pos: int) {
        let netuid = <Compact<u16>>::parse(bytes, pos);
        <Compact<u16>>::lemma_canonical(bytes, pos);
        let after_netuid = end_of(netuid, pos);
        let rho = <Compact<u16>>::parse(bytes, after_netuid);
        <Compact<u16>>::lemma_canonical(bytes, after_netuid);
        let after_rho = end_of(rho, after_netuid);
        let kappa = <Compact<u16>>::parse(bytes, after_rho);
        <Compact<u16>>::lemma_canonical(bytes, after_rho);
        let after_kappa = end_of(kappa, after_rho);
        let difficulty = <Compact<u64>>::parse(bytes, after_kappa);
        <Compact<u64>>::lemma_canonical(bytes, after_kappa);
        let after_difficulty = end_of(difficulty, after_kappa);
        let immunity_period = <Compact<u16>>::parse(bytes, after_difficulty);
        <Compact<u16>>::lemma_canonical(bytes, after_difficulty);
        let after_immunity_period = end_of(immunity_period, after_difficulty);
        let max_allowed_validators = <Compact<u16>>::parse(bytes, after_immunity_period);
        <Compact<u16>>::lemma_canonical(bytes, after_immunity_period);
        let after_max_allowed_validators = end_of(max_allowed_validators, after_immunity_period);
        let min_allowed_weights = <Compact<u16>>::parse(bytes, after_max_allowed_validators);
        <Compact<u16>>::lemma_canonical(bytes, after_max_allowed_validators);
        let after_min_allowed_weights = end_of(min_allowed_weights, after_max_allowed_validators);
        let max_weights_limit = <Compact<u16>>::parse(bytes, after_min_allowed_weights);
        <Compact<u16>>::lemma_canonical(bytes, after_min_allowed_weights);
        let after_max_weights_limit = end_of(max_weights_limit, after_min_allowed_weights);
        let scaling_law_power = <Compact<u16>>::parse(bytes, after_max_weights_limit);
        <Compact<u16>>::lemma_canonical(bytes, after_max_weights_limit);
        let after_scaling_law_power = end_of(scaling_law_power, after_max_weights_limit);
        let subnetwork_n = <Compact<u16>>::parse(bytes, after_scaling_law_power);
        <Compact<u16>>::lemma_canonical(bytes, after_scaling_law_power);
        let after_subnetwork_n = end_of(subnetwork_n, after_scaling_law_power);
        let max_allowed_uids = <Compact<u16>>::parse(bytes, after_subnetwork_n);
        <Compact<u16>>::lemma_canonical(bytes, after_subnetwork_n);
        let after_max_allowed_uids = end_of(max_allowed_uids, after_subnetwork_n);
        let blocks_since_last_step = <Compact<u64>>::parse(bytes, after_max_allowed_uids);
        <Compact<u64>>::lemma_canonical(bytes, after_max_allowed_uids);
        let after_blocks_since_last_step = end_of(blocks_since_last_step, after_max_allowed_uids);
        let tempo = <Compact<u16>>::parse(bytes, after_blocks_since_last_step);
        <Compact<u16>>::lemma_canonical(bytes, after_blocks_since_last_step);
        let after_tempo = end_of(tempo, after_blocks_since_last_step);
        let network_modality = <Compact<u16>>::parse(bytes, after_tempo);
        <Compact<u16>>::lemma_canonical(bytes, after_tempo);
        let after_network_modality = end_of(network_modality, after_tempo);
        let network_connect = <Vec<[u16; 2]>>::parse(bytes, after_network_modality);
        <Vec<[u16; 2]>>::lemma_canonical(bytes, after_network_modality);
        let after_network_connect = end_of(network_connect, after_network_modality);
        let emission_values = <Compact<u64>>::parse(bytes, after_network_connect);
        <Compact<u64>>::lemma_canonical(bytes, after_network_connect);
        let after_emission_values = end_of(emission_values, after_network_connect);
        let burn = <Compact<u64>>::parse(bytes, after_emission_values);
        <Compact<u64>>::lemma_canonical(bytes, after_emission_values);
        let after_burn = end_of(burn, after_emission_values);
        let owner = <AccountId>::parse(bytes, after_burn);
        <AccountId>::lemma_canonical(bytes, after_burn);
        if Self::parse(bytes, pos) is Ok {
            let to_netuid = <Compact<u16>>::encoding(netuid->Ok_0.0);
            let e_rho = <Compact<u16>>::encoding(rho->Ok_0.0);
            lemma_has_at_join(bytes, pos, to_netuid, e_rho);
            let to_rho = to_netuid + e_rho;
            let e_kappa = <Compact<u16>>::encoding(kappa->Ok_0.0);
            lemma_has_at_join(bytes, pos, to_rho, e_kappa);
            let to_kappa = to_rho + e_kappa;
            let e_difficulty = <Compact<u64>>::encoding(difficulty->Ok_0.0);
            lemma_has_at_join(bytes, pos, to_kappa, e_difficulty);
            let to_difficulty = to_kappa + e_difficulty;
            let e_immunity_period = <Compact<u16>>::encoding(immunity_period->Ok_0.0);
            lemma_has_at_join(bytes, pos, to_difficulty, e_immunity_period);
            let to_immunity_period = to_difficulty + e_immunity_period;
            let e_max_allowed_validators = <Compact<u16>>::encoding(max_allowed_validators->Ok_0.0);
            lemma_has_at_join(bytes, pos, to_immunity_period, e_max_allowed_validators);
            let to_max_allowed_validators = to_immunity_period + e_max_allowed_validators;
            let e_min_allowed_weights = <Compact<u16>>::encoding(min_allowed_weights->Ok_0.0);
            lemma_has_at_join(bytes, pos, to_max_allowed_validators, e_min_allowed_weights);
            let to_min_allowed_weights = to_max_allowed_validators + e_min_allowed_weights;
            let e_max_weights_limit = <Compact<u16>>::encoding(max_weights_limit->Ok_0.0);
            lemma_has_at_join(bytes, pos, to_min_allowed_weights, e_max_weights_limit);
            let to_max_weights_limit = to_min_allowed_weights + e_max_weights_limit;
            let e_scaling_law_power = <Compact<u16>>::encoding(scaling_law_power->Ok_0.0);
            lemma_has_at_join(bytes, pos, to_max_weights_limit, e_scaling_law_power);
            let to_scaling_law_power = to_max_weights_limit + e_scaling_law_power;
            let e_subnetwork_n = <Compact<u16>>::encoding(subnetwork_n->Ok_0.0);
            lemma_has_at_join(bytes, pos, to_scaling_law_power, e_subnetwork_n);
            let to_subnetwork_n = to_scaling_law_power + e_subnetwork_n;
            let e_max_allowed_uids = <Compact<u16>>::encoding(max_allowed_uids->Ok_0.0);
            lemma_has_at_join(bytes, pos, to_subnetwork_n, e_max_allowed_uids);
            let to_max_allowed_uids = to_subnetwork_n + e_max_allowed_uids;
            let e_blocks_since_last_step = <Compact<u64>>::encoding(blocks_since_last_step->Ok_0.0);
            lemma_has_at_join(bytes, pos, to_max_allowed_uids, e_blocks_since_last_step);
            let to_blocks_since_last_step = to_max_allowed_uids + e_blocks_since_last_step;
            let e_tempo = <Compact<u16>>::encoding(tempo->Ok_0.0);
            lemma_has_at_join(bytes, pos, to_blocks_since_last_step, e_tempo);
            let to_tempo = to_blocks_since_last_step + e_tempo;
            let e_network_modality = <Compact<u16>>::encoding(network_modality->Ok_0.0);
            lemma_has_at_join(bytes, pos, to_tempo, e_network_modality);
            let to_network_modality = to_tempo + e_network_modality;
            let e_network_connect = <Vec<[u16; 2]>>::encoding(network_connect->Ok_0.0);
            lemma_has_at_join(bytes, pos, to_network_modality, e_network_connect);
            let to_network_connect = to_network_modality + e_network_connect;
            let e_emission_values = <Compact<u64>>::encoding(emission_values->Ok_0.0);
            lemma_has_at_join(bytes, pos, to_network_connect, e_emission_values);
            let to_emission_values = to_network_connect + e_emission_values;
            let e_burn = <Compact<u64>>::encoding(burn->Ok_0.0);
            lemma_has_at_join(bytes, pos, to_emission_values, e_burn);
            let to_burn = to_emission_values + e_burn;
            let e_owner = <AccountId>::encoding(owner->Ok_0.0);
            lemma_has_at_join(bytes, pos, to_burn, e_owner);
        }
    }

    fn can_encode(&self) -> (yes: bool) {
        self.netuid.can_encode()
            && self.rho.can_encode()
            && self.kappa.can_encode()
            && self.difficulty.can_encode()
            && self.immunity_period.can_encode()
            && self.max_allowed_validators.can_encode()
            && self.min_allowed_weights.can_encode()
            && self.max_weights_limit.can_encode()
            && self.scaling_law_power.can_encode()
            && self.subnetwork_n.can_encode()
            && self.max_allowed_uids.can_encode()
            && self.blocks_since_last_step.can_encode()
            && self.tempo.can_encode()
            && self.network_modality.can_encode()
            && self.network_connect.can_encode()
            && self.emission_values.can_encode()
            && self.burn.can_encode()
            && self.owner.can_encode()
    }

    fn encode_to(&self, out: &mut Vec<u8>) {
        let ghost m = self.model();
        let ghost start = out@;
        self.netuid.encode_to(out);
        let ghost written = <Compact<u16>>::encoding(m.netuid);
        self.rho.encode_to(out);
        proof {
            lemma_concat_assoc(start, written, <Compact<u16>>::encoding(m.rho));
        }
        let ghost written = written + <Compact<u16>>::encoding(m.rho);
        self.kappa.encode_to(out);
        proof {
            lemma_concat_assoc(start, written, <Compact<u16>>::encoding(m.kappa));
        }
        let ghost written = written + <Compact<u16>>::encoding(m.kappa);
        self.difficulty.encode_to(out);
        proof {
            lemma_concat_assoc(start, written, <Compact<u64>>::encoding(m.difficulty));
        }
        let ghost written = written + <Compact<u64>>::encoding(m.difficulty);
        self.immunity_period.encode_to(out);
        proof {
            lemma_concat_assoc(start, written, <Compact<u16>>::encoding(m.immunity_period));
        }
        let ghost written = written + <Compact<u16>>::encoding(m.immunity_period);
        self.max_allowed_validators.encode_to(out);
        proof {
            lemma_concat_assoc(start, written, <Compact<u16>>::encoding(m.max_allowed_validators));
        }
        let ghost written = written + <Compact<u16>>::encoding(m.max_allowed_validators);
        self.min_allowed_weights.encode_to(out);
        proof {
            lemma_concat_assoc(start, written, <Compact<u16>>::encoding(m.min_allowed_weights));
        }
        let ghost written = written + <Compact<u16>>::encoding(m.min_allowed_weights);
        self.max_weights_limit.encode_to(out);
        proof {
            lemma_concat_assoc(start, written, <Compact<u16>>::encoding(m.max_weights_limit));
        }
        let ghost written = written + <Compact<u16>>::encoding(m.max_weights_limit);
        self.scaling_law_power.encode_to(out);
        proof {
            lemma_concat_assoc(start, written, <Compact<u16>>::encoding(m.scaling_law_power));
        }
        let ghost written = written + <Compact<u16>>::encoding(m.scaling_law_power);
        self.subnetwork_n.encode_to(out);
        proof {
            lemma_concat_assoc(start, written, <Compact<u16>>::encoding(m.subnetwork_n));
        }
        let ghost written = written + <Compact<u16>>::encoding(m.subnetwork_n);
        self.max_allowed_uids.encode_to(out);
        proof {
            lemma_concat_assoc(start, written, <Compact<u16>>::encoding(m.max_allowed_uids));
        }
        let ghost written = written + <Compact<u16>>::encoding(m.max_allowed_uids);
        self.blocks_since_last_step.encode_to(out);
        proof {
            lemma_concat_assoc(start, written, <Compact<u64>>::encoding(m.blocks_since_last_step));
        }
        let ghost written = written + <Compact<u64>>::encoding(m.blocks_since_last_step);
        self.tempo.encode_to(out);
        proof {
            lemma_concat_assoc(start, written, <Compact<u16>>::encoding(m.tempo));
        }
        let ghost written = written + <Compact<u16>>::encoding(m.tempo);
        self.network_modality.encode_to(out);
        proof {
            lemma_concat_assoc(start, written, <Compact<u16>>::encoding(m.network_modality));
        }
        let ghost written = written + <Compact<u16>>::encoding(m.network_modality);
        self.network_connect.encode_to(out);
        proof {
            lemma_concat_assoc(start, written, <Vec<[u16; 2]>>::encoding(m.network_connect));
        }
        let ghost written = written + <Vec<[u16; 2]>>::encoding(m.network_connect);
        self.emission_values.encode_to(out);
        proof {
            lemma_concat_assoc(start, written, <Compact<u64>>::encoding(m.emission_values));
        }
        let ghost written = written + <Compact<u64>>::encoding(m.emission_values);
        self.burn.encode_to(out);
        proof {
            lemma_concat_assoc(start, written, <Compact<u64>>::encoding(m.burn));
        }
        let ghost written = written + <Compact<u64>>::encoding(m.burn);
        self.owner.encode_to(out);
        proof {
            lemma_concat_assoc(start, written, <AccountId>::encoding(m.owner));
        }
    }

    fn decode_at(bytes: &[u8], pos: usize) -> (r: Result<(SubnetInfo, usize), CodecError>) {
        let (netuid, at) = <Compact<u16>>::decode_at(bytes, pos)?;
        let (rho, at) = <Compact<u16>>::decode_at(bytes, at)?;
        let (kappa, at) = <Compact<u16>>::decode_at(bytes, at)?;
        let (difficulty, at) = <Compact<u64>>::decode_at(bytes, at)?;
        let (immunity_period, at) = <Compact<u16>>::decode_at(bytes, at)?;
        let (max_allowed_validators, at) = <Compact<u16>>::decode_at(bytes, at)?;
        let (min_allowed_weights, at) = <Compact<u16>>::decode_at(bytes, at)?;
        let (max_weights_limit, at) = <Compact<u16>>::decode_at(bytes, at)?;
        let (scaling_law_power, at) = <Compact<u16>>::decode_at(bytes, at)?;
        let (subnetwork_n, at) = <Compact<u16>>::decode_at(bytes, at)?;
        let (max_allowed_uids, at) = <Compact<u16>>::decode_at(bytes, at)?;
        let (blocks_since_last_step, at) = <Compact<u64>>::decode_at(bytes, at)?;
        let (tempo, at) = <Compact<u16>>::decode_at(bytes, at)?;
        let (network_modality, at) = <Compact<u16>>::decode_at(bytes, at)?;
        let (network_connect, at) = <Vec<[u16; 2]>>::decode_at(bytes, at)?;
        let (emission_values, at) = <Compact<u64>>::decode_at(bytes, at)?;
        let (burn, at) = <Compact<u64>>::decode_at(bytes, at)?;
        let (owner, at) = <AccountId>::decode_at(bytes, at)?;
        Ok(
            (
                SubnetInfo {
                    netuid,
                    rho,
                    kappa,
                    difficulty,
                    immunity_period,
                    max_allowed_validators,
                    min_allowed_weights,
                    max_weights_limit,
                    scaling_law_power,
                    subnetwork_n,
                    max_allowed_uids,
                    blocks_since_last_step,
                    tempo,
                    network_modality,
                    network_connect,
                    emission_values,
                    burn,
                    owner,
                },
                at,
            ),
        )
    }
}

/// A subnet as `SubnetInfo` gives it, with its identity where it has one.
#[derive(Clone, Debug, PartialEq, Eq)]
pub struct SubnetInfov2 {
    pub netuid: Compact<u16>,
    pub rho: Compact<u16>,
    pub kappa: Compact<u16>,
    pub difficulty: Compact<u64>,
    pub immunity_period: Compact<u16>,
    pub max_allowed_validators: Compact<u16>,
    pub min_allowed_weights: Compact<u16>,
    pub max_weights_limit: Compact<u16>,
    pub scaling_law_power: Compact<u16>,
    pub subnetwork_n: Compact<u16>,
    pub max_allowed_uids: Compact<u16>,
    pub blocks_since_last_step: Compact<u64>,
    pub tempo: Compact<u16>,
    pub network_modality: Compact<u16>,
    /// The subnets that this one is connected to, each with a requirement.
    pub network_connect: Vec<[u16; 2]>,
    pub emission_values: Compact<u64>,
    pub burn: Compact<u64>,
    /// The account that owns the subnet.
    pub owner: AccountId,
    /// How the subnet presents itself, where it has said so.
    pub identity: Option<SubnetIdentity>,
}

/// The value of a [`SubnetInfov2`].
pub struct SubnetInfov2Model {
    pub netuid: u16,
    pub rho: u16,
    pub kappa: u16,
    pub difficulty: u64,
    pub immunity_period: u16,
    pub max_allowed_validators: u16,
    pub min_allowed_weights: u16,
    pub max_weights_limit: u16,
    pub scaling_law_power: u16,
    pub subnetwork_n: u16,
    pub max_allowed_uids: u16,
    pub blocks_since_last_step: u64,
    pub tempo: u16,
    pub network_modality: u16,
    pub network_connect: Seq<(u16, u16)>,
    pub emission_values: u64,
    pub burn: u64,
    pub owner: Seq<u8>,
    pub identity: Option<SubnetIdentityModel>,
}

impl Wire for SubnetInfov2 {
    type Model = SubnetInfov2Model;

    open spec fn model(&self) -> SubnetInfov2Model {
        SubnetInfov2Model {
            netuid: self.netuid.model(),
            rho: self.rho.model(),
            kappa: self.kappa.model(),
            difficulty: self.difficulty.model(),
            immunity_period: self.immunity_period.model(),
            max_allowed_validators: self.max_allowed_validators.model(),
            min_allowed_weights: self.min_allowed_weights.model(),
            max_weights_limit: self.max_weights_limit.model(),
            scaling_law_power: self.scaling_law_power.model(),
            subnetwork_n: self.subnetwork_n.model(),
            max_allowed_uids: self.max_allowed_uids.model(),
            blocks_since_last_step: self.blocks_since_last_step.model(),
            tempo: self.tempo.model(),
            network_modality: self.network_modality.model(),
            network_connect: self.network_connect.model(),
            emission_values: self.emission_values.model(),
            burn: self.burn.model(),
            owner: self.owner.model(),
            identity: self.identity.model(),
        }
    }

    open spec fn encodable(m: SubnetInfov2Model) -> bool {
        &&& <Compact<u16>>::encodable(m.netuid)
        &&& <Compact<u16>>::encodable(m.rho)
        &&& <Compact<u16>>::encodable(m.kappa)
        &&& <Compact<u64>>::encodable(m.difficulty)
        &&& <Compact<u16>>::encodable(m.immunity_period)
        &&& <Compact<u16>>::encodable(m.max_allowed_validators)
        &&& <Compact<u16>>::encodable(m.min_allowed_weights)
        &&& <Compact<u16>>::encodable(m.max_weights_limit)
        &&& <Compact<u16>>::encodable(m.scaling_law_power)
        &&& <Compact<u16>>::encodable(m.subnetwork_n)
        &&& <Compact<u16>>::encodable(m.max_allowed_uids)
        &&& <Compact<u64>>::encodable(m.blocks_since_last_step)
        &&& <Compact<u16>>::encodable(m.tempo)
        &&& <Compact<u16>>::encodable(m.network_modality)
        &&& <Vec<[u16; 2]>>::encodable(m.network_connect)
        &&& <Compact<u64>>::encodable(m.emission_values)
        &&& <Compact<u64>>::encodable(m.burn)
        &&& <AccountId>::encodable(m.owner)
        &&& <Option<SubnetIdentity>>::encodable(m.identity)
    }

    open spec fn encoding(m: SubnetInfov2Model) -> Seq<u8> {
        <Compact<u16>>::encoding(m.netuid)
            + <Compact<u16>>::encoding(m.rho)
            + <Compact<u16>>::encoding(m.kappa)
            + <Compact<u64>>::encoding(m.difficulty)
            + <Compact<u16>>::encoding(m.immunity_period)
            + <Compact<u16>>::encoding(m.max_allowed_validators)
            + <Compact<u16>>::encoding(m.min_allowed_weights)
            + <Compact<u16>>::encoding(m.max_weights_limit)
            + <Compact<u16>>::encoding(m.scaling_law_power)
            + <Compact<u16>>::encoding(m.subnetwork_n)
            + <Compact<u16>>::encoding(m.max_allowed_uids)
            + <Compact<u64>>::encoding(m.blocks_since_last_step)
            + <Compact<u16>>::encoding(m.tempo)
            + <Compact<u16>>::encoding(m.network_modality)
            + <Vec<[u16; 2]>>::encoding(m.network_connect)
            + <Compact<u64>>::encoding(m.emission_values)
            + <Compact<u64>>::encoding(m.burn)
            + <AccountId>::encoding(m.owner)
            + <Option<SubnetIdentity>>::encoding(m.identity)
    }

    open spec fn parse(bytes: Seq<u8>, pos: int) -> Result<(SubnetInfov2Model, int), CodecError> {
        let netuid = <Compact<u16>>::parse(bytes, pos);
        let after_netuid = end_of(netuid, pos);
        let rho = <Compact<u16>>::parse(bytes, after_netuid);
        let after_rho = end_of(rho, after_netuid);
        let kappa = <Compact<u16>>::parse(bytes, after_rho);
        let after_kappa = end_of(kappa, after_rho);
        let difficulty = <Compact<u64>>::parse(bytes, after_kappa);
        let after_difficulty = end_of(difficulty, after_kappa);
        let immunity_period = <Compact<u16>>::parse(bytes, after_difficulty);
        let after_immunity_period = end_of(immunity_period, after_difficulty);
        let max_allowed_validators = <Compact<u16>>::parse(bytes, after_immunity_period);
        let after_max_allowed_validators = end_of(max_allowed_validators, after_immunity_period);
        let min_allowed_weights = <Compact<u16>>::parse(bytes, after_max_allowed_validators);
        let after_min_allowed_weights = end_of(min_allowed_weights, after_max_allowed_validators);
        let max_weights_limit = <Compact<u16>>::parse(bytes, after_min_allowed_weights);
        let after_max_weights_limit = end_of(max_weights_limit, after_min_allowed_weights);
        let scaling_law_power = <Compact<u16>>::parse(bytes, after_max_weights_limit);
        let after_scaling_law_power = end_of(scaling_law_power, after_max_weights_limit);
        let subnetwork_n = <Compact<u16>>::parse(bytes, after_scaling_law_power);
        let after_subnetwork_n = end_of(subnetwork_n, after_scaling_law_power);
        let max_allowed_uids = <Compact<u16>>::parse(bytes, after_subnetwork_n);
        let after_max_allowed_uids = end_of(max_allowed_uids, after_subnetwork_n);
        let blocks_since_last_step = <Compact<u64>>::parse(bytes, after_max_allowed_uids);
        let after_blocks_since_last_step = end_of(blocks_since_last_step, after_max_allowed_uids);
        let tempo = <Compact<u16>>::parse(bytes, after_blocks_since_last_step);
        let after_tempo = end_of(tempo, after_blocks_since_last_step);
        let network_modality = <Compact<u16>>::parse(bytes, after_tempo);
        let after_network_modality = end_of(network_modality, after_tempo);
        let network_connect = <Vec<[u16; 2]>>::parse(bytes, after_network_modality);
        let after_network_connect = end_of(network_connect, after_network_modality);
        let emission_values = <Compact<u64>>::parse(bytes, after_network_connect);
        let after_emission_values = end_of(emission_values, after_network_connect);
        let burn = <Compact<u64>>::parse(bytes, after_emission_values);
        let after_burn = end_of(burn, after_emission_values);
        let owner = <AccountId>::parse(bytes, after_burn);
        let after_owner = end_of(owner, after_burn);
        let identity = <Option<SubnetIdentity>>::parse(bytes, after_owner);
        let after_identity = end_of(identity, after_owner);
        if netuid is Err {
            Err(netuid->Err_0)
        } else if rho is Err {
            Err(rho->Err_0)
        } else if kappa is Err {
            Err(kappa->Err_0)
        } else if difficulty is Err {
            Err(difficulty->Err_0)
        } else if immunity_period is Err {
            Err(immunity_period->Err_0)
        } else if max_allowed_validators is Err {
            Err(max_allowed_validators->Err_0)
        } else if min_allowed_weights is Err {
            Err(min_allowed_weights->Err_0)
        } else if max_weights_limit is Err {
            Err(max_weights_limit->Err_0)
        } else if scaling_law_power is Err {
            Err(scaling_law_power->Err_0)
        } else if subnetwork_n is Err {
            Err(subnetwork_n->Err_0)
        } else if max_allowed_uids is Err {
            Err(max_allowed_uids->Err_0)
        } else if blocks_since_last_step is Err {
            Err(blocks_since_last_step->Err_0)
        } else if tempo is Err {
            Err(tempo->Err_0)
        } else if network_modality is Err {
            Err(network_modality->Err_0)
        } else if network_connect is Err {
            Err(network_connect->Err_0)
        } else if emission_values is Err {
            Err(emission_values->Err_0)
        } else if burn is Err {
            Err(burn->Err_0)
        } else if owner is Err {
            Err(owner->Err_0)
        } else if identity is Err {
            Err(identity->Err_0)
        } else {
            Ok(
                (
                    SubnetInfov2Model {
                        netuid: netuid->Ok_0.0,
                        rho: rho->Ok_0.0,
                        kappa: kappa->Ok_0.0,
                        difficulty: difficulty->Ok_0.0,
                        immunity_period: immunity_period->Ok_0.0,
                        max_allowed_validators: max_allowed_validators->Ok_0.0,
                        min_allowed_weights: min_allowed_weights->Ok_0.0,
                        max_weights_limit: max_weights_limit->Ok_0.0,
                        scaling_law_power: scaling_law_power->Ok_0.0,
                        subnetwork_n: subnetwork_n->Ok_0.0,
                        max_allowed_uids: max_allowed_uids->Ok_0.0,
                        blocks_since_last_step: blocks_since_last_step->Ok_0.0,
                        tempo: tempo->Ok_0.0,
                        network_modality: network_modality->Ok_0.0,
                        network_connect: network_connect->Ok_0.0,
                        emission_values: emission_values->Ok_0.0,
                        burn: burn->Ok_0.0,
                        owner: owner->Ok_0.0,
                        identity: identity->Ok_0.0,
                    },
                    after_identity,
                ),
            )
        }
    }

    proof fn lemma_round_trip(m: SubnetInfov2Model, bytes: Seq<u8>, pos: int) {
        let netuid = <Compact<u16>>::encoding(m.netuid);
        let rho = <Compact<u16>>::encoding(m.rho);
        let kappa = <Compact<u16>>::encoding(m.kappa);
        let difficulty = <Compact<u64>>::encoding(m.difficulty);
        let immunity_period = <Compact<u16>>::encoding(m.immunity_period);
        let max_allowed_validators = <Compact<u16>>::encoding(m.max_allowed_validators);
        let min_allowed_weights = <Compact<u16>>::encoding(m.min_allowed_weights);
        let max_weights_limit = <Compact<u16>>::encoding(m.max_weights_limit);
        let scaling_law_power = <Compact<u16>>::encoding(m.scaling_law_power);
        let subnetwork_n = <Compact<u16>>::encoding(m.subnetwork_n);
        let max_allowed_uids = <Compact<u16>>::encoding(m.max_allowed_uids);
        let blocks_since_last_step = <Compact<u64>>::encoding(m.blocks_since_last_step);
        let tempo = <Compact<u16>>::encoding(m.tempo);
        let network_modality = <Compact<u16>>::encoding(m.network_modality);
        let network_connect = <Vec<[u16; 2]>>::encoding(m.network_connect);
        let emission_values = <Compact<u64>>::encoding(m.emission_values);
        let burn = <Compact<u64>>::encoding(m.burn);
        let owner = <AccountId>::encoding(m.owner);
        let identity = <Option<SubnetIdentity>>::encoding(m.identity);
        let to_netuid = netuid;
        let to_rho = to_netuid + rho;
        let to_kappa = to_rho + kappa;
        let to_difficulty = to_kappa + difficulty;
        let to_immunity_period = to_difficulty + immunity_period;
        let to_max_allowed_validators = to_immunity_period + max_allowed_validators;
        let to_min_allowed_weights = to_max_allowed_validators + min_allowed_weights;
        let to_max_weights_limit = to_min_allowed_weights + max_weights_limit;
        let to_scaling_law_power = to_max_weights_limit + scaling_law_power;
        let to_subnetwork_n = to_scaling_law_power + subnetwork_n;
        let to_max_allowed_uids = to_subnetwork_n + max_allowed_uids;
        let to_blocks_since_last_step = to_max_allowed_uids + blocks_since_last_step;
        let to_tempo = to_blocks_since_last_step + tempo;
        let to_network_modality = to_tempo + network_modality;
        let to_network_connect = to_network_modality + network_connect;
        let to_emission_values = to_network_connect + emission_values;
        let to_burn = to_emission_values + burn;
        let to_owner = to_burn + owner;
        lemma_has_at_split(bytes, pos, to_owner, identity);
        lemma_has_at_split(bytes, pos, to_burn, owner);
        lemma_has_at_split(bytes, pos, to_emission_values, burn);
        lemma_has_at_split(bytes, pos, to_network_connect, emission_values);
        lemma_has_at_split(bytes, pos, to_network_modality, network_connect);
        lemma_has_at_split(bytes, pos, to_tempo, network_modality);
        lemma_has_at_split(bytes, pos, to_blocks_since_last_step, tempo);
        lemma_has_at_split(bytes, pos, to_max_allowed_uids, blocks_since_last_step);
        lemma_has_at_split(bytes, pos, to_subnetwork_n, max_allowed_uids);
        lemma_has_at_split(bytes, pos, to_scaling_law_power, subnetwork_n);
        lemma_has_at_split(bytes, pos, to_max_weights_limit, scaling_law_power);
        lemma_has_at_split(bytes, pos, to_min_allowed_weights, max_weights_limit);
        lemma_has_at_split(bytes, pos, to_max_allowed_validators, min_allowed_weights);
        lemma_has_at_split(bytes, pos, to_immunity_period, max_allowed_validators);
        lemma_has_at_split(bytes, pos, to_difficulty, immunity_period);
        lemma_has_at_split(bytes, pos, to_kappa, difficulty);
        lemma_has_at_split(bytes, pos, to_rho, kappa);
        lemma_has_at_split(bytes, pos, to_netuid, rho);
        <Compact<u16>>::lemma_round_trip(m.netuid, bytes, pos);
        <Compact<u16>>::lemma_round_trip(m.rho, bytes, pos + to_netuid.len());
        <Compact<u16>>::lemma_round_trip(m.kappa, bytes, pos + to_rho.len());
        <Compact<u64>>::lemma_round_trip(m.difficulty, bytes, pos + to_kappa.len());
        <Compact<u16>>::lemma_round_trip(m.immunity_period, bytes, pos + to_difficulty.len());
        <Compact<u16>>::lemma_round_trip(m.max_allowed_validators, bytes, pos + to_immunity_period.len());
        <Compact<u16>>::lemma_round_trip(m.min_allowed_weights, bytes, pos + to_max_allowed_validators.len());
        <Compact<u16>>::lemma_round_trip(m.max_weights_limit, bytes, pos + to_min_allowed_weights.len());
        <Compact<u16>>::lemma_round_trip(m.scaling_law_power, bytes, pos + to_max_weights_limit.len());
        <Compact<u16>>::lemma_round_trip(m.subnetwork_n, bytes, pos + to_scaling_law_power.len());
        <Compact<u16>>::lemma_round_trip(m.max_allowed_uids, bytes, pos + to_subnetwork_n.len());
        <Compact<u64>>::lemma_round_trip(m.blocks_since_last_step, bytes, pos + to_max_allowed_uids.len());
        <Compact<u16>>::lemma_round_trip(m.tempo, bytes, pos + to_blocks_since_last_step.len());
        <Compact<u16>>::lemma_round_trip(m.network_modality, bytes, pos + to_tempo.len());
        <Vec<[u16; 2]>>::lemma_round_trip(m.network_connect, bytes, pos + to_network_modality.len());
        <Compact<u64>>::lemma_round_trip(m.emission_values, bytes, pos + to_network_connect.len());
        <Compact<u64>>::lemma_round_trip(m.burn, bytes, pos + to_emission_values.len());
        <AccountId>::lemma_round_trip(m.owner, bytes, pos + to_burn.len());
        <Option<SubnetIdentity>>::lemma_round_trip(m.identity, bytes, pos + to_owner.len());
    }

    proof fn lemma_canonical(bytes: Seq<u8>, pos: int) {
        let netuid = <Compact<u16>>::parse(bytes, pos);
        <Compact<u16>>::lemma_canonical(bytes, pos);
        let after_netuid = end_of(netuid, pos);
        let rho = <Compact<u16>>::parse(bytes, after_netuid);
        <Compact<u16>>::lemma_canonical(bytes, after_netuid);
        let after_rho = end_of(rho, after_netuid);
        let kappa = <Compact<u16>>::parse(bytes, after_rho);
        <Compact<u16>>::lemma_canonical(bytes, after_rho);
        let after_kappa = end_of(kappa, after_rho);
        let difficulty = <Compact<u64>>::parse(bytes, after_kappa);
        <Compact<u64>>::lemma_canonical(bytes, after_kappa);
        let after_difficulty = end_of(difficulty, after_kappa);
        let immunity_period = <Compact<u16>>::parse(bytes, after_difficulty);
        <Compact<u16>>::lemma_canonical(bytes, after_difficulty);
        let after_immunity_period = end_of(immunity_period, after_difficulty);
        let max_allowed_validators = <Compact<u16>>::parse(bytes, after_immunity_period);
        <Compact<u16>>::lemma_canonical(bytes, after_immunity_period);
        let after_max_allowed_validators = end_of(max_allowed_validators, after_immunity_period);
        let min_allowed_weights = <Compact<u16>>::parse(bytes, after_max_allowed_validators);
        <Compact<u16>>::lemma_canonical(bytes, after_max_allowed_validators);
        let after_min_allowed_weights = end_of(min_allowed_weights, after_max_allowed_validators);
        let max_weights_limit = <Compact<u16>>::parse(bytes, after_min_allowed_weights);
        <Compact<u16>>::lemma_canonical(bytes, after_min_allowed_weights);
        let after_max_weights_limit = end_of(max_weights_limit, after_min_allowed_weights);
        let scaling_law_power = <Compact<u16>>::parse(bytes, after_max_weights_limit);
        <Compact<u16>>::lemma_canonical(bytes, after_max_weights_limit);
        let after_scaling_law_power = end_of(scaling_law_power, after_max_weights_limit);
        let subnetwork_n = <Compact<u16>>::parse(bytes, after_scaling_law_power);
        <Compact<u16>>::lemma_canonical(bytes, after_scaling_law_power);
        let after_subnetwork_n = end_of(subnetwork_n, after_scaling_law_power);
        let max_allowed_uids = <Compact<u16>>::parse(bytes, after_subnetwork_n);
        <Compact<u16>>::lemma_canonical(bytes, after_subnetwork_n);
        let after_max_allowed_uids = end_of(max_allowed_uids, after_subnetwork_n);
        let blocks_since_last_step = <Compact<u64>>::parse(bytes, after_max_allowed_uids);
        <Compact<u64>>::lemma_canonical(bytes, after_max_allowed_uids);
        let after_blocks_since_last_step = end_of(blocks_since_last_step, after_max_allowed_uids);
        let tempo = <Compact<u16>>::parse(bytes, after_blocks_since_last_step);
        <Compact<u16>>::lemma_canonical(bytes, after_blocks_since_last_step);
        let after_tempo = end_of(tempo, after_blocks_since_last_step);
        let network_modality = <Compact<u16>>::parse(bytes, after_tempo);
        <Compact<u16>>::lemma_canonical(bytes, after_tempo);
        let after_network_modality = end_of(network_modality, after_tempo);
        let network_connect = <Vec<[u16; 2]>>::parse(bytes, after_network_modality);
        <Vec<[u16; 2]>>::lemma_canonical(bytes, after_network_modality);
        let after_network_connect = end_of(network_connect, after_network_modality);
        let emission_values = <Compact<u64>>::parse(bytes, after_network_connect);
        <Compact<u64>>::lemma_canonical(bytes, after_network_connect);
        let after_emission_values = end_of(emission_values, after_network_connect);
        let burn = <Compact<u64>>::parse(bytes, after_emission_values);
        <Compact<u64>>::lemma_canonical(bytes, after_emission_values);
        let after_burn = end_of(burn, after_emission_values);
        let owner = <AccountId>::parse(bytes, after_burn);
        <AccountId>::lemma_canonical(bytes, after_burn);
        let after_owner = end_of(owner, after_burn);
        let identity = <Option<SubnetIdentity>>::parse(bytes, after_owner);
        <Option<SubnetIdentity>>::lemma_canonical(bytes, after_owner);
        if Self::parse(bytes, pos) is Ok {
            let to_netuid = <Compact<u16>>::encoding(netuid->Ok_0.0);
            let e_rho = <Compact<u16>>::encoding(rho->Ok_0.0);
            lemma_has_at_join(bytes, pos, to_netuid, e_rho);
            let to_rho = to_netuid + e_rho;
            let e_kappa = <Compact<u16>>::encoding(kappa->Ok_0.0);
            lemma_has_at_join(bytes, pos, to_rho, e_kappa);
            let to_kappa = to_rho + e_kappa;
            let e_difficulty = <Compact<u64>>::encoding(difficulty->Ok_0.0);
            lemma_has_at_join(bytes, pos, to_kappa, e_difficulty);
            let to_difficulty = to_kappa + e_difficulty;
            let e_immunity_period = <Compact<u16>>::encoding(immunity_period->Ok_0.0);
            lemma_has_at_join(bytes, pos, to_difficulty, e_immunity_period);
            let to_immunity_period = to_difficulty + e_immunity_period;
            let e_max_allowed_validators = <Compact<u16>>::encoding(max_allowed_validators->Ok_0.0);
            lemma_has_at_join(bytes, pos, to_immunity_period, e_max_allowed_validators);
            let to_max_allowed_validators = to_immunity_period + e_max_allowed_validators;
            let e_min_allowed_weights = <Compact<u16>>::encoding(min_allowed_weights->Ok_0.0);
            lemma_has_at_join(bytes, pos, to_max_allowed_validators, e_min_allowed_weights);
            let to_min_allowed_weights = to_max_allowed_validators + e_min_allowed_weights;
            let e_max_weights_limit = <Compact<u16>>::encoding(max_weights_limit->Ok_0.0);
            lemma_has_at_join(bytes, pos, to_min_allowed_weights, e_max_weights_limit);
            let to_max_weights_limit = to_min_allowed_weights + e_max_weights_limit;
            let e_scaling_law_power = <Compact<u16>>::encoding(scaling_law_power->Ok_0.0);
            lemma_has_at_join(bytes, pos, to_max_weights_limit, e_scaling_law_power);
            let to_scaling_law_power = to_max_weights_limit + e_scaling_law_power;
            let e_subnetwork_n = <Compact<u16>>::encoding(subnetwork_n->Ok_0.0);
            lemma_has_at_join(bytes, pos, to_scaling_law_power, e_subnetwork_n);
            let to_subnetwork_n = to_scaling_law_power + e_subnetwork_n;
            let e_max_allowed_uids = <Compact<u16>>::encoding(max_allowed_uids->Ok_0.0);
            lemma_has_at_join(bytes, pos, to_subnetwork_n, e_max_allowed_uids);
            let to_max_allowed_uids = to_subnetwork_n + e_max_allowed_uids;
            let e_blocks_since_last_step = <Compact<u64>>::encoding(blocks_since_last_step->Ok_0.0);
            lemma_has_at_join(bytes, pos, to_max_allowed_uids, e_blocks_since_last_step);
            let to_blocks_since_last_step = to_max_allowed_uids + e_blocks_since_last_step;
            let e_tempo = <Compact<u16>>::encoding(tempo->Ok_0.0);
            lemma_has_at_join(bytes, pos, to_blocks_since_last_step, e_tempo);
            let to_tempo = to_blocks_since_last_step + e_tempo;
            let e_network_modality = <Compact<u16>>::encoding(network_modality->Ok_0.0);
            lemma_has_at_join(bytes, pos, to_tempo, e_network_modality);
            let to_network_modality = to_tempo + e_network_modality;
            let e_network_connect = <Vec<[u16; 2]>>::encoding(network_connect->Ok_0.0);
            lemma_has_at_join(bytes, pos, to_network_modality, e_network_connect);
            let to_network_connect = to_network_modality + e_network_connect;
            let e_emission_values = <Compact<u64>>::encoding(emission_values->Ok_0.0);
            lemma_has_at_join(bytes, pos, to_network_connect, e_emission_values);
            let to_emission_values = to_network_connect + e_emission_values;
            let e_burn = <Compact<u64>>::encoding(burn->Ok_0.0);
            lemma_has_at_join(bytes, pos, to_emission_values, e_burn);
            let to_burn = to_emission_values + e_burn;
            let e_owner = <AccountId>::encoding(owner->Ok_0.0);
            lemma_has_at_join(bytes, pos, to_burn, e_owner);
            let to_owner = to_burn + e_owner;
            let e_identity = <Option<SubnetIdentity>>::encoding(identity->Ok_0.0);
            lemma_has_at_join(bytes, pos, to_owner, e_identity);
        }
    }

    fn can_encode(&self) -> (yes: bool) {
        self.netuid.can_encode()
            && self.rho.can_encode()
            && self.kappa.can_encode()
            && self.difficulty.can_encode()
            && self.immunity_period.can_encode()
            && self.max_allowed_validators.can_encode()
            && self.min_allowed_weights.can_encode()
            && self.max_weights_limit.can_encode()
            && self.scaling_law_power.can_encode()
            && self.subnetwork_n.can_encode()
            && self.max_allowed_uids.can_encode()
            && self.blocks_since_last_step.can_encode()
            && self.tempo.can_encode()
            && self.network_modality.can_encode()
            && self.network_connect.can_encode()
            && self.emission_values.can_encode()
            && self.burn.can_encode()
            && self.owner.can_encode()
            && self.identity.can_encode()
    }

    fn encode_to(&self, out: &mut Vec<u8>) {
        let ghost m = self.model();
        let ghost start = out@;
        self.netuid.encode_to(out);
        let ghost written = <Compact<u16>>::encoding(m.netuid);
        self.rho.encode_to(out);
        proof {
            lemma_concat_assoc(start, written, <Compact<u16>>::encoding(m.rho));
        }
        let ghost written = written + <Compact<u16>>::encoding(m.rho);
        self.kappa.encode_to(out);
        proof {
            lemma_concat_assoc(start, written, <Compact<u16>>::encoding(m.kappa));
        }
        let ghost written = written + <Compact<u16>>::encoding(m.kappa);
        self.difficulty.encode_to(out);
        proof {
            lemma_concat_assoc(start, written, <Compact<u64>>::encoding(m.difficulty));
        }
        let ghost written = written + <Compact<u64>>::encoding(m.difficulty);
        self.immunity_period.encode_to(out);
        proof {
            lemma_concat_assoc(start, written, <Compact<u16>>::encoding(m.immunity_period));
        }
        let ghost written = written + <Compact<u16>>::encoding(m.immunity_period);
        self.max_allowed_validators.encode_to(out);
        proof {
            lemma_concat_assoc(start, written, <Compact<u16>>::encoding(m.max_allowed_validators));
        }
        let ghost written = written + <Compact<u16>>::encoding(m.max_allowed_validators);
        self.min_allowed_weights.encode_to(out);
        proof {
            lemma_concat_assoc(start, written, <Compact<u16>>::encoding(m.min_allowed_weights));
        }
        let ghost written = written + <Compact<u16>>::encoding(m.min_allowed_weights);
        self.max_weights_limit.encode_to(out);
        proof {
            lemma_concat_assoc(start, written, <Compact<u16>>::encoding(m.max_weights_limit));
        }
        let ghost written = written + <Compact<u16>>::encoding(m.max_weights_limit);
        self.scaling_law_power.encode_to(out);
        proof {
            lemma_concat_assoc(start, written, <Compact<u16>>::encoding(m.scaling_law_power));
        }
        let ghost written = written + <Compact<u16>>::encoding(m.scaling_law_power);
        self.subnetwork_n.encode_to(out);
        proof {
            lemma_concat_assoc(start, written, <Compact<u16>>::encoding(m.subnetwork_n));
        }
        let ghost written = written + <Compact<u16>>::encoding(m.subnetwork_n);
        self.max_allowed_uids.encode_to(out);
        proof {
            lemma_concat_assoc(start, written, <Compact<u16>>::encoding(m.max_allowed_uids));
        }
        let ghost written = written + <Compact<u16>>::encoding(m.max_allowed_uids);
        self.blocks_since_last_step.encode_to(out);
        proof {
            lemma_concat_assoc(start, written, <Compact<u64>>::encoding(m.blocks_since_last_step));
        }
        let ghost written = written + <Compact<u64>>::encoding(m.blocks_since_last_step);
        self.tempo.encode_to(out);
        proof {
            lemma_concat_assoc(start, written, <Compact<u16>>::encoding(m.tempo));
        }
        let ghost written = written + <Compact<u16>>::encoding(m.tempo);
        self.network_modality.encode_to(out);
        proof {
            lemma_concat_assoc(start, written, <Compact<u16>>::encoding(m.network_modality));
        }
        let ghost written = written + <Compact<u16>>::encoding(m.network_modality);
        self.network_connect.encode_to(out);
        proof {
            lemma_concat_assoc(start, written, <Vec<[u16; 2]>>::encoding(m.network_connect));
        }
        let ghost written = written + <Vec<[u16; 2]>>::encoding(m.network_connect);
        self.emission_values.encode_to(out);
        proof {
            lemma_concat_assoc(start, written, <Compact<u64>>::encoding(m.emission_values));
        }
        let ghost written = written + <Compact<u64>>::encoding(m.emission_values);
        self.burn.encode_to(out);
        proof {
            lemma_concat_assoc(start, written, <Compact<u64>>::encoding(m.burn));
        }
        let ghost written = written + <Compact<u64>>::encoding(m.burn);
        self.owner.encode_to(out);
        proof {
            lemma_concat_assoc(start, written, <AccountId>::encoding(m.owner));
        }
        let ghost written = written + <AccountId>::encoding(m.owner);
        self.identity.encode_to(out);
        proof {
            lemma_concat_assoc(start, written, <Option<SubnetIdentity>>::encoding(m.identity));
        }
    }

    fn decode_at(bytes: &[u8], pos: usize) -> (r: Result<(SubnetInfov2, usize), CodecError>) {
        let (netuid, at) = <Compact<u16>>::decode_at(bytes, pos)?;
        let (rho, at) = <Compact<u16>>::decode_at(bytes, at)?;
        let (kappa, at) = <Compact<u16>>::decode_at(bytes, at)?;
        let (difficulty, at) = <Compact<u64>>::decode_at(bytes, at)?;
        let (immunity_period, at) = <Compact<u16>>::decode_at(bytes, at)?;
        let (max_allowed_validators, at) = <Compact<u16>>::decode_at(bytes, at)?;
        let (min_allowed_weights, at) = <Compact<u16>>::decode_at(bytes, at)?;
        let (max_weights_limit, at) = <Compact<u16>>::decode_at(bytes, at)?;
        let (scaling_law_power, at) = <Compact<u16>>::decode_at(bytes, at)?;
        let (subnetwork_n, at) = <Compact<u16>>::decode_at(bytes, at)?;
        let (max_allowed_uids, at) = <Compact<u16>>::decode_at(bytes, at)?;
        let (blocks_since_last_step, at) = <Compact<u64>>::decode_at(bytes, at)?;
        let (tempo, at) = <Compact<u16>>::decode_at(bytes, at)?;
        let (network_modality, at) = <Compact<u16>>::decode_at(bytes, at)?;
        let (network_connect, at) = <Vec<[u16; 2]>>::decode_at(bytes, at)?;
        let (emission_values, at) = <Compact<u64>>::decode_at(bytes, at)?;
        let (burn, at) = <Compact<u64>>::decode_at(bytes, at)?;
        let (owner, at) = <AccountId>::decode_at(bytes, at)?;
        let (identity, at) = <Option<SubnetIdentity>>::decode_at(bytes, at)?;
        Ok(
            (
                SubnetInfov2 {
                    netuid,
                    rho,
                    kappa,
                    difficulty,
                    immunity_period,
                    max_allowed_validators,
                    min_allowed_weights,
                    max_weights_limit,
                    scaling_law_power,
                    subnetwork_n,
                    max_allowed_uids,
                    blocks_since_last_step,
                    tempo,
                    network_modality,
                    network_connect,
                    emission_values,
                    burn,
                    owner,
                    identity,
                },
                at,
            ),
        )
    }
}

/// The tunable parameters of one subnet.
#[derive(Clone, Copy, Debug, PartialEq, Eq)]
pub struct SubnetHyperparams {
    pub rho: Compact<u16>,
    pub kappa: Compact<u16>,
    pub immunity_period: Compact<u16>,
    pub min_allowed_weights: Compact<u16>,
    pub max_weights_limit: Compact<u16>,
    pub tempo: Compact<u16>,
    pub min_difficulty: Compact<u64>,
    pub max_difficulty: Compact<u64>,
    pub weights_version: Compact<u64>,
    pub weights_rate_limit: Compact<u64>,
    pub adjustment_interval: Compact<u16>,
    pub activity_cutoff: Compact<u16>,
    pub registration_allowed: bool,
    pub target_regs_per_interval: Compact<u16>,
    pub min_burn: Compact<u64>,
    pub max_burn: Compact<u64>,
    pub bonds_moving_avg: Compact<u64>,
    pub max_regs_per_block: Compact<u16>,
    pub serving_rate_limit: Compact<u64>,
    pub max_validators: Compact<u16>,
    pub adjustment_alpha: Compact<u64>,
    pub difficulty: Compact<u64>,
    pub commit_reveal_weights_interval: Compact<u64>,
    pub commit_reveal_weights_enabled: bool,
    pub alpha_high: Compact<u16>,
    pub alpha_low: Compact<u16>,
    pub liquid_alpha_enabled: bool,
}

/// The value of a [`SubnetHyperparams`].
pub struct SubnetHyperparamsModel {
    pub rho: u16,
    pub kappa: u16,
    pub immunity_period: u16,
    pub min_allowed_weights: u16,
    pub max_weights_limit: u16,
    pub tempo: u16,
    pub min_difficulty: u64,
    pub max_difficulty: u64,
    pub weights_version: u64,
    pub weights_rate_limit: u64,
    pub adjustment_interval: u16,
    pub activity_cutoff: u16,
    pub registration_allowed: bool,
    pub target_regs_per_interval: u16,
    pub min_burn: u64,
    pub max_burn: u64,
    pub bonds_moving_avg: u64,
    pub max_regs_per_block: u16,
    pub serving_rate_limit: u64,
    pub max_validators: u16,
    pub adjustment_alpha: u64,
    pub difficulty: u64,
    pub commit_reveal_weights_interval: u64,
    pub commit_reveal_weights_enabled: bool,
    pub alpha_high: u16,
    pub alpha_low: u16,
    pub liquid_alpha_enabled: bool,
}

impl Wire for SubnetHyperparams {
    type Model = SubnetHyperparamsModel;

    open spec fn model(&self) -> SubnetHyperparamsModel {
        SubnetHyperparamsModel {
            rho: self.rho.model(),
            kappa: self.kappa.model(),
            immunity_period: self.immunity_period.model(),
            min_allowed_weights: self.min_allowed_weights.model(),
            max_weights_limit: self.max_weights_limit.model(),
            tempo: self.tempo.model(),
            min_difficulty: self.min_difficulty.model(),
            max_difficulty: self.max_difficulty.model(),
            weights_version: self.weights_version.model(),
            weights_rate_limit: self.weights_rate_limit.model(),
            adjustment_interval: self.adjustment_interval.model(),
            activity_cutoff: self.activity_cutoff.model(),
            registration_allowed: self.registration_allowed.model(),
            target_regs_per_interval: self.target_regs_per_interval.model(),
            min_burn: self.min_burn.model(),
            max_burn: self.max_burn.model(),
            bonds_moving_avg: self.bonds_moving_avg.model(),
            max_regs_per_block: self.max_regs_per_block.model(),
            serving_rate_limit: self.serving_rate_limit.model(),
            max_validators: self.max_validators.model(),
            adjustment_alpha: self.adjustment_alpha.model(),
            difficulty: self.difficulty.model(),
            commit_reveal_weights_interval: self.commit_reveal_weights_interval.model(),
            commit_reveal_weights_enabled: self.commit_reveal_weights_enabled.model(),
            alpha_high: self.alpha_high.model(),
            alpha_low: self.alpha_low.model(),
            liquid_alpha_enabled: self.liquid_alpha_enabled.model(),
        }
    }

    open spec fn encodable(m: SubnetHyperparamsModel) -> bool {
        &&& <Compact<u16>>::encodable(m.rho)
        &&& <Compact<u16>>::encodable(m.kappa)
        &&& <Compact<u16>>::encodable(m.immunity_period)
        &&& <Compact<u16>>::encodable(m.min_allowed_weights)
        &&& <Compact<u16>>::encodable(m.max_weights_limit)
        &&& <Compact<u16>>::encodable(m.tempo)
        &&& <Compact<u64>>::encodable(m.min_difficulty)
        &&& <Compact<u64>>::encodable(m.max_difficulty)
        &&& <Compact<u64>>::encodable(m.weights_version)
        &&& <Compact<u64>>::encodable(m.weights_rate_limit)
        &&& <Compact<u16>>::encodable(m.adjustment_interval)
        &&& <Compact<u16>>::encodable(m.activity_cutoff)
        &&& <bool>::encodable(m.registration_allowed)
        &&& <Compact<u16>>::encodable(m.target_regs_per_interval)
        &&& <Compact<u64>>::encodable(m.min_burn)
        &&& <Compact<u64>>::encodable(m.max_burn)
        &&& <Compact<u64>>::encodable(m.bonds_moving_avg)
        &&& <Compact<u16>>::encodable(m.max_regs_per_block)
        &&& <Compact<u64>>::encodable(m.serving_rate_limit)
        &&& <Compact<u16>>::encodable(m.max_validators)
        &&& <Compact<u64>>::encodable(m.adjustment_alpha)
        &&& <Compact<u64>>::encodable(m.difficulty)
        &&& <Compact<u64>>::encodable(m.commit_reveal_weights_interval)
        &&& <bool>::encodable(m.commit_reveal_weights_enabled)
        &&& <Compact<u16>>::encodable(m.alpha_high)
        &&& <Compact<u16>>::encodable(m.alpha_low)
        &&& <bool>::encodable(m.liquid_alpha_enabled)
    }

    open spec fn encoding(m: SubnetHyperparamsModel) -> Seq<u8> {
        <Compact<u16>>::encoding(m.rho)
            + <Compact<u16>>::encoding(m.kappa)
            + <Compact<u16>>::encoding(m.immunity_period)
            + <Compact<u16>>::encoding(m.min_allowed_weights)
            + <Compact<u16>>::encoding(m.max_weights_limit)
            + <Compact<u16>>::encoding(m.tempo)
            + <Compact<u64>>::encoding(m.min_difficulty)
            + <Compact<u64>>::encoding(m.max_difficulty)
            + <Compact<u64>>::encoding(m.weights_version)
            + <Compact<u64>>::encoding(m.weights_rate_limit)
            + <Compact<u16>>::encoding(m.adjustment_interval)
            + <Compact<u16>>::encoding(m.activity_cutoff)
            + <bool>::encoding(m.registration_allowed)
            + <Compact<u16>>::encoding(m.target_regs_per_interval)
            + <Compact<u64>>::encoding(m.min_burn)
            + <Compact<u64>>::encoding(m.max_burn)
            + <Compact<u64>>::encoding(m.bonds_moving_avg)
            + <Compact<u16>>::encoding(m.max_regs_per_block)
            + <Compact<u64>>::encoding(m.serving_rate_limit)
            + <Compact<u16>>::encoding(m.max_validators)
            + <Compact<u64>>::encoding(m.adjustment_alpha)
            + <Compact<u64>>::encoding(m.difficulty)
            + <Compact<u64>>::encoding(m.commit_reveal_weights_interval)
            + <bool>::encoding(m.commit_reveal_weights_enabled)
            + <Compact<u16>>::encoding(m.alpha_high)
            + <Compact<u16>>::encoding(m.alpha_low)
            + <bool>::encoding(m.liquid_alpha_enabled)
    }

    open spec fn parse(bytes: Seq<u8>, pos: int) -> Result<(SubnetHyperparamsModel, int), CodecError> {
        let rho = <Compact<u16>>::parse(bytes, pos);
        let after_rho = end_of(rho, pos);
        let kappa = <Compact<u16>>::parse(bytes, after_rho);
        let after_kappa = end_of(kappa, after_rho);
        let immunity_period = <Compact<u16>>::parse(bytes, after_kappa);
        let after_immunity_period = end_of(immunity_period, after_kappa);
        let min_allowed_weights = <Compact<u16>>::parse(bytes, after_immunity_period);
        let after_min_allowed_weights = end_of(min_allowed_weights, after_immunity_period);
        let max_weights_limit = <Compact<u16>>::parse(bytes, after_min_allowed_weights);
        let after_max_weights_limit = end_of(max_weights_limit, after_min_allowed_weights);
        let tempo = <Compact<u16>>::parse(bytes, after_max_weights_limit);
        let after_tempo = end_of(tempo, after_max_weights_limit);
        let min_difficulty = <Compact<u64>>::parse(bytes, after_tempo);
        let after_min_difficulty = end_of(min_difficulty, after_tempo);
        let max_difficulty = <Compact<u64>>::parse(bytes, after_min_difficulty);
        let after_max_difficulty = end_of(max_difficulty, after_min_difficulty);
        let weights_version = <Compact<u64>>::parse(bytes, after_max_difficulty);
        let after_weights_version = end_of(weights_version, after_max_difficulty);
        let weights_rate_limit = <Compact<u64>>::parse(bytes, after_weights_version);
        let after_weights_rate_limit = end_of(weights_rate_limit, after_weights_version);
        let adjustment_interval = <Compact<u16>>::parse(bytes, after_weights_rate_limit);
        let after_adjustment_interval = end_of(adjustment_interval, after_weights_rate_limit);
        let activity_cutoff = <Compact<u16>>::parse(bytes, after_adjustment_interval);
        let after_activity_cutoff = end_of(activity_cutoff, after_adjustment_interval);
        let registration_allowed = <bool>::parse(bytes, after_activity_cutoff);
        let after_registration_allowed = end_of(registration_allowed, after_activity_cutoff);
        let target_regs_per_interval = <Compact<u16>>::parse(bytes, after_registration_allowed);
        let after_target_regs_per_interval = end_of(target_regs_per_interval, after_registration_allowed);
        let min_burn = <Compact<u64>>::parse(bytes, after_target_regs_per_interval);
        let after_min_burn = end_of(min_burn, after_target_regs_per_interval);
        let max_burn = <Compact<u64>>::parse(bytes, after_min_burn);
        let after_max_burn = end_of(max_burn, after_min_burn);
        let bonds_moving_avg = <Compact<u64>>::parse(bytes, after_max_burn);
        let after_bonds_moving_avg = end_of(bonds_moving_avg, after_max_burn);
        let max_regs_per_block = <Compact<u16>>::parse(bytes, after_bonds_moving_avg);
        let after_max_regs_per_block = end_of(max_regs_per_block, after_bonds_moving_avg);
        let serving_rate_limit = <Compact<u64>>::parse(bytes, after_max_regs_per_block);
        let after_serving_rate_limit = end_of(serving_rate_limit, after_max_regs_per_block);
        let max_validators = <Compact<u16>>::parse(bytes, after_serving_rate_limit);
        let after_max_validators = end_of(max_validators, after_serving_rate_limit);
        let adjustment_alpha = <Compact<u64>>::parse(bytes, after_max_validators);
        let after_adjustment_alpha = end_of(adjustment_alpha, after_max_validators);
        let difficulty = <Compact<u64>>::parse(bytes, after_adjustment_alpha);
        let after_difficulty = end_of(difficulty, after_adjustment_alpha);
        let commit_reveal_weights_interval = <Compact<u64>>::parse(bytes, after_difficulty);
        let after_commit_reveal_weights_interval = end_of(commit_reveal_weights_interval, after_difficulty);
        let commit_reveal_weights_enabled = <bool>::parse(bytes, after_commit_reveal_weights_interval);
        let after_commit_reveal_weights_enabled = end_of(commit_reveal_weights_enabled, after_commit_reveal_weights_interval);
        let alpha_high = <Compact<u16>>::parse(bytes, after_commit_reveal_weights_enabled);
        let after_alpha_high = end_of(alpha_high, after_commit_reveal_weights_enabled);
        let alpha_low = <Compact<u16>>::parse(bytes, after_alpha_high);
        let after_alpha_low = end_of(alpha_low, after_alpha_high);
        let liquid_alpha_enabled = <bool>::parse(bytes, after_alpha_low);
        let after_liquid_alpha_enabled = end_of(liquid_alpha_enabled, after_alpha_low);
        if rho is Err {
            Err(rho->Err_0)
        } else if kappa is Err {
            Err(kappa->Err_0)
        } else if immunity_period is Err {
            Err(immunity_period->Err_0)
        } else if min_allowed_weights is Err {
            Err(min_allowed_weights->Err_0)
        } else if max_weights_limit is Err {
            Err(max_weights_limit->Err_0)
        } else if tempo is Err {
            Err(tempo->Err_0)
        } else if min_difficulty is Err {
            Err(min_difficulty->Err_0)
        } else if max_difficulty is Err {
            Err(max_difficulty->Err_0)
        } else if weights_version is Err {
            Err(weights_version->Err_0)
        } else if weights_rate_limit is Err {
            Err(weights_rate_limit->Err_0)
        } else if adjustment_interval is Err {
            Err(adjustment_interval->Err_0)
        } else if activity_cutoff is Err {
            Err(activity_cutoff->Err_0)
        } else if registration_allowed is Err {
            Err(registration_allowed->Err_0)
        } else if target_regs_per_interval is Err {
            Err(target_regs_per_interval->Err_0)
        } else if min_burn is Err {
            Err(min_burn->Err_0)
        } else if max_burn is Err {
            Err(max_burn->Err_0)
        } else if bonds_moving_avg is Err {
            Err(bonds_moving_avg->Err_0)
        } else if max_regs_per_block is Err {
            Err(max_regs_per_block->Err_0)
        } else if serving_rate_limit is Err {
            Err(serving_rate_limit->Err_0)
        } else if max_validators is Err {
            Err(max_validators->Err_0)
        } else if adjustment_alpha is Err {
            Err(adjustment_alpha->Err_0)
        } else if difficulty is Err {
            Err(difficulty->Err_0)
        } else if commit_reveal_weights_interval is Err {
            Err(commit_reveal_weights_interval->Err_0)
        } else if commit_reveal_weights_enabled is Err {
            Err(commit_reveal_weights_enabled->Err_0)
        } else if alpha_high is Err {
            Err(alpha_high->Err_0)
        } else if alpha_low is Err {
            Err(alpha_low->Err_0)
        } else if liquid_alpha_enabled is Err {
            Err(liquid_alpha_enabled->Err_0)
        } else {
            Ok(
                (
                    SubnetHyperparamsModel {
                        rho: rho->Ok_0.0,
                        kappa: kappa->Ok_0.0,
                        immunity_period: immunity_period->Ok_0.0,
                        min_allowed_weights: min_allowed_weights->Ok_0.0,
                        max_weights_limit: max_weights_limit->Ok_0.0,
                        tempo: tempo->Ok_0.0,
                        min_difficulty: min_difficulty->Ok_0.0,
                        max_difficulty: max_difficulty->Ok_0.0,
                        weights_version: weights_version->Ok_0.0,
                        weights_rate_limit: weights_rate_limit->Ok_0.0,
                        adjustment_interval: adjustment_interval->Ok_0.0,
                        activity_cutoff: activity_cutoff->Ok_0.0,
                        registration_allowed: registration_allowed->Ok_0.0,
                        target_regs_per_interval: target_regs_per_interval->Ok_0.0,
                        min_burn: min_burn->Ok_0.0,
                        max_burn: max_burn->Ok_0.0,
                        bonds_moving_avg: bonds_moving_avg->Ok_0.0,
                        max_regs_per_block: max_regs_per_block->Ok_0.0,
                        serving_rate_limit: serving_rate_limit->Ok_0.0,
                        max_validators: max_validators->Ok_0.0,
                        adjustment_alpha: adjustment_alpha->Ok_0.0,
                        difficulty: difficulty->Ok_0.0,
                        commit_reveal_weights_interval: commit_reveal_weights_interval->Ok_0.0,
                        commit_reveal_weights_enabled: commit_reveal_weights_enabled->Ok_0.0,
                        alpha_high: alpha_high->Ok_0.0,
                        alpha_low: alpha_low->Ok_0.0,
                        liquid_alpha_enabled: liquid_alpha_enabled->Ok_0.0,
                    },
                    after_liquid_alpha_enabled,
                ),
            )
        }
    }

    proof fn lemma_round_trip(m: SubnetHyperparamsModel, bytes: Seq<u8>, pos: int) {
        let rho = <Compact<u16>>::encoding(m.rho);
        let kappa = <Compact<u16>>::encoding(m.kappa);
        let immunity_period = <Compact<u16>>::encoding(m.immunity_period);
        let min_allowed_weights = <Compact<u16>>::encoding(m.min_allowed_weights);
        let max_weights_limit = <Compact<u16>>::encoding(m.max_weights_limit);
        let tempo = <Compact<u16>>::encoding(m.tempo);
        let min_difficulty = <Compact<u64>>::encoding(m.min_difficulty);
        let max_difficulty = <Compact<u64>>::encoding(m.max_difficulty);
        let weights_version = <Compact<u64>>::encoding(m.weights_version);
        let weights_rate_limit = <Compact<u64>>::encoding(m.weights_rate_limit);
        let adjustment_interval = <Compact<u16>>::encoding(m.adjustment_interval);
        let activity_cutoff = <Compact<u16>>::encoding(m.activity_cutoff);
        let registration_allowed = <bool>::encoding(m.registration_allowed);
        let target_regs_per_interval = <Compact<u16>>::encoding(m.target_regs_per_interval);
        let min_burn = <Compact<u64>>::encoding(m.min_burn);
        let max_burn = <Compact<u64>>::encoding(m.max_burn);
        let bonds_moving_avg = <Compact<u64>>::encoding(m.bonds_moving_avg);
        let max_regs_per_block = <Compact<u16>>::encoding(m.max_regs_per_block);
        let serving_rate_limit = <Compact<u64>>::encoding(m.serving_rate_limit);
        let max_validators = <Compact<u16>>::encoding(m.max_validators);
        let adjustment_alpha = <Compact<u64>>::encoding(m.adjustment_alpha);
        let difficulty = <Compact<u64>>::encoding(m.difficulty);
        let commit_reveal_weights_interval = <Compact<u64>>::encoding(m.commit_reveal_weights_interval);
        let commit_reveal_weights_enabled = <bool>::encoding(m.commit_reveal_weights_enabled);
        let alpha_high = <Compact<u16>>::encoding(m.alpha_high);
        let alpha_low = <Compact<u16>>::encoding(m.alpha_low);
        let liquid_alpha_enabled = <bool>::encoding(m.liquid_alpha_enabled);
        let to_rho = rho;
        let to_kappa = to_rho + kappa;
        let to_immunity_period = to_kappa + immunity_period;
        let to_min_allowed_weights = to_immunity_period + min_allowed_weights;
        let to_max_weights_limit = to_min_allowed_weights + max_weights_limit;
        let to_tempo = to_max_weights_limit + tempo;
        let to_min_difficulty = to_tempo + min_difficulty;
        let to_max_difficulty = to_min_difficulty + max_difficulty;
        let to_weights_version = to_max_difficulty + weights_version;
        let to_weights_rate_limit = to_weights_version + weights_rate_limit;
        let to_adjustment_interval = to_weights_rate_limit + adjustment_interval;
        let to_activity_cutoff = to_adjustment_interval + activity_cutoff;
        let to_registration_allowed = to_activity_cutoff + registration_allowed;
        let to_target_regs_per_interval = to_registration_allowed + target_regs_per_interval;
        let to_min_burn = to_target_regs_per_interval + min_burn;
        let to_max_burn = to_min_burn + max_burn;
        let to_bonds_moving_avg = to_max_burn + bonds_moving_avg;
        let to_max_regs_per_block = to_bonds_moving_avg + max_regs_per_block;
        let to_serving_rate_limit = to_max_regs_per_block + serving_rate_limit;
        let to_max_validators = to_serving_rate_limit + max_validators;
        let to_adjustment_alpha = to_max_validators + adjustment_alpha;
        let to_difficulty = to_adjustment_alpha + difficulty;
        let to_commit_reveal_weights_interval = to_difficulty + commit_reveal_weights_interval;
        let to_commit_reveal_weights_enabled = to_commit_reveal_weights_interval + commit_reveal_weights_enabled;
        let to_alpha_high = to_commit_reveal_weights_enabled + alpha_high;
        let to_alpha_low = to_alpha_high + alpha_low;
        lemma_has_at_split(bytes, pos, to_alpha_low, liquid_alpha_enabled);
        lemma_has_at_split(bytes, pos, to_alpha_high, alpha_low);
        lemma_has_at_split(bytes, pos, to_commit_reveal_weights_enabled, alpha_high);
        lemma_has_at_split(bytes, pos, to_commit_reveal_weights_interval, commit_reveal_weights_enabled);
        lemma_has_at_split(bytes, pos, to_difficulty, commit_reveal_weights_interval);
        lemma_has_at_split(bytes, pos, to_adjustment_alpha, difficulty);
        lemma_has_at_split(bytes, pos, to_max_validators, adjustment_alpha);
        lemma_has_at_split(bytes, pos, to_serving_rate_limit, max_validators);
        lemma_has_at_split(bytes, pos, to_max_regs_per_block, serving_rate_limit);
        lemma_has_at_split(bytes, pos, to_bonds_moving_avg, max_regs_per_block);
        lemma_has_at_split(bytes, pos, to_max_burn, bonds_moving_avg);
        lemma_has_at_split(bytes, pos, to_min_burn, max_burn);
        lemma_has_at_split(bytes, pos, to_target_regs_per_interval, min_burn);
        lemma_has_at_split(bytes, pos, to_registration_allowed, target_regs_per_interval);
        lemma_has_at_split(bytes, pos, to_activity_cutoff, registration_allowed);
        lemma_has_at_split(bytes, pos, to_adjustment_interval, activity_cutoff);
        lemma_has_at_split(bytes, pos, to_weights_rate_limit, adjustment_interval);
        lemma_has_at_split(bytes, pos, to_weights_version, weights_rate_limit);
        lemma_has_at_split(bytes, pos, to_max_difficulty, weights_version);
        lemma_has_at_split(bytes, pos, to_min_difficulty, max_difficulty);
        lemma_has_at_split(bytes, pos, to_tempo, min_difficulty);
        lemma_has_at_split(bytes, pos, to_max_weights_limit, tempo);
        lemma_has_at_split(bytes, pos, to_min_allowed_weights, max_weights_limit);
        lemma_has_at_split(bytes, pos, to_immunity_period, min_allowed_weights);
        lemma_has_at_split(bytes, pos, to_kappa, immunity_period);
        lemma_has_at_split(bytes, pos, to_rho, kappa);
        <Compact<u16>>::lemma_round_trip(m.rho, bytes, pos);
        <Compact<u16>>::lemma_round_trip(m.kappa, bytes, pos + to_rho.len());
        <Compact<u16>>::lemma_round_trip(m.immunity_period, bytes, pos + to_kappa.len());
        <Compact<u16>>::lemma_round_trip(m.min_allowed_weights, bytes, pos + to_immunity_period.len());
        <Compact<u16>>::lemma_round_trip(m.max_weights_limit, bytes, pos + to_min_allowed_weights.len());
        <Compact<u16>>::lemma_round_trip(m.tempo, bytes, pos + to_max_weights_limit.len());
        <Compact<u64>>::lemma_round_trip(m.min_difficulty, bytes, pos + to_tempo.len());
        <Compact<u64>>::lemma_round_trip(m.max_difficulty, bytes, pos + to_min_difficulty.len());
        <Compact<u64>>::lemma_round_trip(m.weights_version, bytes, pos + to_max_difficulty.len());
        <Compact<u64>>::lemma_round_trip(m.weights_rate_limit, bytes, pos + to_weights_version.len());
        <Compact<u16>>::lemma_round_trip(m.adjustment_interval, bytes, pos + to_weights_rate_limit.len());
        <Compact<u16>>::lemma_round_trip(m.activity_cutoff, bytes, pos + to_adjustment_interval.len());
        <bool>::lemma_round_trip(m.registration_allowed, bytes, pos + to_activity_cutoff.len());
        <Compact<u16>>::lemma_round_trip(m.target_regs_per_interval, bytes, pos + to_registration_allowed.len());
        <Compact<u64>>::lemma_round_trip(m.min_burn, bytes, pos + to_target_regs_per_interval.len());
        <Compact<u64>>::lemma_round_trip(m.max_burn, bytes, pos + to_min_burn.len());
        <Compact<u64>>::lemma_round_trip(m.bonds_moving_avg, bytes, pos + to_max_burn.len());
        <Compact<u16>>::lemma_round_trip(m.max_regs_per_block, bytes, pos + to_bonds_moving_avg.len());
        <Compact<u64>>::lemma_round_trip(m.serving_rate_limit, bytes, pos + to_max_regs_per_block.len());
        <Compact<u16>>::lemma_round_trip(m.max_validators, bytes, pos + to_serving_rate_limit.len());
        <Compact<u64>>::lemma_round_trip(m.adjustment_alpha, bytes, pos + to_max_validators.len());
        <Compact<u64>>::lemma_round_trip(m.difficulty, bytes, pos + to_adjustment_alpha.len());
        <Compact<u64>>::lemma_round_trip(m.commit_reveal_weights_interval, bytes, pos + to_difficulty.len());
        <bool>::lemma_round_trip(m.commit_reveal_weights_enabled, bytes, pos + to_commit_reveal_weights_interval.len());
        <Compact<u16>>::lemma_round_trip(m.alpha_high, bytes, pos + to_commit_reveal_weights_enabled.len());
        <Compact<u16>>::lemma_round_trip(m.alpha_low, bytes, pos + to_alpha_high.len());
        <bool>::lemma_round_trip(m.liquid_alpha_enabled, bytes, pos + to_alpha_low.len());
    }

    proof fn lemma_canonical(bytes: Seq<u8>, pos: int) {
        let rho = <Compact<u16>>::parse(bytes, pos);
        <Compact<u16>>::lemma_canonical(bytes, pos);
        let after_rho = end_of(rho, pos);
        let kappa = <Compact<u16>>::parse(bytes, after_rho);
        <Compact<u16>>::lemma_canonical(bytes, after_rho);
        let after_kappa = end_of(kappa, after_rho);
        let immunity_period = <Compact<u16>>::parse(bytes, after_kappa);
        <Compact<u16>>::lemma_canonical(bytes, after_kappa);
        let after_immunity_period = end_of(immunity_period, after_kappa);
        let min_allowed_weights = <Compact<u16>>::parse(bytes, after_immunity_period);
        <Compact<u16>>::lemma_canonical(bytes, after_immunity_period);
        let after_min_allowed_weights = end_of(min_allowed_weights, after_immunity_period);
        let max_weights_limit = <Compact<u16>>::parse(bytes, after_min_allowed_weights);
        <Compact<u16>>::lemma_canonical(bytes, after_min_allowed_weights);
        let after_max_weights_limit = end_of(max_weights_limit, after_min_allowed_weights);
        let tempo = <Compact<u16>>::parse(bytes, after_max_weights_limit);
        <Compact<u16>>::lemma_canonical(bytes, after_max_weights_limit);
        let after_tempo = end_of(tempo, after_max_weights_limit);
        let min_difficulty = <Compact<u64>>::parse(bytes, after_tempo);
        <Compact<u64>>::lemma_canonical(bytes, after_tempo);
        let after_min_difficulty = end_of(min_difficulty, after_tempo);
        let max_difficulty = <Compact<u64>>::parse(bytes, after_min_difficulty);
        <Compact<u64>>::lemma_canonical(bytes, after_min_difficulty);
        let after_max_difficulty = end_of(max_difficulty, after_min_difficulty);
        let weights_version = <Compact<u64>>::parse(bytes, after_max_difficulty);
        <Compact<u64>>::lemma_canonical(bytes, after_max_difficulty);
        let after_weights_version = end_of(weights_version, after_max_difficulty);
        let weights_rate_limit = <Compact<u64>>::parse(bytes, after_weights_version);
        <Compact<u64>>::lemma_canonical(bytes, after_weights_version);
        let after_weights_rate_limit = end_of(weights_rate_limit, after_weights_version);
        let adjustment_interval = <Compact<u16>>::parse(bytes, after_weights_rate_limit);
        <Compact<u16>>::lemma_canonical(bytes, after_weights_rate_limit);
        let after_adjustment_interval = end_of(adjustment_interval, after_weights_rate_limit);
        let activity_cutoff = <Compact<u16>>::parse(bytes, after_adjustment_interval);
        <Compact<u16>>::lemma_canonical(bytes, after_adjustment_interval);
        let after_activity_cutoff = end_of(activity_cutoff, after_adjustment_interval);
        let registration_allowed = <bool>::parse(bytes, after_activity_cutoff);
        <bool>::lemma_canonical(bytes, after_activity_cutoff);
        let after_registration_allowed = end_of(registration_allowed, after_activity_cutoff);
        let target_regs_per_interval = <Compact<u16>>::parse(bytes, after_registration_allowed);
        <Compact<u16>>::lemma_canonical(bytes, after_registration_allowed);
        let after_target_regs_per_interval = end_of(target_regs_per_interval, after_registration_allowed);
        let min_burn = <Compact<u64>>::parse(bytes, after_target_regs_per_interval);
        <Compact<u64>>::lemma_canonical(bytes, after_target_regs_per_interval);
        let after_min_burn = end_of(min_burn, after_target_regs_per_interval);
        let max_burn = <Compact<u64>>::parse(bytes, after_min_burn);
        <Compact<u64>>::lemma_canonical(bytes, after_min_burn);
        let after_max_burn = end_of(max_burn, after_min_burn);
        let bonds_moving_avg = <Compact<u64>>::parse(bytes, after_max_burn);
        <Compact<u64>>::lemma_canonical(bytes, after_max_burn);
        let after_bonds_moving_avg = end_of(bonds_moving_avg, after_max_burn);
        let max_regs_per_block = <Compact<u16>>::parse(bytes, after_bonds_moving_avg);
        <Compact<u16>>::lemma_canonical(bytes, after_bonds_moving_avg);
        let after_max_regs_per_block = end_of(max_regs_per_block, after_bonds_moving_avg);
        let serving_rate_limit = <Compact<u64>>::parse(bytes, after_max_regs_per_block);
        <Compact<u64>>::lemma_canonical(bytes, after_max_regs_per_block);
        let after_serving_rate_limit = end_of(serving_rate_limit, after_max_regs_per_block);
        let max_validators = <Compact<u16>>::parse(bytes, after_serving_rate_limit);
        <Compact<u16>>::lemma_canonical(bytes, after_serving_rate_limit);
        let after_max_validators = end_of(max_validators, after_serving_rate_limit);
        let adjustment_alpha = <Compact<u64>>::parse(bytes, after_max_validators);
        <Compact<u64>>::lemma_canonical(bytes, after_max_validators);
        let after_adjustment_alpha = end_of(adjustment_alpha, after_max_validators);
        let difficulty = <Compact<u64>>::parse(bytes, after_adjustment_alpha);
        <Compact<u64>>::lemma_canonical(bytes, after_adjustment_alpha);
        let after_difficulty = end_of(difficulty, after_adjustment_alpha);
        let commit_reveal_weights_interval = <Compact<u64>>::parse(bytes, after_difficulty);
        <Compact<u64>>::lemma_canonical(bytes, after_difficulty);
        let after_commit_reveal_weights_interval = end_of(commit_reveal_weights_interval, after_difficulty);
        let commit_reveal_weights_enabled = <bool>::parse(bytes, after_commit_reveal_weights_interval);
        <bool>::lemma_canonical(bytes, after_commit_reveal_weights_interval);
        let after_commit_reveal_weights_enabled = end_of(commit_reveal_weights_enabled, after_commit_reveal_weights_interval);
        let alpha_high = <Compact<u16>>::parse(bytes, after_commit_reveal_weights_enabled);
        <Compact<u16>>::lemma_canonical(bytes, after_commit_reveal_weights_enabled);
        let after_alpha_high = end_of(alpha_high, after_commit_reveal_weights_enabled);
        let alpha_low = <Compact<u16>>::parse(bytes, after_alpha_high);
        <Compact<u16>>::lemma_canonical(bytes, after_alpha_high);
        let after_alpha_low = end_of(alpha_low, after_alpha_high);
        let liquid_alpha_enabled = <bool>::parse(bytes, after_alpha_low);
        <bool>::lemma_canonical(bytes, after_alpha_low);
        if Self::parse(bytes, pos) is Ok {
            let to_rho = <Compact<u16>>::encoding(rho->Ok_0.0);
            let e_kappa = <Compact<u16>>::encoding(kappa->Ok_0.0);
            lemma_has_at_join(bytes, pos, to_rho, e_kappa);
            let to_kappa = to_rho + e_kappa;
            let e_immunity_period = <Compact<u16>>::encoding(immunity_period->Ok_0.0);
            lemma_has_at_join(bytes, pos, to_kappa, e_immunity_period);
            let to_immunity_period = to_kappa + e_immunity_period;
            let e_min_allowed_weights = <Compact<u16>>::encoding(min_allowed_weights->Ok_0.0);
            lemma_has_at_join(bytes, pos, to_immunity_period, e_min_allowed_weights);
            let to_min_allowed_weights = to_immunity_period + e_min_allowed_weights;
            let e_max_weights_limit = <Compact<u16>>::encoding(max_weights_limit->Ok_0.0);
            lemma_has_at_join(bytes, pos, to_min_allowed_weights, e_max_weights_limit);
            let to_max_weights_limit = to_min_allowed_weights + e_max_weights_limit;
            let e_tempo = <Compact<u16>>::encoding(tempo->Ok_0.0);
            lemma_has_at_join(bytes, pos, to_max_weights_limit, e_tempo);
            let to_tempo = to_max_weights_limit + e_tempo;
            let e_min_difficulty = <Compact<u64>>::encoding(min_difficulty->Ok_0.0);
            lemma_has_at_join(bytes, pos, to_tempo, e_min_difficulty);
            let to_min_difficulty = to_tempo + e_min_difficulty;
            let e_max_difficulty = <Compact<u64>>::encoding(max_difficulty->Ok_0.0);
            lemma_has_at_join(bytes, pos, to_min_difficulty, e_max_difficulty);
            let to_max_difficulty = to_min_difficulty + e_max_difficulty;
            let e_weights_version = <Compact<u64>>::encoding(weights_version->Ok_0.0);
            lemma_has_at_join(bytes, pos, to_max_difficulty, e_weights_version);
            let to_weights_version = to_max_difficulty + e_weights_version;
            let e_weights_rate_limit = <Compact<u64>>::encoding(weights_rate_limit->Ok_0.0);
            lemma_has_at_join(bytes, pos, to_weights_version, e_weights_rate_limit);
            let to_weights_rate_limit = to_weights_version + e_weights_rate_limit;
            let e_adjustment_interval = <Compact<u16>>::encoding(adjustment_interval->Ok_0.0);
            lemma_has_at_join(bytes, pos, to_weights_rate_limit, e_adjustment_interval);
            let to_adjustment_interval = to_weights_rate_limit + e_adjustment_interval;
            let e_activity_cutoff = <Compact<u16>>::encoding(activity_cutoff->Ok_0.0);
            lemma_has_at_join(bytes, pos, to_adjustment_interval, e_activity_cutoff);
            let to_activity_cutoff = to_adjustment_interval + e_activity_cutoff;
            let e_registration_allowed = <bool>::encoding(registration_allowed->Ok_0.0);
            lemma_has_at_join(bytes, pos, to_activity_cutoff, e_registration_allowed);
            let to_registration_allowed = to_activity_cutoff + e_registration_allowed;
            let e_target_regs_per_interval = <Compact<u16>>::encoding(target_regs_per_interval->Ok_0.0);
            lemma_has_at_join(bytes, pos, to_registration_allowed, e_target_regs_per_interval);
            let to_target_regs_per_interval = to_registration_allowed + e_target_regs_per_interval;
            let e_min_burn = <Compact<u64>>::encoding(min_burn->Ok_0.0);
            lemma_has_at_join(bytes, pos, to_target_regs_per_interval, e_min_burn);
            let to_min_burn = to_target_regs_per_interval + e_min_burn;
            let e_max_burn = <Compact<u64>>::encoding(max_burn->Ok_0.0);
            lemma_has_at_join(bytes, pos, to_min_burn, e_max_burn);
            let to_max_burn = to_min_burn + e_max_burn;
            let e_bonds_moving_avg = <Compact<u64>>::encoding(bonds_moving_avg->Ok_0.0);
            lemma_has_at_join(bytes, pos, to_max_burn, e_bonds_moving_avg);
            let to_bonds_moving_avg = to_max_burn + e_bonds_moving_avg;
            let e_max_regs_per_block = <Compact<u16>>::encoding(max_regs_per_block->Ok_0.0);
            lemma_has_at_join(bytes, pos, to_bonds_moving_avg, e_max_regs_per_block);
            let to_max_regs_per_block = to_bonds_moving_avg + e_max_regs_per_block;
            let e_serving_rate_limit = <Compact<u64>>::encoding(serving_rate_limit->Ok_0.0);
            lemma_has_at_join(bytes, pos, to_max_regs_per_block, e_serving_rate_limit);
            let to_serving_rate_limit = to_max_regs_per_block + e_serving_rate_limit;
            let e_max_validators = <Compact<u16>>::encoding(max_validators->Ok_0.0);
            lemma_has_at_join(bytes, pos, to_serving_rate_limit, e_max_validators);
            let to_max_validators = to_serving_rate_limit + e_max_validators;
            let e_adjustment_alpha = <Compact<u64>>::encoding(adjustment_alpha->Ok_0.0);
            lemma_has_at_join(bytes, pos, to_max_validators, e_adjustment_alpha);
            let to_adjustment_alpha = to_max_validators + e_adjustment_alpha;
            let e_difficulty = <Compact<u64>>::encoding(difficulty->Ok_0.0);
            lemma_has_at_join(bytes, pos, to_adjustment_alpha, e_difficulty);
            let to_difficulty = to_adjustment_alpha + e_difficulty;
            let e_commit_reveal_weights_interval = <Compact<u64>>::encoding(commit_reveal_weights_interval->Ok_0.0);
            lemma_has_at_join(bytes, pos, to_difficulty, e_commit_reveal_weights_interval);
            let to_commit_reveal_weights_interval = to_difficulty + e_commit_reveal_weights_interval;
            let e_commit_reveal_weights_enabled = <bool>::encoding(commit_reveal_weights_enabled->Ok_0.0);
            lemma_has_at_join(bytes, pos, to_commit_reveal_weights_interval, e_commit_reveal_weights_enabled);
            let to_commit_reveal_weights_enabled = to_commit_reveal_weights_interval + e_commit_reveal_weights_enabled;
            let e_alpha_high = <Compact<u16>>::encoding(alpha_high->Ok_0.0);
            lemma_has_at_join(bytes, pos, to_commit_reveal_weights_enabled, e_alpha_high);
            let to_alpha_high = to_commit_reveal_weights_enabled + e_alpha_high;
            let e_alpha_low = <Compact<u16>>::encoding(alpha_low->Ok_0.0);
            lemma_has_at_join(bytes, pos, to_alpha_high, e_alpha_low);
            let to_alpha_low = to_alpha_high + e_alpha_low;
            let e_liquid_alpha_enabled = <bool>::encoding(liquid_alpha_enabled->Ok_0.0);
            lemma_has_at_join(bytes, pos, to_alpha_low, e_liquid_alpha_enabled);
        }
    }

    fn can_encode(&self) -> (yes: bool) {
        self.rho.can_encode()
            && self.kappa.can_encode()
            && self.immunity_period.can_encode()
            && self.min_allowed_weights.can_encode()
            && self.max_weights_limit.can_encode()
            && self.tempo.can_encode()
            && self.min_difficulty.can_encode()
            && self.max_difficulty.can_encode()
            && self.weights_version.can_encode()
            && self.weights_rate_limit.can_encode()
            && self.adjustment_interval.can_encode()
            && self.activity_cutoff.can_encode()
            && self.registration_allowed.can_encode()
            && self.target_regs_per_interval.can_encode()
            && self.min_burn.can_encode()
            && self.max_burn.can_encode()
            && self.bonds_moving_avg.can_encode()
            && self.max_regs_per_block.can_encode()
            && self.serving_rate_limit.can_encode()
            && self.max_validators.can_encode()
            && self.adjustment_alpha.can_encode()
            && self.difficulty.can_encode()
            && self.commit_reveal_weights_interval.can_encode()
            && self.commit_reveal_weights_enabled.can_encode()
            && self.alpha_high.can_encode()
            && self.alpha_low.can_encode()
            && self.liquid_alpha_enabled.can_encode()
    }

    fn encode_to(&self, out: &mut Vec<u8>) {
        let ghost m = self.model();
        let ghost start = out@;
        self.rho.encode_to(out);
        let ghost written = <Compact<u16>>::encoding(m.rho);
        self.kappa.encode_to(out);
        proof {
            lemma_concat_assoc(start, written, <Compact<u16>>::encoding(m.kappa));
        }
        let ghost written = written + <Compact<u16>>::encoding(m.kappa);
        self.immunity_period.encode_to(out);
        proof {
            lemma_concat_assoc(start, written, <Compact<u16>>::encoding(m.immunity_period));
        }
        let ghost written = written + <Compact<u16>>::encoding(m.immunity_period);
        self.min_allowed_weights.encode_to(out);
        proof {
            lemma_concat_assoc(start, written, <Compact<u16>>::encoding(m.min_allowed_weights));
        }
        let ghost written = written + <Compact<u16>>::encoding(m.min_allowed_weights);
        self.max_weights_limit.encode_to(out);
        proof {
            lemma_concat_assoc(start, written, <Compact<u16>>::encoding(m.max_weights_limit));
        }
        let ghost written = written + <Compact<u16>>::encoding(m.max_weights_limit);
        self.tempo.encode_to(out);
        proof {
            lemma_concat_assoc(start, written, <Compact<u16>>::encoding(m.tempo));
        }
        let ghost written = written + <Compact<u16>>::encoding(m.tempo);
        self.min_difficulty.encode_to(out);
        proof {
            lemma_concat_assoc(start, written, <Compact<u64>>::encoding(m.min_difficulty));
        }
        let ghost written = written + <Compact<u64>>::encoding(m.min_difficulty);
        self.max_difficulty.encode_to(out);
        proof {
            lemma_concat_assoc(start, written, <Compact<u64>>::encoding(m.max_difficulty));
        }
        let ghost written = written + <Compact<u64>>::encoding(m.max_difficulty);
        self.weights_version.encode_to(out);
        proof {
            lemma_concat_assoc(start, written, <Compact<u64>>::encoding(m.weights_version));
        }
        let ghost written = written + <Compact<u64>>::encoding(m.weights_version);
        self.weights_rate_limit.encode_to(out);
        proof {
            lemma_concat_assoc(start, written, <Compact<u64>>::encoding(m.weights_rate_limit));
        }
        let ghost written = written + <Compact<u64>>::encoding(m.weights_rate_limit);
        self.adjustment_interval.encode_to(out);
        proof {
            lemma_concat_assoc(start, written, <Compact<u16>>::encoding(m.adjustment_interval));
        }
        let ghost written = written + <Compact<u16>>::encoding(m.adjustment_interval);
        self.activity_cutoff.encode_to(out);
        proof {
            lemma_concat_assoc(start, written, <Compact<u16>>::encoding(m.activity_cutoff));
        }
        let ghost written = written + <Compact<u16>>::encoding(m.activity_cutoff);
        self.registration_allowed.encode_to(out);
        proof {
            lemma_concat_assoc(start, written, <bool>::encoding(m.registration_allowed));
        }
        let ghost written = written + <bool>::encoding(m.registration_allowed);
        self.target_regs_per_interval.encode_to(out);
        proof {
            lemma_concat_assoc(start, written, <Compact<u16>>::encoding(m.target_regs_per_interval));
        }
        let ghost written = written + <Compact<u16>>::encoding(m.target_regs_per_interval);
        self.min_burn.encode_to(out);
        proof {
            lemma_concat_assoc(start, written, <Compact<u64>>::encoding(m.min_burn));
        }
        let ghost written = written + <Compact<u64>>::encoding(m.min_burn);
        self.max_burn.encode_to(out);
        proof {
            lemma_concat_assoc(start, written, <Compact<u64>>::encoding(m.max_burn));
        }
        let ghost written = written + <Compact<u64>>::encoding(m.max_burn);
        self.bonds_moving_avg.encode_to(out);
        proof {
            lemma_concat_assoc(start, written, <Compact<u64>>::encoding(m.bonds_moving_avg));
        }
        let ghost written = written + <Compact<u64>>::encoding(m.bonds_moving_avg);
        self.max_regs_per_block.encode_to(out);
        proof {
            lemma_concat_assoc(start, written, <Compact<u16>>::encoding(m.max_regs_per_block));
        }
        let ghost written = written + <Compact<u16>>::encoding(m.max_regs_per_block);
        self.serving_rate_limit.encode_to(out);
        proof {
            lemma_concat_assoc(start, written, <Compact<u64>>::encoding(m.serving_rate_limit));
        }
        let ghost written = written + <Compact<u64>>::encoding(m.serving_rate_limit);
        self.max_validators.encode_to(out);
        proof {
            lemma_concat_assoc(start, written, <Compact<u16>>::encoding(m.max_validators));
        }
        let ghost written = written + <Compact<u16>>::encoding(m.max_validators);
        self.adjustment_alpha.encode_to(out);
        proof {
            lemma_concat_assoc(start, written, <Compact<u64>>::encoding(m.adjustment_alpha));
        }
        let ghost written = written + <Compact<u64>>::encoding(m.adjustment_alpha);
        self.difficulty.encode_to(out);
        proof {
            lemma_concat_assoc(start, written, <Compact<u64>>::encoding(m.difficulty));
        }
        let ghost written = written + <Compact<u64>>::encoding(m.difficulty);
        self.commit_reveal_weights_interval.encode_to(out);
        proof {
            lemma_concat_assoc(start, written, <Compact<u64>>::encoding(m.commit_reveal_weights_interval));
        }
        let ghost written = written + <Compact<u64>>::encoding(m.commit_reveal_weights_interval);
        self.commit_reveal_weights_enabled.encode_to(out);
        proof {
            lemma_concat_assoc(start, written, <bool>::encoding(m.commit_reveal_weights_enabled));
        }
        let ghost written = written + <bool>::encoding(m.commit_reveal_weights_enabled);
        self.alpha_high.encode_to(out);
        proof {
            lemma_concat_assoc(start, written, <Compact<u16>>::encoding(m.alpha_high));
        }
        let ghost written = written + <Compact<u16>>::encoding(m.alpha_high);
        self.alpha_low.encode_to(out);
        proof {
            lemma_concat_assoc(start, written, <Compact<u16>>::encoding(m.alpha_low));
        }
        let ghost written = written + <Compact<u16>>::encoding(m.alpha_low);
        self.liquid_alpha_enabled.encode_to(out);
        proof {
            lemma_concat_assoc(start, written, <bool>::encoding(m.liquid_alpha_enabled));
        }
    }

    fn decode_at(bytes: &[u8], pos: usize) -> (r: Result<(SubnetHyperparams, usize), CodecError>) {
        let (rho, at) = <Compact<u16>>::decode_at(bytes, pos)?;
        let (kappa, at) = <Compact<u16>>::decode_at(bytes, at)?;
        let (immunity_period, at) = <Compact<u16>>::decode_at(bytes, at)?;
        let (min_allowed_weights, at) = <Compact<u16>>::decode_at(bytes, at)?;
        let (max_weights_limit, at) = <Compact<u16>>::decode_at(bytes, at)?;
        let (tempo, at) = <Compact<u16>>::decode_at(bytes, at)?;
        let (min_difficulty, at) = <Compact<u64>>::decode_at(bytes, at)?;
        let (max_difficulty, at) = <Compact<u64>>::decode_at(bytes, at)?;
        let (weights_version, at) = <Compact<u64>>::decode_at(bytes, at)?;
        let (weights_rate_limit, at) = <Compact<u64>>::decode_at(bytes, at)?;
        let (adjustment_interval, at) = <Compact<u16>>::decode_at(bytes, at)?;
        let (activity_cutoff, at) = <Compact<u16>>::decode_at(bytes, at)?;
        let (registration_allowed, at) = <bool>::decode_at(bytes, at)?;
        let (target_regs_per_interval, at) = <Compact<u16>>::decode_at(bytes, at)?;
        let (min_burn, at) = <Compact<u64>>::decode_at(bytes, at)?;
        let (max_burn, at) = <Compact<u64>>::decode_at(bytes, at)?;
        let (bonds_moving_avg, at) = <Compact<u64>>::decode_at(bytes, at)?;
        let (max_regs_per_block, at) = <Compact<u16>>::decode_at(bytes, at)?;
        let (serving_rate_limit, at) = <Compact<u64>>::decode_at(bytes, at)?;
        let (max_validators, at) = <Compact<u16>>::decode_at(bytes, at)?;
        let (adjustment_alpha, at) = <Compact<u64>>::decode_at(bytes, at)?;
        let (difficulty, at) = <Compact<u64>>::decode_at(bytes, at)?;
        let (commit_reveal_weights_interval, at) = <Compact<u64>>::decode_at(bytes, at)?;
        let (commit_reveal_weights_enabled, at) = <bool>::decode_at(bytes, at)?;
        let (alpha_high, at) = <Compact<u16>>::decode_at(bytes, at)?;
        let (alpha_low, at) = <Compact<u16>>::decode_at(bytes, at)?;
        let (liquid_alpha_enabled, at) = <bool>::decode_at(bytes, at)?;
        Ok(
            (
                SubnetHyperparams {
                    rho,
                    kappa,
                    immunity_period,
                    min_allowed_weights,
                    max_weights_limit,
                    tempo,
                    min_difficulty,
                    max_difficulty,
                    weights_version,
                    weights_rate_limit,
                    adjustment_interval,
                    activity_cutoff,
                    registration_allowed,
                    target_regs_per_interval,
                    min_burn,
                    max_burn,
                    bonds_moving_avg,
                    max_regs_per_block,
                    serving_rate_limit,
                    max_validators,
                    adjustment_alpha,
                    difficulty,
                    commit_reveal_weights_interval,
                    commit_reveal_weights_enabled,
                    alpha_high,
                    alpha_low,
                    liquid_alpha_enabled,
                },
                at,
            ),
        )
    }
}

/// Whether a full and a light neuron record agree on every field that both
/// have up to the point where the full record goes on to weights and bonds.
pub open spec fn same_neuron_head(full: NeuronInfoModel, lite: NeuronInfoLiteModel) -> bool {
    &&& full.hotkey == lite.hotkey
    &&& full.coldkey == lite.coldkey
    &&& full.uid == lite.uid
    &&& full.netuid == lite.netuid
    &&& full.active == lite.active
    &&& full.axon_info == lite.axon_info
    &&& full.prometheus_info == lite.prometheus_info
    &&& full.stake == lite.stake
    &&& full.rank == lite.rank
    &&& full.emission == lite.emission
    &&& full.incentive == lite.incentive
    &&& full.consensus == lite.consensus
    &&& full.trust == lite.trust
    &&& full.validator_trust == lite.validator_trust
    &&& full.dividends == lite.dividends
    &&& full.last_update == lite.last_update
    &&& full.validator_permit == lite.validator_permit
}

/// The full and the light neuron record start alike: read from the same
/// bytes, they agree on all the fields that come before weights and bonds.
pub proof fn lemma_neuron_records_share_head(bytes: Seq<u8>, pos: int)
    ensures
        NeuronInfo::parse(bytes, pos) matches Ok((full, _)) ==> (NeuronInfoLite::parse(
            bytes,
            pos,
        ) matches Ok((lite, _)) ==> same_neuron_head(full, lite)),
{
}

/// Read as a light record, the encoding of a full one gives the full
/// record's leading fields, if it gives anything: the light reader takes
/// what stands where the weights begin for its pruning score and goes no
/// further.
pub proof fn lemma_lite_reads_head_of_full(full: NeuronInfoModel, rest: Seq<u8>)
    requires
        NeuronInfo::encodable(full),
    ensures
        NeuronInfoLite::parse(NeuronInfo::encoding(full) + rest, 0) matches Ok((lite, _))
            ==> same_neuron_head(full, lite),
{
    let bytes = NeuronInfo::encoding(full) + rest;
    lemma_has_at_prefix(NeuronInfo::encoding(full), rest);
    NeuronInfo::lemma_round_trip(full, bytes, 0);
    lemma_neuron_records_share_head(bytes, 0);
}

/// A light record is read from its own bytes alone: whatever follows them,
/// weights and bonds or anything else, changes nothing.
pub proof fn lemma_lite_ignores_what_follows(lite: NeuronInfoLiteModel, rest: Seq<u8>)
    requires
        NeuronInfoLite::encodable(lite),
    ensures
        NeuronInfoLite::parse(NeuronInfoLite::encoding(lite) + rest, 0) == Ok::<
            (NeuronInfoLiteModel, int),
            CodecError,
        >((lite, NeuronInfoLite::encoding(lite).len() as int)),
{
    lemma_has_at_prefix(NeuronInfoLite::encoding(lite), rest);
    NeuronInfoLite::lemma_round_trip(lite, NeuronInfoLite::encoding(lite) + rest, 0);
}


} // verus!
