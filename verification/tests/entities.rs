use parity_scale_codec::Encode;
use subtensor_client::codec::compact::Compact;
use subtensor_client::codec::{decode, encode, CodecError, Wire};
use subtensor_client::rpc::types::{
    AxonInfo, DelegateInfo, NeuronInfo, NeuronInfoLite, PrometheusInfo, StakeInfo,
    SubnetHyperparams, SubnetIdentity, SubnetInfo, SubnetInfov2,
};
use subtensor_client::AccountId;

fn account(tag: u8) -> AccountId {
    let mut bytes = [0u8; 32];
    for (i, byte) in bytes.iter_mut().enumerate() {
        *byte = tag.wrapping_add(i as u8);
    }
    AccountId(bytes)
}

fn c16(x: u16) -> parity_scale_codec::Compact<u16> {
    parity_scale_codec::Compact(x)
}

fn c64(x: u64) -> parity_scale_codec::Compact<u64> {
    parity_scale_codec::Compact(x)
}

fn sample_axon() -> AxonInfo {
    AxonInfo {
        block: 1_000_000,
        version: 7,
        ip: 0x7f00_0001,
        port: 8091,
        ip_type: 4,
        protocol: 4,
        placeholder1: 0,
        placeholder2: 0,
    }
}

fn sample_prometheus() -> PrometheusInfo {
    PrometheusInfo { block: 2_000_000, version: 1, ip: u128::MAX - 5, port: 9090, ip_type: 6 }
}

fn sample_neuron() -> NeuronInfo {
    NeuronInfo {
        hotkey: account(1),
        coldkey: account(2),
        uid: Compact(5),
        netuid: Compact(300),
        active: true,
        axon_info: sample_axon(),
        prometheus_info: sample_prometheus(),
        stake: vec![(account(3), Compact(1u64 << 40)), (account(3), Compact(17))],
        rank: Compact(1),
        emission: Compact(1_000_000_000),
        incentive: Compact(65535),
        consensus: Compact(16384),
        trust: Compact(0),
        validator_trust: Compact(63),
        dividends: Compact(64),
        last_update: Compact(u64::MAX),
        validator_permit: false,
        weights: vec![(Compact(5), Compact(100)), (Compact(2), Compact(50))],
        bonds: vec![(Compact(9), Compact(65535))],
        pruning_score: Compact(12345),
    }
}

fn lite_of(full: &NeuronInfo) -> NeuronInfoLite {
    NeuronInfoLite {
        hotkey: full.hotkey,
        coldkey: full.coldkey,
        uid: full.uid,
        netuid: full.netuid,
        active: full.active,
        axon_info: full.axon_info,
        prometheus_info: full.prometheus_info,
        stake: full.stake.clone(),
        rank: full.rank,
        emission: full.emission,
        incentive: full.incentive,
        consensus: full.consensus,
        trust: full.trust,
        validator_trust: full.validator_trust,
        dividends: full.dividends,
        last_update: full.last_update,
        validator_permit: full.validator_permit,
        pruning_score: full.pruning_score,
    }
}

fn reference_axon(a: &AxonInfo) -> Vec<u8> {
    (a.block, a.version, a.ip, a.port, a.ip_type, a.protocol, a.placeholder1, a.placeholder2)
        .encode()
}

fn reference_prometheus(p: &PrometheusInfo) -> Vec<u8> {
    (p.block, p.version, p.ip, p.port, p.ip_type).encode()
}

fn reference_stakes(stake: &[(AccountId, Compact<u64>)]) -> Vec<u8> {
    let listed: Vec<([u8; 32], parity_scale_codec::Compact<u64>)> =
        stake.iter().map(|(who, amount)| (who.0, c64(amount.0))).collect();
    listed.encode()
}

fn reference_pairs(pairs: &[(Compact<u16>, Compact<u16>)]) -> Vec<u8> {
    let listed: Vec<(parity_scale_codec::Compact<u16>, parity_scale_codec::Compact<u16>)> =
        pairs.iter().map(|(a, b)| (c16(a.0), c16(b.0))).collect();
    listed.encode()
}

fn reference_neuron_head(n: &NeuronInfo) -> Vec<u8> {
    let mut bytes = (n.hotkey.0, n.coldkey.0, c16(n.uid.0), c16(n.netuid.0), n.active).encode();
    bytes.extend(reference_axon(&n.axon_info));
    bytes.extend(reference_prometheus(&n.prometheus_info));
    bytes.extend(reference_stakes(&n.stake));
    bytes.extend(
        (
            c16(n.rank.0),
            c64(n.emission.0),
            c16(n.incentive.0),
            c16(n.consensus.0),
            c16(n.trust.0),
            c16(n.validator_trust.0),
            c16(n.dividends.0),
            c64(n.last_update.0),
            n.validator_permit,
        )
            .encode(),
    );
    bytes
}

fn reference_neuron(n: &NeuronInfo) -> Vec<u8> {
    let mut bytes = reference_neuron_head(n);
    bytes.extend(reference_pairs(&n.weights));
    bytes.extend(reference_pairs(&n.bonds));
    bytes.extend(c16(n.pruning_score.0).encode());
    bytes
}

fn sample_subnet() -> SubnetInfo {
    SubnetInfo {
        netuid: Compact(1),
        rho: Compact(10),
        kappa: Compact(32767),
        difficulty: Compact(10_000_000),
        immunity_period: Compact(7200),
        max_allowed_validators: Compact(64),
        min_allowed_weights: Compact(8),
        max_weights_limit: Compact(455),
        scaling_law_power: Compact(50),
        subnetwork_n: Compact(256),
        max_allowed_uids: Compact(4096),
        blocks_since_last_step: Compact(77),
        tempo: Compact(99),
        network_modality: Compact(0),
        network_connect: vec![[1, 2], [3, 65535]],
        emission_values: Compact(1u64 << 33),
        burn: Compact(1_000_000_000),
        owner: account(9),
    }
}

fn reference_subnet(s: &SubnetInfo) -> Vec<u8> {
    let mut bytes = (
        c16(s.netuid.0),
        c16(s.rho.0),
        c16(s.kappa.0),
        c64(s.difficulty.0),
        c16(s.immunity_period.0),
        c16(s.max_allowed_validators.0),
        c16(s.min_allowed_weights.0),
        c16(s.max_weights_limit.0),
        c16(s.scaling_law_power.0),
        c16(s.subnetwork_n.0),
        c16(s.max_allowed_uids.0),
        c64(s.blocks_since_last_step.0),
        c16(s.tempo.0),
        c16(s.network_modality.0),
    )
        .encode();
    bytes.extend(s.network_connect.encode());
    bytes.extend((c64(s.emission_values.0), c64(s.burn.0), s.owner.0).encode());
    bytes
}

fn v2_of(s: &SubnetInfo, identity: Option<SubnetIdentity>) -> SubnetInfov2 {
    SubnetInfov2 {
        netuid: s.netuid,
        rho: s.rho,
        kappa: s.kappa,
        difficulty: s.difficulty,
        immunity_period: s.immunity_period,
        max_allowed_validators: s.max_allowed_validators,
        min_allowed_weights: s.min_allowed_weights,
        max_weights_limit: s.max_weights_limit,
        scaling_law_power: s.scaling_law_power,
        subnetwork_n: s.subnetwork_n,
        max_allowed_uids: s.max_allowed_uids,
        blocks_since_last_step: s.blocks_since_last_step,
        tempo: s.tempo,
        network_modality: s.network_modality,
        network_connect: s.network_connect.clone(),
        emission_values: s.emission_values,
        burn: s.burn,
        owner: s.owner,
        identity,
    }
}

fn sample_hyperparams() -> SubnetHyperparams {
    SubnetHyperparams {
        rho: Compact(10),
        kappa: Compact(32767),
        immunity_period: Compact(4096),
        min_allowed_weights: Compact(0),
        max_weights_limit: Compact(65535),
        tempo: Compact(360),
        min_difficulty: Compact(10_000_000),
        max_difficulty: Compact(u64::MAX / 4),
        weights_version: Compact(2013),
        weights_rate_limit: Compact(100),
        adjustment_interval: Compact(112),
        activity_cutoff: Compact(5000),
        registration_allowed: true,
        target_regs_per_interval: Compact(2),
        min_burn: Compact(1_000_000_000),
        max_burn: Compact(100_000_000_000),
        bonds_moving_avg: Compact(900_000),
        max_regs_per_block: Compact(1),
        serving_rate_limit: Compact(50),
        max_validators: Compact(64),
        adjustment_alpha: Compact(17_893_341_751_498_265_066),
        difficulty: Compact(10_000_000),
        commit_reveal_weights_interval: Compact(1000),
        commit_reveal_weights_enabled: false,
        alpha_high: Compact(58982),
        alpha_low: Compact(45875),
        liquid_alpha_enabled: true,
    }
}

fn reference_hyperparams(h: &SubnetHyperparams) -> Vec<u8> {
    let mut bytes = (
        c16(h.rho.0),
        c16(h.kappa.0),
        c16(h.immunity_period.0),
        c16(h.min_allowed_weights.0),
        c16(h.max_weights_limit.0),
        c16(h.tempo.0),
        c64(h.min_difficulty.0),
        c64(h.max_difficulty.0),
        c64(h.weights_version.0),
        c64(h.weights_rate_limit.0),
        c16(h.adjustment_interval.0),
        c16(h.activity_cutoff.0),
        h.registration_allowed,
        c16(h.target_regs_per_interval.0),
    )
        .encode();
    bytes.extend(
        (
            c64(h.min_burn.0),
            c64(h.max_burn.0),
            c64(h.bonds_moving_avg.0),
            c16(h.max_regs_per_block.0),
            c64(h.serving_rate_limit.0),
            c16(h.max_validators.0),
            c64(h.adjustment_alpha.0),
            c64(h.difficulty.0),
            c64(h.commit_reveal_weights_interval.0),
            h.commit_reveal_weights_enabled,
            c16(h.alpha_high.0),
            c16(h.alpha_low.0),
            h.liquid_alpha_enabled,
        )
            .encode(),
    );
    bytes
}

fn sample_delegate() -> DelegateInfo {
    DelegateInfo {
        delegate_ss58: account(20),
        take: Compact(11796),
        nominators: vec![(account(21), Compact(5)), (account(22), Compact(1u64 << 50))],
        owner_ss58: account(23),
        registrations: vec![Compact(1), Compact(300), Compact(65535)],
        validator_permits: vec![],
        return_per_1000: Compact(123_456),
        total_daily_return: Compact(0),
    }
}

fn reference_delegate(d: &DelegateInfo) -> Vec<u8> {
    let mut bytes = (d.delegate_ss58.0, c16(d.take.0)).encode();
    bytes.extend(reference_stakes(&d.nominators));
    bytes.extend(d.owner_ss58.0.encode());
    let registrations: Vec<parity_scale_codec::Compact<u16>> =
        d.registrations.iter().map(|n| c16(n.0)).collect();
    let permits: Vec<parity_scale_codec::Compact<u16>> =
        d.validator_permits.iter().map(|n| c16(n.0)).collect();
    bytes.extend(registrations.encode());
    bytes.extend(permits.encode());
    bytes.extend((c64(d.return_per_1000.0), c64(d.total_daily_return.0)).encode());
    bytes
}

#[test]
fn account_id_is_its_bytes() {
    let id = account(7);
    assert_eq!(encode(&id), id.0.to_vec());
    assert_eq!(decode::<AccountId>(&id.0), Ok(id));
    assert_eq!(decode::<AccountId>(&id.0[..31]), Err(CodecError::Truncated));
}

#[test]
fn axon_info_wire_format() {
    let axon = sample_axon();
    let bytes = encode(&axon);
    assert_eq!(bytes.len(), 8 + 4 + 16 + 2 + 4);
    assert_eq!(bytes, reference_axon(&axon));
    assert_eq!(decode::<AxonInfo>(&bytes), Ok(axon));
    assert_eq!(decode::<AxonInfo>(&bytes[..33]), Err(CodecError::Truncated));
}

#[test]
fn prometheus_info_wire_format() {
    let prometheus = sample_prometheus();
    let bytes = encode(&prometheus);
    assert_eq!(bytes, reference_prometheus(&prometheus));
    assert_eq!(decode::<PrometheusInfo>(&bytes), Ok(prometheus));
}

#[test]
fn stake_info_wire_format() {
    let stake = StakeInfo { hotkey: account(1), coldkey: account(2), stake: Compact(1u64 << 35) };
    let bytes = encode(&stake);
    assert_eq!(bytes, (stake.hotkey.0, stake.coldkey.0, c64(stake.stake.0)).encode());
    assert_eq!(decode::<StakeInfo>(&bytes), Ok(stake));
}

#[test]
fn neuron_info_round_trip() {
    let neuron = sample_neuron();
    let bytes = encode(&neuron);
    assert_eq!(bytes, reference_neuron(&neuron));
    assert_eq!(decode::<NeuronInfo>(&bytes), Ok(neuron));
}

#[test]
fn neuron_info_lite_round_trip() {
    let lite = lite_of(&sample_neuron());
    let bytes = encode(&lite);
    let mut reference = reference_neuron_head(&sample_neuron());
    reference.extend(c16(lite.pruning_score.0).encode());
    assert_eq!(bytes, reference);
    assert_eq!(decode::<NeuronInfoLite>(&bytes), Ok(lite));
}

#[test]
fn neuron_stake_keeps_order_and_duplicates() {
    let neuron = sample_neuron();
    let decoded = decode::<NeuronInfo>(&encode(&neuron)).unwrap();
    assert_eq!(decoded.stake.len(), 2);
    assert_eq!(decoded.stake[0], (account(3), Compact(1u64 << 40)));
    assert_eq!(decoded.stake[1], (account(3), Compact(17)));
}

#[test]
fn full_and_lite_share_their_leading_fields() {
    let neuron = sample_neuron();
    let bytes = encode(&neuron);
    let full = decode::<NeuronInfo>(&bytes).unwrap();
    // Read as a light record, the bytes give the same leading fields; the
    // pruning score is then taken from where the weights begin.
    let (lite, end) = NeuronInfoLite::decode_at(&bytes, 0).unwrap();
    let mut expected = lite_of(&full);
    expected.pruning_score = Compact(2);
    assert_eq!(lite, expected);
    assert_eq!(end, reference_neuron_head(&neuron).len() + 1);
}

#[test]
fn lite_never_reads_past_its_own_fields() {
    let lite = lite_of(&sample_neuron());
    let bytes = encode(&lite);
    let mut followed = bytes.clone();
    followed.extend([0xff; 40]);
    assert_eq!(NeuronInfoLite::decode_at(&followed, 0), Ok((lite.clone(), bytes.len())));
    // The same bytes are no full record: it takes the score for the number
    // of weights and finds none, or none that a 16-bit field can hold.
    assert_eq!(decode::<NeuronInfo>(&bytes), Err(CodecError::Truncated));
    assert_eq!(decode::<NeuronInfo>(&followed), Err(CodecError::InvalidPrefix));
}

#[test]
fn delegate_info_round_trip() {
    let delegate = sample_delegate();
    let bytes = encode(&delegate);
    assert_eq!(bytes, reference_delegate(&delegate));
    assert_eq!(decode::<DelegateInfo>(&bytes), Ok(delegate));
}

#[test]
fn subnet_info_round_trip() {
    let subnet = sample_subnet();
    let bytes = encode(&subnet);
    assert_eq!(bytes, reference_subnet(&subnet));
    assert_eq!(decode::<SubnetInfo>(&bytes), Ok(subnet));
}

#[test]
fn subnet_identity_round_trip() {
    let identity = SubnetIdentity {
        subnet_name: b"alpha".to_vec(),
        github_repo: b"https://example.org/alpha".to_vec(),
        subnet_contact: vec![],
    };
    let bytes = encode(&identity);
    let reference = (
        identity.subnet_name.clone(),
        identity.github_repo.clone(),
        identity.subnet_contact.clone(),
    )
        .encode();
    assert_eq!(bytes, reference);
    assert_eq!(decode::<SubnetIdentity>(&bytes), Ok(identity));
    assert_eq!(encode(&SubnetIdentity::default()), vec![0, 0, 0]);
}

#[test]
fn subnet_info_v2_with_and_without_identity() {
    let subnet = sample_subnet();
    let without = v2_of(&subnet, None);
    let mut reference = reference_subnet(&subnet);
    reference.push(0);
    assert_eq!(encode(&without), reference);
    assert_eq!(decode::<SubnetInfov2>(&reference), Ok(without));

    let identity = SubnetIdentity {
        subnet_name: b"n".to_vec(),
        github_repo: b"r".to_vec(),
        subnet_contact: b"c".to_vec(),
    };
    let with = v2_of(&subnet, Some(identity));
    let mut reference = reference_subnet(&subnet);
    reference.extend([1, 4, b'n', 4, b'r', 4, b'c']);
    assert_eq!(encode(&with), reference);
    assert_eq!(decode::<SubnetInfov2>(&reference), Ok(with));
}

#[test]
fn subnet_info_v2_bad_presence_flag() {
    let mut bytes = reference_subnet(&sample_subnet());
    bytes.push(2);
    assert_eq!(decode::<SubnetInfov2>(&bytes), Err(CodecError::InvalidPrefix));
    bytes.pop();
    assert_eq!(decode::<SubnetInfov2>(&bytes), Err(CodecError::Truncated));
}

#[test]
fn subnet_hyperparams_round_trip() {
    let params = sample_hyperparams();
    let bytes = encode(&params);
    assert_eq!(bytes, reference_hyperparams(&params));
    assert_eq!(decode::<SubnetHyperparams>(&bytes), Ok(params));
}

#[test]
fn every_prefix_of_a_record_is_truncated() {
    let bytes = encode(&sample_hyperparams());
    for len in 0..bytes.len() {
        assert_eq!(
            decode::<SubnetHyperparams>(&bytes[..len]),
            Err(CodecError::Truncated),
            "prefix of {} bytes",
            len
        );
    }
    let bytes = encode(&sample_neuron());
    for len in 0..bytes.len() {
        assert_eq!(decode::<NeuronInfo>(&bytes[..len]), Err(CodecError::Truncated));
    }
}

#[test]
fn first_failing_field_decides_the_error() {
    let mut bytes = encode(&sample_hyperparams());
    // `rho` in the long form, which a 16-bit field does not have.
    bytes[0] = 0x03;
    assert_eq!(decode::<SubnetHyperparams>(&bytes), Err(CodecError::InvalidPrefix));
    // `active` of a neuron as 2.
    let mut bytes = encode(&sample_neuron());
    let at_active = 32 + 32 + 1 + 2;
    assert_eq!(bytes[at_active], 1);
    bytes[at_active] = 2;
    assert_eq!(decode::<NeuronInfo>(&bytes), Err(CodecError::OutOfRange));
}

#[test]
fn encoding_is_stable() {
    let neuron = sample_neuron();
    assert_eq!(encode(&neuron), encode(&neuron.clone()));
    let mut out = vec![0xee];
    neuron.encode_to(&mut out);
    assert_eq!(out[0], 0xee);
    assert_eq!(&out[1..], &encode(&neuron)[..]);
}

#[test]
fn sequences_of_records() {
    let neurons = vec![sample_neuron(), sample_neuron()];
    let bytes = encode(&neurons);
    let mut reference = vec![0x08];
    reference.extend(reference_neuron(&neurons[0]));
    reference.extend(reference_neuron(&neurons[1]));
    assert_eq!(bytes, reference);
    assert_eq!(decode::<Vec<NeuronInfo>>(&bytes), Ok(neurons));
}

#[test]
fn records_decode_at_any_position() {
    let stake = StakeInfo { hotkey: account(4), coldkey: account(5), stake: Compact(77) };
    let mut bytes = vec![0xaa, 0xbb, 0xcc];
    stake.encode_to(&mut bytes);
    bytes.push(0xdd);
    assert_eq!(StakeInfo::decode_at(&bytes, 3), Ok((stake, bytes.len() - 1)));
    assert_eq!(StakeInfo::decode_at(&bytes, bytes.len() + 5), Err(CodecError::Truncated));
    assert_eq!(AccountId::decode_at(&bytes, bytes.len() + 5), Err(CodecError::Truncated));
}
