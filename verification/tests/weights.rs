use parity_scale_codec::Encode;
use subtensor_client::codec::{decode, encode};
use subtensor_client::weights::{
    normalize_weights, set_weights_payload, NormalizedWeight, SetWeights, FULL_WEIGHT,
    SET_WEIGHTS_CALL,
};

#[test]
fn normalize_one_two_four() {
    assert_eq!(normalize_weights(&[1, 2, 4]), Some(vec![16383, 32767, 65535]));
}

#[test]
fn normalize_nothing() {
    assert_eq!(normalize_weights(&[]), None);
}

#[test]
fn normalize_all_zero() {
    assert_eq!(normalize_weights(&[0, 0]), None);
    assert_eq!(normalize_weights(&[0]), None);
}

#[test]
fn normalize_single_weight() {
    assert_eq!(normalize_weights(&[1]), Some(vec![65535]));
    assert_eq!(normalize_weights(&[u64::MAX]), Some(vec![65535]));
}

#[test]
fn normalize_truncates_toward_zero() {
    // 65535 / 3 = 21845 exactly; 2 * 65535 / 3 = 43690 exactly.
    assert_eq!(normalize_weights(&[1, 2, 3]), Some(vec![21845, 43690, 65535]));
    // 65535 / 7 = 9362.14..; 65535 * 6 / 7 = 56172.85..
    assert_eq!(normalize_weights(&[1, 6, 7]), Some(vec![9362, 56172, 65535]));
    assert_eq!(normalize_weights(&[1, 65536]), Some(vec![0, 65535]));
}

#[test]
fn normalize_zero_among_others() {
    assert_eq!(normalize_weights(&[0, 5, 0, 10]), Some(vec![0, 32767, 0, 65535]));
}

#[test]
fn normalize_maximum_maps_to_full_weight() {
    let inputs: [&[u64]; 5] =
        [&[3, 9, 9, 1], &[u64::MAX, 1], &[7], &[1, 1, 1], &[u64::MAX - 1, u64::MAX, 0]];
    for weights in inputs {
        let max = *weights.iter().max().unwrap();
        let fractions = normalize_weights(weights).unwrap();
        assert_eq!(fractions.len(), weights.len());
        for (weight, fraction) in weights.iter().zip(fractions.iter()) {
            if *weight == max {
                assert_eq!(*fraction, FULL_WEIGHT);
            }
            assert_eq!(*fraction as u128, (*weight as u128 * 65535) / max as u128);
        }
    }
}

#[test]
fn normalize_large_weights_do_not_overflow() {
    assert_eq!(
        normalize_weights(&[u64::MAX / 2, u64::MAX, u64::MAX / 4]),
        Some(vec![32767, 65535, 16383])
    );
}

#[test]
fn normalize_keeps_order() {
    assert_eq!(normalize_weights(&[4, 1, 2]), Some(vec![65535, 16383, 32767]));
}

#[test]
fn set_weights_payload_pairing() {
    let weights =
        vec![NormalizedWeight { uid: 5, weight: 100 }, NormalizedWeight { uid: 2, weight: 50 }];
    let call = set_weights_payload(7, weights, 99);
    assert_eq!(call.uids, vec![5, 2]);
    assert_eq!(call.weight_values, vec![100, 50]);
    assert_eq!(call.netuid, 7);
    assert_eq!(call.version_key, 99);
    assert_eq!(SET_WEIGHTS_CALL, "set_weights");
}

#[test]
fn set_weights_payload_empty() {
    let call = set_weights_payload(1, vec![], 0);
    assert_eq!(call, SetWeights { netuid: 1, uids: vec![], weight_values: vec![], version_key: 0 });
}

#[test]
fn set_weights_payload_keeps_duplicates() {
    let weights = vec![
        NormalizedWeight { uid: 9, weight: 1 },
        NormalizedWeight { uid: 9, weight: 2 },
        NormalizedWeight { uid: 0, weight: 65535 },
    ];
    let call = set_weights_payload(0, weights, 1);
    assert_eq!(call.uids, vec![9, 9, 0]);
    assert_eq!(call.weight_values, vec![1, 2, 65535]);
}

#[test]
fn set_weights_arguments_on_the_wire() {
    let weights =
        vec![NormalizedWeight { uid: 5, weight: 100 }, NormalizedWeight { uid: 2, weight: 50 }];
    let call = set_weights_payload(7, weights, 0x0102);
    let bytes = encode(&call);
    assert_eq!(bytes, (7u16, vec![5u16, 2u16], vec![100u16, 50u16], 0x0102u64).encode());
    assert_eq!(
        bytes,
        vec![7, 0, 0x08, 5, 0, 2, 0, 0x08, 100, 0, 50, 0, 0x02, 0x01, 0, 0, 0, 0, 0, 0]
    );
    assert_eq!(decode::<SetWeights>(&bytes), Ok(call));
}

#[test]
fn normalized_weights_feed_the_payload() {
    let uids = [3u16, 1, 2];
    let fractions = normalize_weights(&[10, 20, 5]).unwrap();
    let weights: Vec<NormalizedWeight> = uids
        .iter()
        .zip(fractions.iter())
        .map(|(uid, weight)| NormalizedWeight { uid: *uid, weight: *weight })
        .collect();
    let call = set_weights_payload(4, weights, 0);
    assert_eq!(call.uids, vec![3, 1, 2]);
    assert_eq!(call.weight_values, vec![32767, 65535, 16383]);
}
