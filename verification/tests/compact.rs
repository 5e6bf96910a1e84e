use parity_scale_codec::{Decode, Encode};
use subtensor_client::codec::compact::Compact;
use subtensor_client::codec::{decode, encode, try_encode, CodecError, Wire};

fn reference_u64(x: u64) -> Vec<u8> {
    parity_scale_codec::Compact(x).encode()
}

#[test]
fn compact_single_byte_form() {
    assert_eq!(encode(&Compact(0u64)), vec![0x00]);
    assert_eq!(encode(&Compact(1u64)), vec![0x04]);
    assert_eq!(encode(&Compact(42u64)), vec![0xa8]);
    assert_eq!(encode(&Compact(63u64)), vec![0xfc]);
}

#[test]
fn compact_two_byte_form() {
    assert_eq!(encode(&Compact(64u64)), vec![0x01, 0x01]);
    assert_eq!(encode(&Compact(69u64)), vec![0x15, 0x01]);
    assert_eq!(encode(&Compact(16383u64)), vec![0xfd, 0xff]);
}

#[test]
fn compact_four_byte_form() {
    assert_eq!(encode(&Compact(16384u64)), vec![0x02, 0x00, 0x01, 0x00]);
    assert_eq!(encode(&Compact(65535u64)), vec![0xfe, 0xff, 0x03, 0x00]);
    assert_eq!(encode(&Compact((1u64 << 30) - 1)), vec![0xfe, 0xff, 0xff, 0xff]);
}

#[test]
fn compact_long_form() {
    assert_eq!(encode(&Compact(1u64 << 30)), vec![0x03, 0x00, 0x00, 0x00, 0x40]);
    assert_eq!(encode(&Compact(u32::MAX as u64)), vec![0x03, 0xff, 0xff, 0xff, 0xff]);
    assert_eq!(encode(&Compact(1u64 << 32)), vec![0x07, 0x00, 0x00, 0x00, 0x00, 0x01]);
    assert_eq!(
        encode(&Compact(u64::MAX)),
        vec![0x13, 0xff, 0xff, 0xff, 0xff, 0xff, 0xff, 0xff, 0xff]
    );
}

#[test]
fn compact_matches_reference_encoder() {
    let mut samples: Vec<u64> = vec![0, 1, 63, 64, 255, 256, 16383, 16384, 65535, 65536];
    for shift in 0..64u32 {
        let power = 1u64 << shift;
        samples.push(power - 1);
        samples.push(power);
        samples.push(power + 1);
    }
    samples.push(u64::MAX);
    for x in samples {
        assert_eq!(encode(&Compact(x)), reference_u64(x), "value {}", x);
    }
}

#[test]
fn compact_narrow_targets_match_reference_encoder() {
    for x in [0u16, 63, 64, 16383, 16384, 40000, u16::MAX] {
        assert_eq!(encode(&Compact(x)), parity_scale_codec::Compact(x).encode());
    }
    for x in [0u32, 63, 64, 16383, 16384, (1 << 30) - 1, 1 << 30, u32::MAX] {
        assert_eq!(encode(&Compact(x)), parity_scale_codec::Compact(x).encode());
    }
    for x in [0u128, 1 << 30, u64::MAX as u128, (u64::MAX as u128) + 1, u128::MAX] {
        assert_eq!(encode(&Compact(x)), parity_scale_codec::Compact(x).encode());
    }
}

#[test]
fn compact_round_trip_at_every_width() {
    for shift in 0..64u32 {
        for x in [(1u64 << shift) - 1, 1u64 << shift, (1u64 << shift) + 1] {
            let bytes = encode(&Compact(x));
            assert_eq!(decode::<Compact<u64>>(&bytes), Ok(Compact(x)));
        }
    }
    assert_eq!(decode::<Compact<u64>>(&encode(&Compact(u64::MAX))), Ok(Compact(u64::MAX)));
    for x in 0..=u16::MAX {
        let bytes = encode(&Compact(x));
        assert_eq!(decode::<Compact<u16>>(&bytes), Ok(Compact(x)));
    }
}

#[test]
fn compact_length_is_minimal() {
    let widths: [(u64, usize); 12] = [
        (0, 1),
        (63, 1),
        (64, 2),
        (16383, 2),
        (16384, 4),
        ((1 << 30) - 1, 4),
        (1 << 30, 5),
        (u32::MAX as u64, 5),
        (1 << 32, 6),
        ((1 << 40) - 1, 6),
        (1 << 56, 9),
        (u64::MAX, 9),
    ];
    for (x, len) in widths {
        assert_eq!(encode(&Compact(x)).len(), len, "value {}", x);
    }
}

#[test]
fn compact_decode_reports_position() {
    let bytes = [0xaa, 0x15, 0x01, 0xbb];
    assert_eq!(Compact::<u64>::decode_at(&bytes, 1), Ok((Compact(69u64), 3)));
}

#[test]
fn compact_decode_ignores_trailing_bytes() {
    assert_eq!(decode::<Compact<u64>>(&[0x04, 0xff, 0xff]), Ok(Compact(1u64)));
}

#[test]
fn compact_truncated() {
    assert_eq!(decode::<Compact<u64>>(&[]), Err(CodecError::Truncated));
    assert_eq!(decode::<Compact<u64>>(&[0x01]), Err(CodecError::Truncated));
    assert_eq!(decode::<Compact<u64>>(&[0x02, 0x00, 0x01]), Err(CodecError::Truncated));
    assert_eq!(decode::<Compact<u64>>(&[0x03, 0x00, 0x00, 0x00]), Err(CodecError::Truncated));
    assert_eq!(
        decode::<Compact<u64>>(&[0x13, 0xff, 0xff, 0xff, 0xff, 0xff, 0xff, 0xff]),
        Err(CodecError::Truncated)
    );
}

#[test]
fn compact_invalid_prefix() {
    // The long form does not exist for a 16-bit target.
    assert_eq!(
        decode::<Compact<u16>>(&[0x03, 0x00, 0x00, 0x00, 0x40]),
        Err(CodecError::InvalidPrefix)
    );
    // Nine bytes and more are beyond a 64-bit target.
    assert_eq!(
        decode::<Compact<u64>>(&[0x17, 1, 2, 3, 4, 5, 6, 7, 8, 9]),
        Err(CodecError::InvalidPrefix)
    );
    assert_eq!(decode::<Compact<u64>>(&[0xff]), Err(CodecError::InvalidPrefix));
}

#[test]
fn compact_rejects_wider_form_than_needed() {
    // 1 in two bytes, in four bytes and in the long form.
    assert_eq!(decode::<Compact<u64>>(&[0x05, 0x00]), Err(CodecError::OutOfRange));
    assert_eq!(decode::<Compact<u64>>(&[0x06, 0x00, 0x00, 0x00]), Err(CodecError::OutOfRange));
    assert_eq!(
        decode::<Compact<u64>>(&[0x03, 0x01, 0x00, 0x00, 0x00]),
        Err(CodecError::OutOfRange)
    );
    // 2^32 in six bytes where five do.
    assert_eq!(
        decode::<Compact<u64>>(&[0x0b, 0x00, 0x00, 0x00, 0x00, 0x01, 0x00]),
        Err(CodecError::OutOfRange)
    );
}

#[test]
fn compact_rejects_value_beyond_target() {
    // 65536 in the four-byte form.
    assert_eq!(decode::<Compact<u16>>(&[0x02, 0x00, 0x04, 0x00]), Err(CodecError::OutOfRange));
    assert_eq!(decode::<Compact<u32>>(&[0x02, 0x00, 0x04, 0x00]), Ok(Compact(65536u32)));
    // A 32-bit target answers a longer long form with OutOfRange.
    assert_eq!(
        decode::<Compact<u32>>(&[0x07, 0x00, 0x00, 0x00, 0x00, 0x01]),
        Err(CodecError::OutOfRange)
    );
}

#[test]
fn compact_errors_match_reference_decoder() {
    let inputs: [&[u8]; 10] = [
        &[],
        &[0x01],
        &[0x05, 0x00],
        &[0x06, 0x00, 0x00, 0x00],
        &[0x03, 0x01, 0x00, 0x00, 0x00],
        &[0x0b, 0x00, 0x00, 0x00, 0x00, 0x01, 0x00],
        &[0x17, 1, 2, 3, 4, 5, 6, 7, 8, 9],
        &[0xfd, 0xff],
        &[0x13, 0xff, 0xff, 0xff, 0xff, 0xff, 0xff, 0xff, 0xff],
        &[0x02, 0x00, 0x04, 0x00],
    ];
    for input in inputs {
        let mut cursor: &[u8] = input;
        let reference = parity_scale_codec::Compact::<u64>::decode(&mut cursor).ok().map(|c| c.0);
        let ours = decode::<Compact<u64>>(input).ok().map(|c| c.0);
        assert_eq!(ours, reference, "input {:?}", input);
        let mut cursor: &[u8] = input;
        let reference = parity_scale_codec::Compact::<u16>::decode(&mut cursor).ok().map(|c| c.0);
        let ours = decode::<Compact<u16>>(input).ok().map(|c| c.0);
        assert_eq!(ours, reference, "input {:?}", input);
    }
}

#[test]
fn fixed_width_integers_are_little_endian() {
    assert_eq!(encode(&0x12u8), vec![0x12]);
    assert_eq!(encode(&0x1234u16), vec![0x34, 0x12]);
    assert_eq!(encode(&0x1234_5678u32), vec![0x78, 0x56, 0x34, 0x12]);
    assert_eq!(
        encode(&0x0102_0304_0506_0708u64),
        vec![0x08, 0x07, 0x06, 0x05, 0x04, 0x03, 0x02, 0x01]
    );
    assert_eq!(encode(&u128::MAX), vec![0xff; 16]);
    assert_eq!(encode(&1u128), 1u128.encode());
    assert_eq!(decode::<u16>(&[0x34, 0x12]), Ok(0x1234));
    assert_eq!(decode::<u32>(&[0x78, 0x56, 0x34]), Err(CodecError::Truncated));
    assert_eq!(decode::<u128>(&u128::MAX.encode()), Ok(u128::MAX));
    assert_eq!(decode::<u64>(&0xdead_beef_u64.encode()), Ok(0xdead_beef));
}

#[test]
fn booleans_are_zero_or_one() {
    assert_eq!(encode(&false), vec![0]);
    assert_eq!(encode(&true), vec![1]);
    assert_eq!(decode::<bool>(&[0]), Ok(false));
    assert_eq!(decode::<bool>(&[1]), Ok(true));
    assert_eq!(decode::<bool>(&[2]), Err(CodecError::OutOfRange));
    assert_eq!(decode::<bool>(&[]), Err(CodecError::Truncated));
}

#[test]
fn options_carry_a_presence_byte() {
    assert_eq!(encode(&None::<u16>), vec![0]);
    assert_eq!(encode(&Some(0x0102u16)), vec![1, 0x02, 0x01]);
    assert_eq!(decode::<Option<u16>>(&[0]), Ok(None));
    assert_eq!(decode::<Option<u16>>(&[1, 0x02, 0x01]), Ok(Some(0x0102)));
    assert_eq!(decode::<Option<u16>>(&[2, 0x02, 0x01]), Err(CodecError::InvalidPrefix));
    assert_eq!(decode::<Option<u16>>(&[1, 0x02]), Err(CodecError::Truncated));
    assert_eq!(decode::<Option<u16>>(&[]), Err(CodecError::Truncated));
}

#[test]
fn sequences_carry_a_compact_length() {
    let items: Vec<u16> = vec![1, 2, 3];
    assert_eq!(encode(&items), vec![0x0c, 1, 0, 2, 0, 3, 0]);
    assert_eq!(encode(&items), items.encode());
    assert_eq!(decode::<Vec<u16>>(&[0x0c, 1, 0, 2, 0, 3, 0]), Ok(items));
    assert_eq!(decode::<Vec<u16>>(&[0x00]), Ok(vec![]));
    let long: Vec<u8> = (0..100u32).map(|i| i as u8).collect();
    assert_eq!(encode(&long), long.encode());
    assert_eq!(decode::<Vec<u8>>(&encode(&long)), Ok(long));
}

#[test]
fn sequence_longer_than_input_is_refused() {
    assert_eq!(decode::<Vec<u16>>(&[0x0c, 1, 0, 2, 0]), Err(CodecError::Truncated));
    assert_eq!(decode::<Vec<u8>>(&[0xfd, 0xff, 1, 2, 3]), Err(CodecError::Truncated));
    assert_eq!(
        decode::<Vec<u8>>(&[0x03, 0xff, 0xff, 0xff, 0xff, 1, 2, 3]),
        Err(CodecError::Truncated)
    );
}

#[test]
fn sequence_reports_first_failing_item() {
    // The second item is no boolean; the third is missing.
    assert_eq!(decode::<Vec<bool>>(&[0x0c, 1, 7]), Err(CodecError::OutOfRange));
    // A length in a wider form than it needs.
    assert_eq!(decode::<Vec<u8>>(&[0x05, 0x00, 9]), Err(CodecError::OutOfRange));
}

#[test]
fn pairs_are_concatenated() {
    let pair = (Compact(300u16), 7u8);
    assert_eq!(encode(&pair), vec![0xb1, 0x04, 7]);
    assert_eq!(decode::<(Compact<u16>, u8)>(&[0xb1, 0x04, 7]), Ok(pair));
    assert_eq!(encode(&[1u16, 2u16]), vec![1, 0, 2, 0]);
    assert_eq!(decode::<[u16; 2]>(&[1, 0, 2, 0]), Ok([1, 2]));
    assert_eq!(decode::<[u16; 2]>(&[1, 0, 2]), Err(CodecError::Truncated));
}

#[test]
fn try_encode_writes_what_encode_writes() {
    let items: Vec<(Compact<u16>, bool)> = vec![(Compact(1), true), (Compact(70), false)];
    assert!(items.can_encode());
    assert_eq!(try_encode(&items), Some(vec![0x08, 0x04, 1, 0x19, 0x01, 0]));
    assert_eq!(try_encode(&Some(7u8)), Some(vec![1, 7]));
    assert!(Compact(u128::MAX).can_encode());
}

#[test]
fn decode_at_a_position_beyond_the_input() {
    let bytes = [0x04u8, 0x08];
    assert_eq!(Compact::<u64>::decode_at(&bytes, 2), Err(CodecError::Truncated));
    assert_eq!(Compact::<u64>::decode_at(&bytes, 3), Err(CodecError::Truncated));
    assert_eq!(u16::decode_at(&bytes, usize::MAX), Err(CodecError::Truncated));
    assert_eq!(bool::decode_at(&bytes, 9), Err(CodecError::Truncated));
    assert_eq!(<Option<u8>>::decode_at(&bytes, 9), Err(CodecError::Truncated));
    assert_eq!(<Vec<u8>>::decode_at(&bytes, 9), Err(CodecError::Truncated));
    assert_eq!(<(u8, u8)>::decode_at(&bytes, 1), Err(CodecError::Truncated));
}
