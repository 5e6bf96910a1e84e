use parity_scale_codec::{Decode, Encode};
use subtensor_client::codec::compact::Compact;
use subtensor_client::codec::{decode, encode, CodecError, Wire};
use subtensor_client::rpc::types::{StakeInfo, SubnetIdentity};
use subtensor_client::AccountId;

/// A small deterministic generator, so that a failure can be found again.
struct Numbers(u64);

impl Numbers {
    fn next(&mut self) -> u64 {
        self.0 ^= self.0 << 13;
        self.0 ^= self.0 >> 7;
        self.0 ^= self.0 << 17;
        self.0
    }

    fn bytes(&mut self, len: usize) -> Vec<u8> {
        (0..len).map(|_| self.next() as u8).collect()
    }
}

fn category(e: &parity_scale_codec::Error) -> CodecError {
    let message = e.to_string();
    if message.contains("Not enough data") {
        CodecError::Truncated
    } else if message.contains("unexpected prefix") || message.contains("unexpected first byte") {
        CodecError::InvalidPrefix
    } else if message.contains("out of range") || message.contains("Invalid boolean") {
        CodecError::OutOfRange
    } else {
        panic!("unknown message: {}", message)
    }
}

fn reference<T: Decode>(input: &[u8]) -> Result<(T, usize), CodecError> {
    let mut cursor: &[u8] = input;
    match T::decode(&mut cursor) {
        Ok(value) => Ok((value, input.len() - cursor.len())),
        Err(e) => Err(category(&e)),
    }
}

type RefStake = ([u8; 32], [u8; 32], parity_scale_codec::Compact<u64>);

#[test]
fn compact_u64_agrees_on_arbitrary_input() {
    let mut numbers = Numbers(0x9e37_79b9_7f4a_7c15);
    for round in 0..20_000 {
        let len = (numbers.next() % 11) as usize;
        let mut input = numbers.bytes(len);
        if round % 3 == 0 && !input.is_empty() {
            // More of the short forms.
            input[0] &= 0x0f;
        }
        let ours = Compact::<u64>::decode_at(&input, 0).map(|(value, next)| (value.0, next));
        let theirs =
            reference::<parity_scale_codec::Compact<u64>>(&input).map(|(value, n)| (value.0, n));
        assert_eq!(ours, theirs, "input {:?}", input);
    }
}

#[test]
fn compact_u16_and_u32_agree_on_arbitrary_input() {
    let mut numbers = Numbers(0x0123_4567_89ab_cdef);
    for _ in 0..20_000 {
        let len = (numbers.next() % 7) as usize;
        let input = numbers.bytes(len);
        let ours = Compact::<u16>::decode_at(&input, 0).map(|(value, next)| (value.0, next));
        let theirs =
            reference::<parity_scale_codec::Compact<u16>>(&input).map(|(value, n)| (value.0, n));
        assert_eq!(ours, theirs, "input {:?}", input);
        let ours = Compact::<u32>::decode_at(&input, 0).map(|(value, next)| (value.0, next));
        let theirs =
            reference::<parity_scale_codec::Compact<u32>>(&input).map(|(value, n)| (value.0, n));
        assert_eq!(ours, theirs, "input {:?}", input);
    }
}

#[test]
fn compact_u128_agrees_on_arbitrary_input() {
    let mut numbers = Numbers(0xfeed_f00d_dead_beef);
    for _ in 0..20_000 {
        let len = (numbers.next() % 19) as usize;
        let input = numbers.bytes(len);
        let ours = Compact::<u128>::decode_at(&input, 0).map(|(value, next)| (value.0, next));
        let theirs =
            reference::<parity_scale_codec::Compact<u128>>(&input).map(|(value, n)| (value.0, n));
        assert_eq!(ours, theirs, "input {:?}", input);
    }
}

#[test]
fn compact_encoding_agrees_on_arbitrary_values() {
    let mut numbers = Numbers(42);
    for _ in 0..20_000 {
        let shift = numbers.next() % 64;
        let x = numbers.next() >> shift;
        assert_eq!(encode(&Compact(x)), parity_scale_codec::Compact(x).encode());
        assert_eq!(encode(&x), x.encode());
        let wide = (x as u128) << (numbers.next() % 64);
        assert_eq!(encode(&Compact(wide)), parity_scale_codec::Compact(wide).encode());
    }
}

#[test]
fn sequences_and_options_agree_on_arbitrary_input() {
    let mut numbers = Numbers(7);
    for round in 0..20_000 {
        let len = (numbers.next() % 12) as usize;
        let mut input = numbers.bytes(len);
        if !input.is_empty() {
            // Keep most lengths and flags small enough to be met.
            input[0] = match round % 4 {
                0 => input[0],
                1 => (input[0] % 4) << 2,
                _ => input[0] % 3,
            };
        }
        let ours = <Vec<Option<bool>>>::decode_at(&input, 0);
        let theirs = reference::<Vec<Option<bool>>>(&input);
        assert_eq!(ours, theirs, "input {:?}", input);
        let ours_bytes = <Vec<Option<u8>>>::decode_at(&input, 0);
        let theirs_bytes = reference::<Vec<Option<u8>>>(&input);
        assert_eq!(ours_bytes, theirs_bytes, "input {:?}", input);
        let ours_pairs = <Vec<(Compact<u16>, u16)>>::decode_at(&input, 0).map(|(items, next)| {
            (items.into_iter().map(|(a, b)| (a.0, b)).collect::<Vec<(u16, u16)>>(), next)
        });
        let theirs_pairs = reference::<Vec<(parity_scale_codec::Compact<u16>, u16)>>(&input)
            .map(|(items, n)| {
                (items.into_iter().map(|(a, b)| (a.0, b)).collect::<Vec<(u16, u16)>>(), n)
            });
        assert_eq!(ours_pairs, theirs_pairs, "input {:?}", input);
        if let Ok((items, _)) = ours {
            assert_eq!(decode::<Vec<Option<bool>>>(&encode(&items)), Ok(items));
        }
    }
}

#[test]
fn records_agree_on_damaged_encodings() {
    let mut numbers = Numbers(0xabcdef);
    for _ in 0..5_000 {
        let stake = StakeInfo {
            hotkey: AccountId([numbers.next() as u8; 32]),
            coldkey: AccountId([numbers.next() as u8; 32]),
            stake: Compact(numbers.next() >> (numbers.next() % 64)),
        };
        let mut bytes = encode(&stake);
        let theirs: RefStake =
            (stake.hotkey.0, stake.coldkey.0, parity_scale_codec::Compact(stake.stake.0));
        assert_eq!(bytes, theirs.encode());
        match numbers.next() % 3 {
            0 => bytes.truncate((numbers.next() as usize) % (bytes.len() + 1)),
            1 => {
                let at = 64 + (numbers.next() as usize) % (bytes.len() - 64);
                bytes[at] = numbers.next() as u8;
            }
            _ => bytes.extend(numbers.bytes(3)),
        }
        let ours = StakeInfo::decode_at(&bytes, 0)
            .map(|(s, next)| ((s.hotkey.0, s.coldkey.0, s.stake.0), next));
        let theirs = reference::<RefStake>(&bytes).map(|((h, c, s), n)| ((h, c, s.0), n));
        assert_eq!(ours, theirs, "input {:?}", bytes);
    }
}

#[test]
fn byte_strings_agree_on_damaged_encodings() {
    let mut numbers = Numbers(0x5eed);
    for _ in 0..5_000 {
        let identity = SubnetIdentity {
            subnet_name: {
                let len = (numbers.next() % 70) as usize;
                numbers.bytes(len)
            },
            github_repo: {
                let len = (numbers.next() % 5) as usize;
                numbers.bytes(len)
            },
            subnet_contact: {
                let len = (numbers.next() % 300) as usize;
                numbers.bytes(len)
            },
        };
        let mut bytes = encode(&identity);
        assert_eq!(
            bytes,
            (
                identity.subnet_name.clone(),
                identity.github_repo.clone(),
                identity.subnet_contact.clone()
            )
                .encode()
        );
        assert_eq!(decode::<SubnetIdentity>(&bytes), Ok(identity));
        let at = (numbers.next() as usize) % bytes.len();
        bytes[at] = numbers.next() as u8;
        bytes.truncate(at + 1 + (numbers.next() as usize) % (bytes.len() - at));
        let ours = SubnetIdentity::decode_at(&bytes, 0)
            .map(|(i, next)| ((i.subnet_name, i.github_repo, i.subnet_contact), next));
        let theirs = reference::<(Vec<u8>, Vec<u8>, Vec<u8>)>(&bytes);
        assert_eq!(ours, theirs, "input {:?}", bytes);
    }
}
