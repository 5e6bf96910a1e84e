use subtensor_client::codec::compact::Compact;
use subtensor_client::codec::{encode, CodecError};
use subtensor_client::rpc::types::{StakeInfo, SubnetIdentity};
use subtensor_client::rpc::{
    decode_runtime_api_result, GetDelegate, GetNeuron, GetNeuronLite, GetNeuronsLite,
    GetStakeInfoForColdkey, GetStakeInfoForColdkeys, GetSubnetHyperparams, GetSubnetInfo,
    GetSubnetsInfo, RuntimeApiError,
};
use subtensor_client::AccountId;

#[derive(Debug, PartialEq, Eq)]
struct Unreachable(&'static str);

fn stake(tag: u8, amount: u64) -> StakeInfo {
    StakeInfo { hotkey: AccountId([tag; 32]), coldkey: AccountId([tag + 1; 32]), stake: Compact(amount) }
}

#[test]
fn call_failure_surfaces_as_call_error() {
    let outcome: Result<Vec<u8>, Unreachable> = Err(Unreachable("connection refused"));
    let answer = decode_runtime_api_result::<GetNeuron, Unreachable>(outcome);
    assert_eq!(answer, Err(RuntimeApiError::CallError(Unreachable("connection refused"))));
}

#[test]
fn malformed_answer_surfaces_as_decode_error() {
    let outcome: Result<Vec<u8>, Unreachable> = Ok(vec![1, 2, 3]);
    let answer = decode_runtime_api_result::<GetNeuron, Unreachable>(outcome);
    assert_eq!(answer, Err(RuntimeApiError::DecodeError(CodecError::Truncated)));
}

#[test]
fn call_and_decode_errors_are_told_apart_by_variant() {
    let failed = decode_runtime_api_result::<GetDelegate, Unreachable>(Err(Unreachable("x")));
    let garbled = decode_runtime_api_result::<GetDelegate, Unreachable>(Ok(vec![]));
    assert!(matches!(failed, Err(RuntimeApiError::CallError(_))));
    assert!(matches!(garbled, Err(RuntimeApiError::DecodeError(_))));
}

#[test]
fn decode_error_keeps_the_codec_reason() {
    let answer = decode_runtime_api_result::<GetSubnetInfo, Unreachable>(Ok(vec![2]));
    assert_eq!(answer, Err(RuntimeApiError::DecodeError(CodecError::InvalidPrefix)));
    let answer = decode_runtime_api_result::<GetStakeInfoForColdkey, Unreachable>(Ok(vec![0x05, 0]));
    assert_eq!(answer, Err(RuntimeApiError::DecodeError(CodecError::OutOfRange)));
}

#[test]
fn stake_info_answer() {
    let stakes = vec![stake(1, 10), stake(3, 1 << 40)];
    let answer =
        decode_runtime_api_result::<GetStakeInfoForColdkey, Unreachable>(Ok(encode(&stakes)));
    assert_eq!(answer, Ok(stakes));
}

#[test]
fn stake_info_by_coldkey_answer() {
    let listed = vec![
        (AccountId([7; 32]), vec![stake(1, 10)]),
        (AccountId([8; 32]), vec![]),
        (AccountId([7; 32]), vec![stake(2, 20), stake(3, 30)]),
    ];
    let answer =
        decode_runtime_api_result::<GetStakeInfoForColdkeys, Unreachable>(Ok(encode(&listed)));
    assert_eq!(answer, Ok(listed));
}

#[test]
fn optional_answers() {
    let answer = decode_runtime_api_result::<GetSubnetHyperparams, Unreachable>(Ok(vec![0]));
    assert_eq!(answer, Ok(None));
    let answer = decode_runtime_api_result::<GetSubnetInfo, Unreachable>(Ok(vec![0, 0xff]));
    assert_eq!(answer, Ok(None));
}

#[test]
fn sequence_of_optional_answers() {
    let answer = decode_runtime_api_result::<GetSubnetsInfo, Unreachable>(Ok(vec![0x0c, 0, 0, 0]));
    assert_eq!(answer, Ok(vec![None, None, None]));
    let answer = decode_runtime_api_result::<GetSubnetsInfo, Unreachable>(Ok(vec![0x0c, 0, 0]));
    assert_eq!(answer, Err(RuntimeApiError::DecodeError(CodecError::Truncated)));
}

#[test]
fn lite_queries_answer_with_sequences() {
    let answer = decode_runtime_api_result::<GetNeuronsLite, Unreachable>(Ok(vec![0]));
    assert_eq!(answer, Ok(vec![]));
    let answer = decode_runtime_api_result::<GetNeuronLite, Unreachable>(Ok(vec![0]));
    assert_eq!(answer, Ok(vec![]));
}

#[test]
fn identity_default_is_empty() {
    let identity = SubnetIdentity::default();
    assert!(identity.subnet_name.is_empty());
    assert!(identity.github_repo.is_empty());
    assert!(identity.subnet_contact.is_empty());
}
