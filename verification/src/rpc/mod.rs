//! Typed runtime queries: each kind of query is bound to the one shape that
//! its answer has, and an answer is decoded as that shape.
//!
//! The call itself is made elsewhere. What it returned, raw bytes or a
//! failure, is handed to [`decode_runtime_api_result`], which keeps a failed
//! call and an answer that does not decode apart.

pub mod types;

use vstd::prelude::*;
use crate::AccountId;
use crate::codec::{decode, decoded, CodecError, Wire};
use crate::codec::compact::Compact;
use crate::rpc::types::{
    DelegateInfo, NeuronInfo, NeuronInfoLite, StakeInfo, SubnetHyperparams, SubnetInfo,
    SubnetInfov2,
};

verus! {

/// Why a runtime query gave no answer.
#[derive(Clone, Debug, PartialEq, Eq)]
pub enum RuntimeApiError<E> {
    /// The call did not come back; the caller's transport says why.
    CallError(E),
    /// The call came back with bytes that are not an answer of the expected
    /// shape.
    DecodeError(CodecError),
}

/// A kind of runtime query, with the shape of its answer.
pub trait RuntimeApiPayloadData {
    type Response: Wire;
}

/// One delegate, by account.
pub struct GetDelegate;

/// Every delegate.
pub struct GetDelegates;

/// The delegates that an account stakes on, each with the stake.
pub struct GetDelegated;

/// Every neuron of a subnet.
pub struct GetNeurons;

/// One neuron of a subnet.
pub struct GetNeuron;

/// Every neuron of a subnet, without weights and bonds.
pub struct GetNeuronsLite;

/// One neuron of a subnet, without weights and bonds.
pub struct GetNeuronLite;

/// The stakes of one account.
pub struct GetStakeInfoForColdkey;

/// The stakes of several accounts, account by account.
pub struct GetStakeInfoForColdkeys;

/// The tunable parameters of a subnet, where the subnet exists.
pub struct GetSubnetHyperparams;

/// A subnet, where it exists.
pub struct GetSubnetInfo;

/// Every subnet slot, empty ones included.
pub struct GetSubnetsInfo;

/// A subnet with its identity, where it exists.
pub struct GetSubnetInfoV2;

/// Every subnet slot with identities, empty ones included.
pub struct GetSubnetsInfoV2;

impl RuntimeApiPayloadData for GetDelegate {
    type Response = DelegateInfo;
}

impl RuntimeApiPayloadData for GetDelegates {
    type Response = Vec<DelegateInfo>;
}

impl RuntimeApiPayloadData for GetDelegated {
    type Response = Vec<(DelegateInfo, Compact<u64>)>;
}

impl RuntimeApiPayloadData for GetNeurons {
    type Response = Vec<NeuronInfo>;
}

impl RuntimeApiPayloadData for GetNeuron {
    type Response = NeuronInfo;
}

impl RuntimeApiPayloadData for GetNeuronsLite {
    type Response = Vec<NeuronInfoLite>;
}

impl RuntimeApiPayloadData for GetNeuronLite {
    type Response = Vec<NeuronInfoLite>;
}

impl RuntimeApiPayloadData for GetStakeInfoForColdkey {
    type Response = Vec<StakeInfo>;
}

impl RuntimeApiPayloadData for GetStakeInfoForColdkeys {
    type Response = Vec<(AccountId, Vec<StakeInfo>)>;
}

impl RuntimeApiPayloadData for GetSubnetHyperparams {
    type Response = Option<SubnetHyperparams>;
}

impl RuntimeApiPayloadData for GetSubnetInfo {
    type Response = Option<SubnetInfo>;
}

impl RuntimeApiPayloadData for GetSubnetsInfo {
    type Response = Vec<Option<SubnetInfo>>;
}

impl RuntimeApiPayloadData for GetSubnetInfoV2 {
    type Response = Option<SubnetInfov2>;
}

impl RuntimeApiPayloadData for GetSubnetsInfoV2 {
    type Response = Vec<Option<SubnetInfov2>>;
}

/// The answer to a query of kind `T`, given what the call returned: a failed
/// call stays a `CallError`, and bytes that do not decode as the answer's
/// shape give a `DecodeError` with the codec's reason.
pub open spec fn runtime_api_answer<T: RuntimeApiPayloadData, E>(
    outcome: Result<Seq<u8>, E>,
) -> Result<<T::Response as Wire>::Model, RuntimeApiError<E>> {
    match outcome {
        Err(failure) => Err(RuntimeApiError::CallError(failure)),
        Ok(bytes) => match decoded::<T::Response>(bytes) {
            Ok(answer) => Ok(answer),
            Err(reason) => Err(RuntimeApiError::DecodeError(reason)),
        },
    }
}

/// Turns what a runtime call returned into the typed answer of query `T`.
pub fn decode_runtime_api_result<T: RuntimeApiPayloadData, E>(outcome: Result<Vec<u8>, E>) -> (r:
    Result<T::Response, RuntimeApiError<E>>)
    ensures
        match outcome {
            Err(failure) => r == Err::<T::Response, RuntimeApiError<E>>(
                RuntimeApiError::CallError(failure),
            ),
            Ok(bytes) => match r {
                Ok(answer) => runtime_api_answer::<T, E>(Ok(bytes@)) == Ok::<
                    <T::Response as Wire>::Model,
                    RuntimeApiError<E>,
                >(answer.model()),
                Err(error) => runtime_api_answer::<T, E>(Ok(bytes@)) == Err::<
                    <T::Response as Wire>::Model,
                    RuntimeApiError<E>,
                >(error),
            },
        },
{
    match outcome {
        Err(failure) => Err(RuntimeApiError::CallError(failure)),
        Ok(bytes) => match decode::<T::Response>(bytes.as_slice()) {
            Ok(answer) => Ok(answer),
            Err(reason) => Err(RuntimeApiError::DecodeError(reason)),
        },
    }
}

/// A failed call and an undecodable answer never look alike: the first is
/// reported as `CallError`, the second as `DecodeError`, whatever the query.
pub proof fn lemma_call_and_decode_errors_differ<T: RuntimeApiPayloadData, E>(
    failure: E,
    bytes: Seq<u8>,
)
    ensures
        runtime_api_answer::<T, E>(Err(failure)) is Err,
        runtime_api_answer::<T, E>(Err(failure))->Err_0 is CallError,
        runtime_api_answer::<T, E>(Ok(bytes)) matches Err(error) ==> error is DecodeError,
{
}

} // verus!
