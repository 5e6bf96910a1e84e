//! Weights: scaling them to the 16-bit fractions that consensus works with,
//! and packing them for submission.

use vstd::prelude::*;
use crate::codec::{
    CodecError, Wire, end_of, lemma_concat_assoc, lemma_has_at_join, lemma_has_at_split,
};

verus! {

/// The call that sets weights.
pub const SET_WEIGHTS_CALL: &'static str = "set_weights";

/// The weight that stands for the whole: the greatest weight is scaled to it.
pub const FULL_WEIGHT: u16 = 65535;

/// The weight given to one neuron, as a fraction of 65535.
#[derive(Clone, Copy, Debug, PartialEq, Eq)]
pub struct NormalizedWeight {
    pub uid: u16,
    pub weight: u16,
}

/// The greatest of `weights`; 0 where there are none.
pub open spec fn max_weight(weights: Seq<u64>) -> u64
    decreases weights.len(),
{
    if weights.len() == 0 {
        0
    } else if weights.last() > max_weight(weights.drop_last()) {
        weights.last()
    } else {
        max_weight(weights.drop_last())
    }
}

/// `weight` as a fraction of `max`, in units of 1/65535, rounded down.
pub open spec fn scaled(weight: u64, max: u64) -> u16
    recommends
        0 < max,
        weight <= max,
{
    ((weight * FULL_WEIGHT) / (max as int)) as u16
}

/// Each weight as a fraction of the greatest. There is no such thing where
/// there are no weights, or where all of them are 0.
pub open spec fn normalized(weights: Seq<u64>) -> Option<Seq<u16>> {
    if weights.len() == 0 || max_weight(weights) == 0 {
        None
    } else {
        Some(Seq::new(weights.len(), |i: int| scaled(weights[i], max_weight(weights))))
    }
}

/// `max_weight` is one of the weights, and none is greater.
pub proof fn lemma_max_weight_is_greatest(weights: Seq<u64>)
    ensures
        forall|i: int| 0 <= i < weights.len() ==> weights[i] <= max_weight(weights),
        weights.len() > 0 ==> exists|i: int| 0 <= i < weights.len() && weights[i] == max_weight(
            weights,
        ),
    decreases weights.len(),
{
    if weights.len() > 0 {
        let init = weights.drop_last();
        lemma_max_weight_is_greatest(init);
        assert forall|i: int| 0 <= i < weights.len() implies weights[i] <= max_weight(
            weights,
        ) by {
            if i < init.len() {
                assert(init[i] == weights[i]);
            }
        }
        if init.len() > 0 && weights.last() <= max_weight(init) {
            let i = choose|i: int| 0 <= i < init.len() && init[i] == max_weight(init);
            assert(weights[i] == max_weight(weights));
        } else {
            assert(weights[weights.len() - 1] == max_weight(weights));
        }
    }
}

/// A weight that is at most `max` scales to the fraction that the formula
/// gives, which is at most 65535; `max` itself scales to exactly 65535.
pub proof fn lemma_scaled_in_range(weight: u64, max: u64)
    requires
        0 < max,
        weight <= max,
    ensures
        scaled(weight, max) == (weight * 65535) / (max as int),
        scaled(max, max) == FULL_WEIGHT,
{
    assert(0 <= (weight * 65535) / (max as int) <= 65535) by (nonlinear_arith)
        requires
            0 < max,
            0 <= weight <= max,
    ;
    assert((max * 65535) / (max as int) == 65535) by (nonlinear_arith)
        requires
            0 < max,
    ;
}

/// The greatest weight always comes out as 65535, and no weight comes out
/// above a greater one.
pub proof fn lemma_normalized_scale(weights: Seq<u64>)
    ensures
        normalized(weights) matches Some(fractions) ==> {
            &&& fractions.len() == weights.len()
            &&& forall|i: int|
                0 <= i < weights.len() && weights[i] == max_weight(weights)
                    ==> #[trigger] fractions[i] == FULL_WEIGHT
            &&& forall|i: int, j: int|
                0 <= i < weights.len() && 0 <= j < weights.len() && weights[i] <= weights[j]
                    ==> #[trigger] fractions[i] <= #[trigger] fractions[j]
        },
{
    if let Some(fractions) = normalized(weights) {
        let max = max_weight(weights);
        lemma_max_weight_is_greatest(weights);
        assert forall|i: int|
            0 <= i < weights.len() && weights[i] == max implies #[trigger] fractions[i]
            == FULL_WEIGHT by {
            lemma_scaled_in_range(max, max);
        }
        assert forall|i: int, j: int|
            0 <= i < weights.len() && 0 <= j < weights.len() && weights[i]
                <= weights[j] implies #[trigger] fractions[i] <= #[trigger] fractions[j] by {
            lemma_scaled_in_range(weights[i], max);
            lemma_scaled_in_range(weights[j], max);
            let a = weights[i];
            let b = weights[j];
            assert((a * 65535) / (max as int) <= (b * 65535) / (max as int)) by (nonlinear_arith)
                requires
                    0 < max,
                    0 <= a <= b,
            ;
        }
    }
}

/// Scales each weight to a fraction of the greatest one, in units of
/// 1/65535 and rounded down. Gives `None` where there is nothing to divide
/// by: for no weights at all, and for weights that are all 0.
pub fn normalize_weights(weights: &[u64]) -> (fractions: Option<Vec<u16>>)
    ensures
        match fractions {
            Some(fractions) => normalized(weights@) == Some(fractions@),
            None => normalized(weights@) is None,
        },
{
    let count: usize = weights.len();
    let mut max: u64 = 0;
    let mut i: usize = 0;
    while i < count
        invariant
            i <= count == weights.len(),
            max == max_weight(weights@.take(i as int)),
        decreases count - i,
    {
        proof {
            assert(weights@.take(i + 1).drop_last() =~= weights@.take(i as int));
        }
        if weights[i] > max {
            max = weights[i];
        }
        i = i + 1;
    }
    proof {
        assert(weights@.take(count as int) =~= weights@);
    }
    if count == 0 || max == 0 {
        return None;
    }
    let mut fractions: Vec<u16> = Vec::new();
    let mut i: usize = 0;
    while i < count
        invariant
            i <= count == weights.len(),
            0 < max == max_weight(weights@),
            fractions.len() == i,
            forall|j: int| 0 <= j < i ==> fractions[j] == scaled(weights[j], max),
        decreases count - i,
    {
        let weight: u64 = weights[i];
        proof {
            lemma_max_weight_is_greatest(weights@);
            lemma_scaled_in_range(weight, max);
        }
        let fraction: u128 = (weight as u128 * 65535) / (max as u128);
        fractions.push(fraction as u16);
        i = i + 1;
    }
    Some(fractions)
}

/// The arguments of the call that sets a neuron's weights on a subnet, in the
/// order in which the call takes them. `uids` and `weight_values` run in
/// parallel: the weight at an index is for the neuron at that index.
#[derive(Clone, Debug, PartialEq, Eq)]
pub struct SetWeights {
    /// The subnet.
    pub netuid: u16,
    /// The neurons that are given a weight.
    pub uids: Vec<u16>,
    /// The weight of each of them.
    pub weight_values: Vec<u16>,
    /// The version of the weight-setting software.
    pub version_key: u64,
}

/// The value of a [`SetWeights`].
pub struct SetWeightsModel {
    pub netuid: u16,
    pub uids: Seq<u16>,
    pub weight_values: Seq<u16>,
    pub version_key: u64,
}

impl Wire for SetWeights {
    type Model = SetWeightsModel;

    open spec fn model(&self) -> SetWeightsModel {
        SetWeightsModel {
            netuid: self.netuid.model(),
            uids: self.uids.model(),
            weight_values: self.weight_values.model(),
            version_key: self.version_key.model(),
        }
    }

    open spec fn encodable(m: SetWeightsModel) -> bool {
        &&& <u16>::encodable(m.netuid)
        &&& <Vec<u16>>::encodable(m.uids)
        &&& <Vec<u16>>::encodable(m.weight_values)
        &&& <u64>::encodable(m.version_key)
    }

    open spec fn encoding(m: SetWeightsModel) -> Seq<u8> {
        <u16>::encoding(m.netuid)
            + <Vec<u16>>::encoding(m.uids)
            + <Vec<u16>>::encoding(m.weight_values)
            + <u64>::encoding(m.version_key)
    }

    open spec fn parse(bytes: Seq<u8>, pos: int) -> Result<(SetWeightsModel, int), CodecError> {
        let netuid = <u16>::parse(bytes, pos);
        let after_netuid = end_of(netuid, pos);
        let uids = <Vec<u16>>::parse(bytes, after_netuid);
        let after_uids = end_of(uids, after_netuid);
        let weight_values = <Vec<u16>>::parse(bytes, after_uids);
        let after_weight_values = end_of(weight_values, after_uids);
        let version_key = <u64>::parse(bytes, after_weight_values);
        let after_version_key = end_of(version_key, after_weight_values);
        if netuid is Err {
            Err(netuid->Err_0)
        } else if uids is Err {
            Err(uids->Err_0)
        } else if weight_values is Err {
            Err(weight_values->Err_0)
        } else if version_key is Err {
            Err(version_key->Err_0)
        } else {
            Ok(
                (
                    SetWeightsModel {
                        netuid: netuid->Ok_0.0,
                        uids: uids->Ok_0.0,
                        weight_values: weight_values->Ok_0.0,
                        version_key: version_key->Ok_0.0,
                    },
                    after_version_key,
                ),
            )
        }
    }

    proof fn lemma_round_trip(m: SetWeightsModel, bytes: Seq<u8>, pos: int) {
        let netuid = <u16>::encoding(m.netuid);
        let uids = <Vec<u16>>::encoding(m.uids);
        let weight_values = <Vec<u16>>::encoding(m.weight_values);
        let version_key = <u64>::encoding(m.version_key);
        let to_netuid = netuid;
        let to_uids = to_netuid + uids;
        let to_weight_values = to_uids + weight_values;
        lemma_has_at_split(bytes, pos, to_weight_values, version_key);
        lemma_has_at_split(bytes, pos, to_uids, weight_values);
        lemma_has_at_split(bytes, pos, to_netuid, uids);
        <u16>::lemma_round_trip(m.netuid, bytes, pos);
        <Vec<u16>>::lemma_round_trip(m.uids, bytes, pos + to_netuid.len());
        <Vec<u16>>::lemma_round_trip(m.weight_values, bytes, pos + to_uids.len());
        <u64>::lemma_round_trip(m.version_key, bytes, pos + to_weight_values.len());
    }

    proof fn lemma_canonical(bytes: Seq<u8>, pos: int) {
        let netuid = <u16>::parse(bytes, pos);
        <u16>::lemma_canonical(bytes, pos);
        let after_netuid = end_of(netuid, pos);
        let uids = <Vec<u16>>::parse(bytes, after_netuid);
        <Vec<u16>>::lemma_canonical(bytes, after_netuid);
        let after_uids = end_of(uids, after_netuid);
        let weight_values = <Vec<u16>>::parse(bytes, after_uids);
        <Vec<u16>>::lemma_canonical(bytes, after_uids);
        let after_weight_values = end_of(weight_values, after_uids);
        let version_key = <u64>::parse(bytes, after_weight_values);
        <u64>::lemma_canonical(bytes, after_weight_values);
        if Self::parse(bytes, pos) is Ok {
            let to_netuid = <u16>::encoding(netuid->Ok_0.0);
            let e_uids = <Vec<u16>>::encoding(uids->Ok_0.0);
            lemma_has_at_join(bytes, pos, to_netuid, e_uids);
            let to_uids = to_netuid + e_uids;
            let e_weight_values = <Vec<u16>>::encoding(weight_values->Ok_0.0);
            lemma_has_at_join(bytes, pos, to_uids, e_weight_values);
            let to_weight_values = to_uids + e_weight_values;
            let e_version_key = <u64>::encoding(version_key->Ok_0.0);
            lemma_has_at_join(bytes, pos, to_weight_values, e_version_key);
        }
    }

    fn can_encode(&self) -> (yes: bool) {
        self.netuid.can_encode()
            && self.uids.can_encode()
            && self.weight_values.can_encode()
            && self.version_key.can_encode()
    }

    fn encode_to(&self, out: &mut Vec<u8>) {
        let ghost m = self.model();
        let ghost start = out@;
        self.netuid.encode_to(out);
        let ghost written = <u16>::encoding(m.netuid);
        self.uids.encode_to(out);
        proof {
            lemma_concat_assoc(start, written, <Vec<u16>>::encoding(m.uids));
        }
        let ghost written = written + <Vec<u16>>::encoding(m.uids);
        self.weight_values.encode_to(out);
        proof {
            lemma_concat_assoc(start, written, <Vec<u16>>::encoding(m.weight_values));
        }
        let ghost written = written + <Vec<u16>>::encoding(m.weight_values);
        self.version_key.encode_to(out);
        proof {
            lemma_concat_assoc(start, written, <u64>::encoding(m.version_key));
        }
    }

    fn decode_at(bytes: &[u8], pos: usize) -> (r: Result<(SetWeights, usize), CodecError>) {
        let (netuid, at) = <u16>::decode_at(bytes, pos)?;
        let (uids, at) = <Vec<u16>>::decode_at(bytes, at)?;
        let (weight_values, at) = <Vec<u16>>::decode_at(bytes, at)?;
        let (version_key, at) = <u64>::decode_at(bytes, at)?;
        Ok(
            (
                SetWeights {
                    netuid,
                    uids,
                    weight_values,
                    version_key,
                },
                at,
            ),
        )
    }
}

/// The neurons of `weights`, in their order.
pub open spec fn uids_of(weights: Seq<NormalizedWeight>) -> Seq<u16> {
    Seq::new(weights.len(), |i: int| weights[i].uid)
}

/// The weight values of `weights`, in their order.
pub open spec fn weight_values_of(weights: Seq<NormalizedWeight>) -> Seq<u16> {
    Seq::new(weights.len(), |i: int| weights[i].weight)
}

/// Packs weights for submission: the neurons and their weights go into two
/// parallel lists, in the order given, with nothing sorted or dropped.
pub fn set_weights_payload(netuid: u16, weights: Vec<NormalizedWeight>, version_key: u64) -> (call:
    SetWeights)
    ensures
        call.netuid == netuid,
        call.version_key == version_key,
        call.uids@ == uids_of(weights@),
        call.weight_values@ == weight_values_of(weights@),
{
    let mut uids: Vec<u16> = Vec::new();
    let mut weight_values: Vec<u16> = Vec::new();
    let mut i: usize = 0;
    while i < weights.len()
        invariant
            i <= weights.len(),
            uids.len() == i,
            weight_values.len() == i,
            forall|j: int| 0 <= j < i ==> uids[j] == weights[j].uid,
            forall|j: int| 0 <= j < i ==> weight_values[j] == weights[j].weight,
        decreases weights.len() - i,
    {
        uids.push(weights[i].uid);
        weight_values.push(weights[i].weight);
        i = i + 1;
    }
    SetWeights { netuid, uids, weight_values, version_key }
}

/// The two lists of a payload pair up again to the weights it was packed
/// from: entry `i` of each belongs to weight `i`.
pub proof fn lemma_payload_pairs(weights: Seq<NormalizedWeight>)
    ensures
        uids_of(weights).len() == weights.len(),
        weight_values_of(weights).len() == weights.len(),
        forall|i: int|
            0 <= i < weights.len() ==> weights[i] == (NormalizedWeight {
                uid: #[trigger] uids_of(weights)[i],
                weight: weight_values_of(weights)[i],
            }),
{
}

} // verus!
