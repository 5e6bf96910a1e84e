//! Account identifiers.

use vstd::prelude::*;
use crate::codec::{CodecError, Wire};

verus! {

/// The 32-byte public identifier of an account.
#[derive(Clone, Copy, Debug, PartialEq, Eq, Hash)]
pub struct AccountId(pub [u8; 32]);

impl View for AccountId {
    type V = Seq<u8>;

    open spec fn view(&self) -> Seq<u8> {
        self.0@
    }
}

/// An account identifier travels as its 32 bytes.
impl Wire for AccountId {
    type Model = Seq<u8>;

    open spec fn model(&self) -> Seq<u8> {
        self.0@
    }

    open spec fn encodable(m: Seq<u8>) -> bool {
        m.len() == 32
    }

    open spec fn encoding(m: Seq<u8>) -> Seq<u8> {
        m
    }

    open spec fn parse(bytes: Seq<u8>, pos: int) -> Result<(Seq<u8>, int), CodecError> {
        if 0 <= pos && pos + 32 <= bytes.len() {
            Ok((bytes.subrange(pos, pos + 32), pos + 32))
        } else {
            Err(CodecError::Truncated)
        }
    }

    proof fn lemma_round_trip(m: Seq<u8>, bytes: Seq<u8>, pos: int) {
    }

    proof fn lemma_canonical(bytes: Seq<u8>, pos: int) {
    }

    fn can_encode(&self) -> (yes: bool) {
        true
    }

    fn encode_to(&self, out: &mut Vec<u8>) {
        let mut i: usize = 0;
        while i < 32
            invariant
                i <= 32,
                out@ == old(out)@ + self.0@.take(i as int),
            decreases 32 - i,
        {
            out.push(self.0[i]);
            i = i + 1;
        }
    }

    fn decode_at(bytes: &[u8], pos: usize) -> (r: Result<(AccountId, usize), CodecError>) {
        if pos > bytes.len() || bytes.len() - pos < 32 {
            return Err(CodecError::Truncated);
        }
        let mut id: [u8; 32] = [0u8; 32];
        let mut i: usize = 0;
        while i < 32
            invariant
                i <= 32,
                pos + 32 <= bytes.len(),
                forall|j: int| 0 <= j < i ==> id@[j] == bytes@[pos + j],
            decreases 32 - i,
        {
            id[i] = bytes[pos + i];
            i = i + 1;
        }
        assert(id@ =~= bytes@.subrange(pos as int, pos + 32));
        Ok((AccountId(id), pos + 32))
    }
}

} // verus!
