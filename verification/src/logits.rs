//! Picking the next token from a tensor of logits.
//!
//! Logits are handled as integer scores: the caller maps each logit to an
//! integer so that a greater logit gets a greater score and equal logits get
//! equal scores. The scores of a tensor are given flat, in row-major order,
//! together with the lengths of its axes.

use crate::decoder::DecodeError;
use vstd::prelude::*;
use vstd::slice::slice_subrange;

verus! {

/// `idx` is the position of the first greatest score.
pub open spec fn is_first_max(scores: Seq<i32>, idx: int) -> bool {
    &&& 0 <= idx < scores.len()
    &&& forall|j: int| 0 <= j < scores.len() ==> scores[j] <= scores[idx]
    &&& forall|j: int| 0 <= j < idx ==> scores[j] < scores[idx]
}

/// The error that a tensor with axes `shape` and `len` scores is rejected
/// with, the first that applies; `None` for a well-formed tensor.
pub open spec fn shape_error(shape: Seq<usize>, len: nat) -> Option<DecodeError> {
    if shape.len() != 3 {
        Some(DecodeError::NotThreeDimensional)
    } else if shape[0] == 0 || shape[1] == 0 || shape[2] == 0 {
        Some(DecodeError::EmptyAxis)
    } else if shape[0] * shape[1] * shape[2] != len {
        Some(DecodeError::LengthMismatch)
    } else {
        None
    }
}

/// The scores at the last sequence position of the first batch entry, for a
/// tensor with axes (batch, sequence, vocabulary).
pub open spec fn last_row(shape: Seq<usize>, scores: Seq<i32>) -> Seq<i32> {
    scores.subrange((shape[1] - 1) * shape[2], shape[1] * shape[2])
}

/// The token that stands for a position in the vocabulary: the position
/// itself wherever it fits a token, which every position of a tensor that
/// fits in memory does.
pub open spec fn token_of(idx: int) -> i64 {
    #[verifier::truncate]
    (idx as i64)
}

/// `out` is the greedy choice from a tensor with axes `shape` and the
/// scores `scores`: the error the tensor is rejected with, or the token of
/// the first greatest score in its last row.
pub open spec fn chosen(shape: Seq<usize>, scores: Seq<i32>, out: Result<i64, DecodeError>) -> bool {
    match out {
        Err(e) => shape_error(shape, scores.len()) == Some(e),
        Ok(token) => {
            &&& shape_error(shape, scores.len()) is None
            &&& exists|idx: int| is_first_max(last_row(shape, scores), idx) && token == token_of(idx)
        },
    }
}

/// At most one position is the first greatest.
pub proof fn lemma_first_max_unique(scores: Seq<i32>, a: int, b: int)
    requires
        is_first_max(scores, a),
        is_first_max(scores, b),
    ensures
        a == b,
{
    if a < b {
        assert(scores[a] < scores[b]);
        assert(scores[b] <= scores[a]);
    } else if b < a {
        assert(scores[b] < scores[a]);
        assert(scores[a] <= scores[b]);
    }
}

/// The position of the first greatest score; `None` when there is no score.
pub fn argmax(scores: &[i32]) -> (best: Option<usize>)
    ensures
        best is None <==> scores@.len() == 0,
        best matches Some(idx) ==> is_first_max(scores@, idx as int),
{
    if scores.len() == 0 {
        return None;
    }
    let mut best: usize = 0;
    let mut i: usize = 1;
    while i < scores.len()
        invariant
            1 <= i <= scores.len(),
            best < i,
            forall|j: int| 0 <= j < i ==> scores@[j] <= scores@[best as int],
            forall|j: int| 0 <= j < best ==> scores@[j] < scores@[best as int],
        decreases scores.len() - i,
    {
        if scores[i] > scores[best] {
            best = i;
        }
        i += 1;
    }
    Some(best)
}

/// The token chosen greedily from a logits tensor: the position of the first
/// greatest score in the vocabulary row at the last sequence position.
///
/// A tensor that does not have three non-empty axes, or whose number of
/// scores does not match them, is rejected.
pub fn last_token_idx(shape: &[usize], scores: &[i32]) -> (out: Result<i64, DecodeError>)
    ensures
        chosen(shape@, scores@, out),
{
    if shape.len() != 3 {
        return Err(DecodeError::NotThreeDimensional);
    }
    let len: usize = scores.len();
    let batch: usize = shape[0];
    let positions: usize = shape[1];
    let vocabulary: usize = shape[2];
    if batch == 0 || positions == 0 || vocabulary == 0 {
        return Err(DecodeError::EmptyAxis);
    }
    let per_batch: usize = match positions.checked_mul(vocabulary) {
        Some(n) => n,
        None => {
            assert(batch * positions * vocabulary != len) by (nonlinear_arith)
                requires
                    batch >= 1,
                    positions * vocabulary > usize::MAX,
                    len <= usize::MAX,
            ;
            return Err(DecodeError::LengthMismatch);
        },
    };
    let total: usize = match batch.checked_mul(per_batch) {
        Some(n) => n,
        None => {
            assert(batch * positions * vocabulary == batch * (positions * vocabulary))
                by (nonlinear_arith);
            return Err(DecodeError::LengthMismatch);
        },
    };
    assert(batch * positions * vocabulary == batch * (positions * vocabulary))
        by (nonlinear_arith);
    if total != len {
        return Err(DecodeError::LengthMismatch);
    }
    assert((positions - 1) * vocabulary + vocabulary == positions * vocabulary
        && (positions - 1) * vocabulary >= 0 && per_batch <= total) by (nonlinear_arith)
        requires
            positions >= 1,
            batch >= 1,
            vocabulary >= 1,
            per_batch == positions * vocabulary,
            total == batch * per_batch,
    ;
    let start: usize = per_batch - vocabulary;
    let row = slice_subrange(scores, start, per_batch);
    assert(row@ == last_row(shape@, scores@));
    match argmax(row) {
        Some(idx) => {
            let token: i64 = #[verifier::truncate]
            (idx as i64);
            assert(is_first_max(last_row(shape@, scores@), idx as int) && token == token_of(
                idx as int,
            ));
            Ok(token)
        },
        None => Err(DecodeError::EmptyAxis),
    }
}

} // verus!
