//! Greedy autoregressive decoding.
//!
//! The decoder owns the policy and the control flow. The network itself is a
//! capability handed in by the caller: a function from the encoder's hidden
//! state and the tokens so far to the logits, from which the next token is
//! chosen here, or to the next token itself. Every contract below holds for
//! whatever that function returns.
//!
//! The halting rule is fixed as follows. A chosen token is always appended
//! before any check, so an end-of-sequence token is part of the result. After
//! each append the loop halts on the first of: the token is the
//! end-of-sequence token; the number of steps has reached `max_length`; the
//! last `no_repeat_ngram_size` tokens are all end-of-sequence tokens.

use crate::config::GenerationConfig;
use crate::error::OcrError;
use crate::logits::chosen;
use crate::logits::last_token_idx;
use vstd::prelude::*;

verus! {

/// Why a decoding step failed.
#[derive(Debug, Clone, PartialEq, Eq)]
pub enum DecodeError {
    /// The logits do not have three axes.
    NotThreeDimensional,
    /// One of the three axes of the logits has length zero.
    EmptyAxis,
    /// The number of scores is not the product of the axes.
    LengthMismatch,
    /// The inference backend reported a failure.
    Backend(String),
}

/// Which halting rule ended a run.
#[derive(Debug, Clone, Copy, PartialEq, Eq, Structural)]
pub enum StopReason {
    /// The last token is the end-of-sequence token.
    EndOfSequence,
    /// As many steps were taken as the policy allows.
    MaxLength,
    /// The trailing tokens are all end-of-sequence tokens.
    RepeatedEndOfSequence,
}

/// The last `n` tokens exist and all equal `eos`.
pub open spec fn repeated_eos(eos: int, n: nat, tokens: Seq<i64>) -> bool {
    &&& n <= tokens.len()
    &&& forall|i: int| tokens.len() - n <= i < tokens.len() ==> tokens[i] == eos
}

/// The rule that halts a run in the state `tokens`, the first that applies.
///
/// A state holds the start token and one token per step taken. With no step
/// taken only the step limit can halt the run.
pub open spec fn stop_rule(cfg: GenerationConfig, tokens: Seq<i64>) -> Option<StopReason> {
    let steps = tokens.len() - 1;
    if steps >= 1 && tokens.last() == cfg.eos_token_id {
        Some(StopReason::EndOfSequence)
    } else if steps >= cfg.max_length {
        Some(StopReason::MaxLength)
    } else if steps >= 1 && repeated_eos(
        cfg.eos_token_id as int,
        cfg.no_repeat_ngram_size as nat,
        tokens,
    ) {
        Some(StopReason::RepeatedEndOfSequence)
    } else {
        None
    }
}

/// `tokens` is a state that a run can be in, where `yields` says what the
/// backend may answer to the tokens so far: the state begins with the start
/// token, every later token was an answer to the tokens before it, and no
/// halting rule applied to any shorter state.
pub open spec fn reachable_by(
    cfg: GenerationConfig,
    yields: spec_fn(Seq<i64>, Result<i64, OcrError>) -> bool,
    tokens: Seq<i64>,
) -> bool {
    &&& tokens.len() >= 1
    &&& tokens[0] == cfg.decoder_start_token_id
    &&& forall|k: int|
        1 <= k < tokens.len() ==> {
            &&& stop_rule(cfg, #[trigger] tokens.take(k)) is None
            &&& yields(tokens.take(k), Ok(tokens[k]))
        }
}

/// `out` is what a run may end in: tokens of a reachable state in which a
/// halting rule applies, or an error that the backend answered in a
/// reachable state that no rule halts.
pub open spec fn outcome_by(
    cfg: GenerationConfig,
    yields: spec_fn(Seq<i64>, Result<i64, OcrError>) -> bool,
    out: Result<Seq<i64>, OcrError>,
) -> bool {
    match out {
        Ok(tokens) => reachable_by(cfg, yields, tokens) && stop_rule(cfg, tokens) is Some,
        Err(e) => exists|prefix: Seq<i64>|
            {
                &&& #[trigger] reachable_by(cfg, yields, prefix)
                &&& stop_rule(cfg, prefix) is None
                &&& yields(prefix, Err(e))
            },
    }
}

/// Every token sequence is answered in one way only.
pub open spec fn functional(yields: spec_fn(Seq<i64>, Result<i64, OcrError>) -> bool) -> bool {
    forall|prefix: Seq<i64>, a: Result<i64, OcrError>, b: Result<i64, OcrError>|
        #![trigger yields(prefix, a), yields(prefix, b)]
        yields(prefix, a) && yields(prefix, b) ==> a == b
}

/// No token sequence is answered with an error.
pub open spec fn unfailing(yields: spec_fn(Seq<i64>, Result<i64, OcrError>) -> bool) -> bool {
    forall|prefix: Seq<i64>, e: OcrError| !#[trigger] yields(prefix, Err(e))
}

/// The tokens of a finished run, or its error, as plain values.
pub open spec fn as_run(out: Result<Vec<i64>, OcrError>) -> Result<Seq<i64>, OcrError> {
    match out {
        Ok(tokens) => Ok(tokens@),
        Err(e) => Err(e),
    }
}

/// `step` may answer `answer` when asked to continue `prefix`.
pub open spec fn answers<H, S: Fn(&H, &Vec<i64>) -> Result<i64, OcrError>>(
    step: &S,
    hidden: &H,
    prefix: Seq<i64>,
    answer: Result<i64, OcrError>,
) -> bool {
    exists|ids: Vec<i64>| ids@ == prefix && #[trigger] call_ensures(*step, (hidden, &ids), answer)
}

/// What `step` may answer, as a relation.
pub open spec fn step_answers<H, S: Fn(&H, &Vec<i64>) -> Result<i64, OcrError>>(
    step: &S,
    hidden: &H,
) -> spec_fn(Seq<i64>, Result<i64, OcrError>) -> bool {
    |prefix: Seq<i64>, answer: Result<i64, OcrError>| answers(step, hidden, prefix, answer)
}

/// The scores of a logits tensor, flat in row-major order, with the lengths
/// of its axes.
#[derive(Debug, Clone)]
pub struct Logits {
    pub shape: Vec<usize>,
    pub scores: Vec<i32>,
}

/// `answer` is what the greedy choice makes of `reply`: an error of the
/// backend as it is, a malformed tensor as an inference error, and else the
/// token with the first greatest score at the last position.
pub open spec fn follows(reply: Result<Logits, OcrError>, answer: Result<i64, OcrError>) -> bool {
    match reply {
        Err(e) => answer == Err::<i64, OcrError>(e),
        Ok(logits) => match answer {
            Ok(token) => chosen(logits.shape@, logits.scores@, Ok(token)),
            Err(e) => e matches OcrError::Inference(cause) && chosen(
                logits.shape@,
                logits.scores@,
                Err(cause),
            ),
        },
    }
}

/// The greedy choice may be `answer` when `backend` is asked for the logits
/// that continue `prefix`.
pub open spec fn picks<H, B: Fn(&H, &Vec<i64>) -> Result<Logits, OcrError>>(
    backend: &B,
    hidden: &H,
    prefix: Seq<i64>,
    answer: Result<i64, OcrError>,
) -> bool {
    exists|ids: Vec<i64>, reply: Result<Logits, OcrError>|
        ids@ == prefix && #[trigger] call_ensures(*backend, (hidden, &ids), reply) && follows(
            reply,
            answer,
        )
}

/// `backend` may be asked for the logits that continue `ids`.
pub open spec fn askable<H, B: Fn(&H, &Vec<i64>) -> Result<Logits, OcrError>>(
    backend: &B,
    hidden: &H,
    ids: &Vec<i64>,
) -> bool {
    call_requires(*backend, (hidden, ids))
}

/// `backend` may answer `ids` with `reply`.
pub open spec fn replied<H, B: Fn(&H, &Vec<i64>) -> Result<Logits, OcrError>>(
    backend: &B,
    hidden: &H,
    ids: &Vec<i64>,
    reply: Result<Logits, OcrError>,
) -> bool {
    call_ensures(*backend, (hidden, ids), reply)
}

/// What the greedy choice over `backend` may be, as a relation.
pub open spec fn greedy_answers<H, B: Fn(&H, &Vec<i64>) -> Result<Logits, OcrError>>(
    backend: &B,
    hidden: &H,
) -> spec_fn(Seq<i64>, Result<i64, OcrError>) -> bool {
    |prefix: Seq<i64>, answer: Result<i64, OcrError>| picks(backend, hidden, prefix, answer)
}

/// The greedy decoder: a generation policy, applied to whatever backend the
/// caller supplies.
pub struct Decoder {
    gen_config: GenerationConfig,
}

impl Decoder {
    /// The policy this decoder applies.
    pub closed spec fn config(&self) -> GenerationConfig {
        self.gen_config
    }

    /// A decoder for the given policy.
    pub fn new(gen_config: GenerationConfig) -> (decoder: Decoder)
        ensures
            decoder.config() == gen_config,
    {
        Decoder { gen_config }
    }

    /// The policy this decoder applies.
    pub fn gen_config(&self) -> (cfg: &GenerationConfig)
        ensures
            *cfg == self.config(),
    {
        &self.gen_config
    }

    /// The repeated end-of-sequence guard: whether the last
    /// `no_repeat_ngram_size` tokens exist and are all end-of-sequence tokens.
    pub fn stop_decoding(&self, tokens: &[i64]) -> (stop: bool)
        ensures
            stop == repeated_eos(
                self.config().eos_token_id as int,
                self.config().no_repeat_ngram_size as nat,
                tokens@,
            ),
    {
        let max_repeats: u32 = self.gen_config.no_repeat_ngram_size;
        if (tokens.len() as u64) < max_repeats as u64 {
            return false;
        }
        let eos: i64 = self.gen_config.eos_token_id as i64;
        let first: usize = tokens.len() - max_repeats as usize;
        let mut i: usize = first;
        while i < tokens.len()
            invariant
                first <= i <= tokens.len(),
                first == tokens.len() - max_repeats,
                max_repeats == self.config().no_repeat_ngram_size,
                eos == self.config().eos_token_id,
                forall|j: int| first <= j < i ==> tokens@[j] == eos,
            decreases tokens.len() - i,
        {
            if tokens[i] != eos {
                assert(tokens@[i as int] != eos);
                return false;
            }
            i += 1;
        }
        true
    }

    /// The halting rule that applies to the state `tokens`, if any.
    pub fn stop_reason(&self, tokens: &[i64]) -> (reason: Option<StopReason>)
        requires
            tokens@.len() >= 1,
        ensures
            reason == stop_rule(self.config(), tokens@),
    {
        let steps: usize = tokens.len() - 1;
        let eos: i64 = self.gen_config.eos_token_id as i64;
        if steps >= 1 && tokens[steps] == eos {
            Some(StopReason::EndOfSequence)
        } else if steps as u64 >= self.gen_config.max_length as u64 {
            Some(StopReason::MaxLength)
        } else if steps >= 1 && self.stop_decoding(tokens) {
            Some(StopReason::RepeatedEndOfSequence)
        } else {
            None
        }
    }

    /// Runs the loop against `step`, which names the next token itself,
    /// conditioned on `hidden`.
    ///
    /// The run starts from the start token alone. While no halting rule
    /// applies, `step` is asked for the next token, which is appended. On
    /// success the returned tokens are a reachable state in which a halting
    /// rule applies; they are never more than `max_length + 1`. If `step`
    /// fails, its error is returned at once, as it is, and the tokens
    /// gathered so far are dropped; against a step that never fails the run
    /// succeeds.
    pub fn decode<H, S: Fn(&H, &Vec<i64>) -> Result<i64, OcrError>>(
        &self,
        hidden: &H,
        step: &S,
    ) -> (out: Result<Vec<i64>, OcrError>)
        requires
            forall|ids: Vec<i64>| ids@.len() >= 1 ==> call_requires(*step, (hidden, &ids)),
        ensures
            outcome_by(self.config(), step_answers(step, hidden), as_run(out)),
            unfailing(step_answers(step, hidden)) ==> out is Ok,
            out matches Ok(tokens) ==> tokens@.len() <= self.config().max_length + 1,
    {
        let ghost yields = step_answers(step, hidden);
        let mut input_ids: Vec<i64> = Vec::new();
        input_ids.push(self.gen_config.decoder_start_token_id as i64);
        loop
            invariant
                forall|ids: Vec<i64>| ids@.len() >= 1 ==> call_requires(*step, (hidden, &ids)),
                yields == step_answers(step, hidden),
                reachable_by(self.config(), yields, input_ids@),
                input_ids@.len() <= self.config().max_length + 1,
            decreases self.config().max_length + 1 - input_ids@.len(),
        {
            if self.stop_reason(input_ids.as_slice()).is_some() {
                return Ok(input_ids);
            }
            let ghost before = input_ids@;
            match step(hidden, &input_ids) {
                Err(e) => {
                    assert(answers(step, hidden, before, Err(e)));
                    assert(yields(before, Err(e)));
                    return Err(e);
                },
                Ok(idx) => {
                    assert(answers(step, hidden, before, Ok(idx)));
                    assert(yields(before, Ok(idx)));
                    input_ids.push(idx);
                    proof {
                        let after = input_ids@;
                        assert(after.take(before.len() as int) == before);
                        assert forall|k: int| 1 <= k < after.len() implies {
                            &&& stop_rule(self.config(), #[trigger] after.take(k)) is None
                            &&& yields(after.take(k), Ok(after[k]))
                        } by {
                            if k < before.len() {
                                assert(after.take(k) == before.take(k));
                            }
                        }
                    }
                },
            }
        }
    }

    /// Runs the greedy loop against `backend`, which returns logits,
    /// conditioned on `hidden`.
    ///
    /// As `decode`, with the next token chosen here: it is the position of
    /// the first greatest score in the vocabulary row at the last sequence
    /// position of what `backend` returned. An error of `backend` is
    /// returned as it is; logits that are no well-formed tensor are an
    /// inference error.
    pub fn decode_logits<H, B: Fn(&H, &Vec<i64>) -> Result<Logits, OcrError>>(
        &self,
        hidden: &H,
        backend: &B,
    ) -> (out: Result<Vec<i64>, OcrError>)
        requires
            forall|ids: Vec<i64>| ids@.len() >= 1 ==> call_requires(*backend, (hidden, &ids)),
        ensures
            outcome_by(self.config(), greedy_answers(backend, hidden), as_run(out)),
            out matches Ok(tokens) ==> tokens@.len() <= self.config().max_length + 1,
    {
        let step = |h: &H, ids: &Vec<i64>| -> (answer: Result<i64, OcrError>)
            requires
                askable(backend, h, ids),
            ensures
                picks(backend, h, ids@, answer),
            {
                let reply = backend(h, ids);
                assert(replied(backend, h, ids, reply));
                choose_token(reply)
            };
        let out = self.decode(hidden, &step);
        proof {
            let narrow = step_answers(&step, hidden);
            let wide = greedy_answers(backend, hidden);
            assert forall|prefix: Seq<i64>, answer: Result<i64, OcrError>|
                #[trigger] narrow(prefix, answer) implies wide(prefix, answer) by {
                let ids = choose|ids: Vec<i64>|
                    ids@ == prefix && #[trigger] call_ensures(step, (hidden, &ids), answer);
                assert(picks(backend, hidden, ids@, answer));
            }
            lemma_outcome_widens(self.config(), narrow, wide, as_run(out));
        }
        out
    }
}

/// The greedy choice from what a backend returned.
pub fn choose_token(reply: Result<Logits, OcrError>) -> (answer: Result<i64, OcrError>)
    ensures
        follows(reply, answer),
{
    match reply {
        Err(e) => Err(e),
        Ok(logits) => match last_token_idx(logits.shape.as_slice(), logits.scores.as_slice()) {
            Ok(token) => Ok(token),
            Err(cause) => Err(OcrError::Inference(cause)),
        },
    }
}

/// A run against a backend is a run against any backend that may answer
/// all that the first may.
pub proof fn lemma_outcome_widens(
    cfg: GenerationConfig,
    narrow: spec_fn(Seq<i64>, Result<i64, OcrError>) -> bool,
    wide: spec_fn(Seq<i64>, Result<i64, OcrError>) -> bool,
    out: Result<Seq<i64>, OcrError>,
)
    requires
        forall|prefix: Seq<i64>, answer: Result<i64, OcrError>| #[trigger]
            narrow(prefix, answer) ==> wide(prefix, answer),
        outcome_by(cfg, narrow, out),
    ensures
        outcome_by(cfg, wide, out),
{
    match out {
        Ok(tokens) => {
            assert forall|k: int| 1 <= k < tokens.len() implies wide(
                #[trigger] tokens.take(k),
                Ok(tokens[k]),
            ) by {
                assert(narrow(tokens.take(k), Ok(tokens[k])));
            }
        },
        Err(e) => {
            let prefix = choose|prefix: Seq<i64>|
                {
                    &&& #[trigger] reachable_by(cfg, narrow, prefix)
                    &&& stop_rule(cfg, prefix) is None
                    &&& narrow(prefix, Err(e))
                };
            assert forall|k: int| 1 <= k < prefix.len() implies wide(
                #[trigger] prefix.take(k),
                Ok(prefix[k]),
            ) by {
                assert(narrow(prefix.take(k), Ok(prefix[k])));
            }
            assert(reachable_by(cfg, wide, prefix));
        },
    }
}

/// No reachable state holds more than `max_length + 1` tokens: the start
/// token and at most `max_length` chosen ones.
pub proof fn lemma_reachable_length_bounded(
    cfg: GenerationConfig,
    yields: spec_fn(Seq<i64>, Result<i64, OcrError>) -> bool,
    tokens: Seq<i64>,
)
    requires
        reachable_by(cfg, yields, tokens),
    ensures
        tokens.len() <= cfg.max_length + 1,
{
    if tokens.len() >= 2 {
        let k = tokens.len() - 1;
        assert(stop_rule(cfg, tokens.take(k)) is None);
    }
}

/// Two reachable states of a deterministic backend agree on every position
/// that both have.
pub proof fn lemma_reachable_common_prefix(
    cfg: GenerationConfig,
    yields: spec_fn(Seq<i64>, Result<i64, OcrError>) -> bool,
    a: Seq<i64>,
    b: Seq<i64>,
    k: int,
)
    requires
        functional(yields),
        reachable_by(cfg, yields, a),
        reachable_by(cfg, yields, b),
        1 <= k <= a.len(),
        k <= b.len(),
    ensures
        a.take(k) == b.take(k),
    decreases k,
{
    if k == 1 {
        assert(a.take(1) =~= b.take(1));
    } else {
        lemma_reachable_common_prefix(cfg, yields, a, b, k - 1);
        let prefix = a.take(k - 1);
        assert(stop_rule(cfg, a.take(k - 1)) is None);
        assert(stop_rule(cfg, b.take(k - 1)) is None);
        assert(yields(prefix, Ok(a[k - 1])));
        assert(yields(prefix, Ok(b[k - 1])));
        assert(Ok::<i64, OcrError>(a[k - 1]) == Ok::<i64, OcrError>(b[k - 1]));
        assert(a.take(k) =~= a.take(k - 1).push(a[k - 1]));
        assert(b.take(k) =~= b.take(k - 1).push(b[k - 1]));
    }
}

/// Determinism: against a deterministic backend and one hidden state, any
/// two runs end alike, in the same tokens or in the same error.
pub proof fn lemma_decode_deterministic(
    cfg: GenerationConfig,
    yields: spec_fn(Seq<i64>, Result<i64, OcrError>) -> bool,
    first: Result<Seq<i64>, OcrError>,
    second: Result<Seq<i64>, OcrError>,
)
    requires
        functional(yields),
        outcome_by(cfg, yields, first),
        outcome_by(cfg, yields, second),
    ensures
        first == second,
{
    let a = run_state(cfg, yields, first);
    let b = run_state(cfg, yields, second);
    lemma_states_agree(cfg, yields, a, b);
    if first is Err && second is Err {
        assert(yields(a, Err(first->Err_0)));
        assert(yields(a, Err(second->Err_0)));
        assert(Err::<i64, OcrError>(first->Err_0) == Err::<i64, OcrError>(second->Err_0));
    }
}

/// The state in which a run ended: its tokens, or the state in which the
/// backend answered with the error.
pub open spec fn run_state(
    cfg: GenerationConfig,
    yields: spec_fn(Seq<i64>, Result<i64, OcrError>) -> bool,
    out: Result<Seq<i64>, OcrError>,
) -> Seq<i64> {
    match out {
        Ok(tokens) => tokens,
        Err(e) => choose|prefix: Seq<i64>|
            {
                &&& #[trigger] reachable_by(cfg, yields, prefix)
                &&& stop_rule(cfg, prefix) is None
                &&& yields(prefix, Err(e))
            },
    }
}

/// `state` is an end of a run: reachable, and either halted or answered
/// with an error.
pub open spec fn is_end(
    cfg: GenerationConfig,
    yields: spec_fn(Seq<i64>, Result<i64, OcrError>) -> bool,
    state: Seq<i64>,
) -> bool {
    &&& reachable_by(cfg, yields, state)
    &&& (stop_rule(cfg, state) is Some || exists|e: OcrError| #[trigger] yields(state, Err(e)))
}

/// Against a deterministic backend every run ends in the same state, and
/// the way it ends there is the same too: halted, or failed.
pub proof fn lemma_states_agree(
    cfg: GenerationConfig,
    yields: spec_fn(Seq<i64>, Result<i64, OcrError>) -> bool,
    a: Seq<i64>,
    b: Seq<i64>,
)
    requires
        functional(yields),
        is_end(cfg, yields, a),
        is_end(cfg, yields, b),
    ensures
        a == b,
{
    if a.len() <= b.len() {
        lemma_end_is_last(cfg, yields, a, b);
    } else {
        lemma_end_is_last(cfg, yields, b, a);
    }
}

/// Beyond an end of a run no state is reachable.
proof fn lemma_end_is_last(
    cfg: GenerationConfig,
    yields: spec_fn(Seq<i64>, Result<i64, OcrError>) -> bool,
    short: Seq<i64>,
    long: Seq<i64>,
)
    requires
        functional(yields),
        is_end(cfg, yields, short),
        reachable_by(cfg, yields, long),
        short.len() <= long.len(),
    ensures
        short == long,
{
    let k = short.len() as int;
    lemma_reachable_common_prefix(cfg, yields, short, long, k);
    assert(short.take(k) =~= short);
    if short.len() < long.len() {
        assert(stop_rule(cfg, long.take(k)) is None);
        assert(yields(short, Ok(long[k])));
        let e = choose|e: OcrError| #[trigger] yields(short, Err(e));
        assert(Ok::<i64, OcrError>(long[k]) == Err::<i64, OcrError>(e));
    } else {
        assert(long.take(k) =~= long);
    }
}

} // verus!
