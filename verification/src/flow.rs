//! Flow-control scripts: timed sequences of DTR/RTS level changes.
//!
//! A script is text made of steps joined by `:`. Each step is one opcode
//! byte (`d` sets DTR, `r` sets RTS, `s` sleeps) followed by a decimal
//! argument: a level for the signal steps (zero is low, anything else is
//! high), a number of milliseconds for a sleep.

use vstd::prelude::*;
use vstd::string::StringSliceAdditionalSpecFns;
use crate::search::{find_byte, first_index_of, lemma_first_index_of, lemma_first_index_of_is};

verus! {

/// The byte that separates two steps.
pub const STEP_SEPARATOR: u8 = 0x3a;

/// Opcode of a step that sets the data-terminal-ready line.
pub const OP_DTR: u8 = 0x64;

/// Opcode of a step that sets the request-to-send line.
pub const OP_RTS: u8 = 0x72;

/// Opcode of a step that sleeps.
pub const OP_SLEEP: u8 = 0x73;

/// The sign that may stand before the digits of an argument.
pub const PLUS_SIGN: u8 = 0x2b;

/// The digit zero; the other digits follow it.
pub const DIGIT_ZERO: u8 = 0x30;

/// The digit nine.
pub const DIGIT_NINE: u8 = 0x39;

/// One step of a flow-control script.
#[derive(Clone, Copy, Debug, PartialEq, Eq, Structural)]
pub enum FlowStep {
    /// Set the data-terminal-ready line to the level.
    Dtr(bool),
    /// Set the request-to-send line to the level.
    Rts(bool),
    /// Block for the number of milliseconds.
    Sleep(u64),
}

/// What is wrong with a step.
#[derive(Clone, Copy, Debug, PartialEq, Eq, Structural)]
pub enum StepFault {
    /// The step is empty or does not start with `d`, `r` or `s`.
    Opcode,
    /// What follows the opcode is not a decimal number that fits in 64 bits.
    Argument,
}

/// The first malformed step of a script.
#[derive(Clone, Copy, Debug, PartialEq, Eq, Structural)]
pub struct FlowError {
    /// Position of the step in the script, counted from zero.
    pub step: usize,
    /// What is wrong with it.
    pub fault: StepFault,
}

/// Whether `b` is an ASCII decimal digit.
pub open spec fn is_digit(b: u8) -> bool {
    DIGIT_ZERO <= b <= DIGIT_NINE
}

/// Whether every byte of `s` is a decimal digit.
pub open spec fn all_digits(s: Seq<u8>) -> bool {
    forall|i: int| 0 <= i < s.len() ==> is_digit(#[trigger] s[i])
}

/// The number that the decimal digits `s` denote.
pub open spec fn decimal_value(s: Seq<u8>) -> nat
    decreases s.len(),
{
    if s.len() == 0 {
        0
    } else {
        (decimal_value(s.drop_last()) * 10 + (s.last() - DIGIT_ZERO)) as nat
    }
}

/// The digits of an argument: the text itself, without a leading `+`.
pub open spec fn argument_digits(s: Seq<u8>) -> Seq<u8> {
    if s.len() > 0 && s[0] == PLUS_SIGN {
        s.drop_first()
    } else {
        s
    }
}

/// The value of a step's argument: one or more decimal digits, which a
/// single `+` may precede, denoting a number of at most `u64::MAX`.
pub open spec fn spec_argument(s: Seq<u8>) -> Option<u64> {
    let d = argument_digits(s);
    if d.len() > 0 && all_digits(d) && decimal_value(d) <= u64::MAX {
        Some(decimal_value(d) as u64)
    } else {
        None
    }
}

/// The step that a token denotes.
pub open spec fn spec_step(token: Seq<u8>) -> Result<FlowStep, StepFault> {
    if token.len() == 0 || (token[0] != OP_DTR && token[0] != OP_RTS && token[0] != OP_SLEEP) {
        Err(StepFault::Opcode)
    } else {
        match spec_argument(token.skip(1)) {
            None => Err(StepFault::Argument),
            Some(v) => Ok(
                if token[0] == OP_DTR {
                    FlowStep::Dtr(v != 0)
                } else if token[0] == OP_RTS {
                    FlowStep::Rts(v != 0)
                } else {
                    FlowStep::Sleep(v)
                },
            ),
        }
    }
}

/// The tokens of a script: the pieces between separators. A script without
/// a separator is one token, which may be empty.
pub open spec fn script_tokens(s: Seq<u8>) -> Seq<Seq<u8>>
    decreases s.len(),
{
    let i = first_index_of(s, STEP_SEPARATOR);
    if 0 <= i < s.len() {
        seq![s.take(i)] + script_tokens(s.skip(i + 1))
    } else {
        seq![s]
    }
}

/// The steps that a list of tokens denotes, or its first malformed token.
pub open spec fn tokens_steps(tokens: Seq<Seq<u8>>) -> Result<Seq<FlowStep>, FlowError>
    decreases tokens.len(),
{
    if tokens.len() == 0 {
        Ok(Seq::empty())
    } else {
        match tokens_steps(tokens.drop_last()) {
            Err(e) => Err(e),
            Ok(steps) => match spec_step(tokens.last()) {
                Ok(step) => Ok(steps.push(step)),
                Err(fault) => Err(FlowError { step: (tokens.len() - 1) as usize, fault }),
            },
        }
    }
}

/// What a script means: its steps in order, or its first malformed step.
pub open spec fn spec_parse_flow(script: Seq<u8>) -> Result<Seq<FlowStep>, FlowError> {
    tokens_steps(script_tokens(script))
}

/// Whether every step of the script is well formed.
pub open spec fn flow_well_formed(script: Seq<u8>) -> bool {
    spec_parse_flow(script) is Ok
}

/// A digit string's value is at least the value of each of its prefixes.
proof fn lemma_decimal_prefix(s: Seq<u8>, k: int)
    requires
        0 <= k <= s.len(),
        all_digits(s),
    ensures
        decimal_value(s.take(k)) <= decimal_value(s),
    decreases s.len() - k,
{
    if k < s.len() {
        lemma_decimal_prefix(s, k + 1);
        assert(s.take(k + 1).drop_last() =~= s.take(k));
    } else {
        assert(s.take(k) =~= s);
    }
}

/// The value of the decimal argument in `bytes[start..end]`.
fn parse_argument(bytes: &[u8], start: usize, end: usize) -> (r: Option<u64>)
    requires
        start <= end <= bytes@.len(),
    ensures
        r == spec_argument(bytes@.subrange(start as int, end as int)),
{
    let ghost arg = bytes@.subrange(start as int, end as int);
    let mut i = start;
    if i < end && bytes[i] == PLUS_SIGN {
        i += 1;
    }
    let first = i;
    let ghost d = bytes@.subrange(first as int, end as int);
    assert(d =~= argument_digits(arg));
    if i == end {
        return None;
    }
    let mut value: u64 = 0;
    while i < end
        invariant
            first <= i <= end <= bytes@.len(),
            d == bytes@.subrange(first as int, end as int),
            d == argument_digits(bytes@.subrange(start as int, end as int)),
            all_digits(d.take(i - first)),
            value == decimal_value(d.take(i - first)),
        decreases end - i,
    {
        let b = bytes[i];
        let ghost next = d.take(i + 1 - first);
        assert(next.drop_last() =~= d.take(i - first));
        assert(next.last() == b);
        assert(d[i - first] == b);
        if b < DIGIT_ZERO || b > DIGIT_NINE {
            assert(!is_digit(d[i - first]));
            return None;
        }
        let digit: u64 = (b - DIGIT_ZERO) as u64;
        assert(decimal_value(next) == value * 10 + digit);
        if value > (u64::MAX - digit) / 10 {
            proof {
                if all_digits(d) {
                    lemma_decimal_prefix(d, i + 1 - first);
                }
            }
            return None;
        }
        value = value * 10 + digit;
        i += 1;
        assert forall|j: int| 0 <= j < next.len() implies is_digit(#[trigger] next[j]) by {
            if j < next.len() - 1 {
                assert(next[j] == d.take(i - 1 - first)[j]);
            }
        }
    }
    assert(d.take(i - first) =~= d);
    Some(value)
}

/// The step that the token `bytes[start..end]` denotes.
fn parse_step(bytes: &[u8], start: usize, end: usize) -> (r: Result<FlowStep, StepFault>)
    requires
        start <= end <= bytes@.len(),
    ensures
        r == spec_step(bytes@.subrange(start as int, end as int)),
{
    let ghost token = bytes@.subrange(start as int, end as int);
    if start == end {
        return Err(StepFault::Opcode);
    }
    let op = bytes[start];
    assert(token[0] == op);
    if op != OP_DTR && op != OP_RTS && op != OP_SLEEP {
        return Err(StepFault::Opcode);
    }
    assert(token.skip(1) =~= bytes@.subrange(start + 1, end as int));
    match parse_argument(bytes, start + 1, end) {
        None => Err(StepFault::Argument),
        Some(v) => Ok(
            if op == OP_DTR {
                FlowStep::Dtr(v != 0)
            } else if op == OP_RTS {
                FlowStep::Rts(v != 0)
            } else {
                FlowStep::Sleep(v)
            },
        ),
    }
}

/// The tokens of a script are those before a position where a token
/// starts, then those of the rest.
proof fn lemma_tokens_unfold(rest: Seq<u8>)
    ensures
        script_tokens(rest).len() >= 1,
        script_tokens(rest)[0] == rest.take(first_index_of(rest, STEP_SEPARATOR)),
        first_index_of(rest, STEP_SEPARATOR) < rest.len() ==> script_tokens(rest) == seq![
            rest.take(first_index_of(rest, STEP_SEPARATOR)),
        ] + script_tokens(rest.skip(first_index_of(rest, STEP_SEPARATOR) + 1)),
        first_index_of(rest, STEP_SEPARATOR) >= rest.len() ==> script_tokens(rest) == seq![rest],
{
    lemma_first_index_of(rest, STEP_SEPARATOR);
    let i = first_index_of(rest, STEP_SEPARATOR);
    if i >= rest.len() {
        assert(rest.take(i) =~= rest);
    }
}

/// An error among the first tokens is the error of the whole list.
proof fn lemma_tokens_prefix_error(head: Seq<Seq<u8>>, tail: Seq<Seq<u8>>)
    requires
        tokens_steps(head) is Err,
    ensures
        tokens_steps(head + tail) == tokens_steps(head),
    decreases tail.len(),
{
    if tail.len() == 0 {
        assert(head + tail =~= head);
    } else {
        lemma_tokens_prefix_error(head, tail.drop_last());
        assert((head + tail).drop_last() =~= head + tail.drop_last());
    }
}

/// Parses a flow-control script into its steps.
///
/// Returns the steps in the order in which the script gives them, or the
/// first step that is malformed.
pub fn try_parse_flow(flow: &str) -> (r: Result<Vec<FlowStep>, FlowError>)
    ensures
        match r {
            Ok(steps) => spec_parse_flow(flow.spec_bytes()) == Ok::<Seq<FlowStep>, FlowError>(
                steps@,
            ),
            Err(e) => spec_parse_flow(flow.spec_bytes()) == Err::<Seq<FlowStep>, FlowError>(e),
        },
{
    let bytes = flow.as_bytes();
    let n = bytes.len();
    let ghost script = bytes@;
    let mut steps: Vec<FlowStep> = Vec::new();
    let mut start: usize = 0;
    let ghost mut done: Seq<Seq<u8>> = Seq::empty();
    proof {
        assert(script.skip(0) =~= script);
        assert(done + script_tokens(script) =~= script_tokens(script));
    }
    loop
        invariant
            n == bytes@.len(),
            script == bytes@,
            script == flow.spec_bytes(),
            start <= n,
            steps@.len() == done.len(),
            steps@.len() <= start,
            script_tokens(script) == done + script_tokens(script.skip(start as int)),
            tokens_steps(done) == Ok::<Seq<FlowStep>, FlowError>(steps@),
        decreases n - start,
    {
        let end = find_byte(bytes, start, STEP_SEPARATOR);
        let ghost rest = script.skip(start as int);
        let ghost token = script.subrange(start as int, end as int);
        proof {
            lemma_tokens_unfold(rest);
            assert(rest.take(end - start) =~= token);
            assert(script_tokens(rest)[0] == token);
            assert(done.push(token).drop_last() =~= done);
            assert(done.push(token).last() == token);
        }
        match parse_step(bytes, start, end) {
            Err(fault) => {
                proof {
                    assert(tokens_steps(done.push(token)) is Err);
                    lemma_tokens_prefix_error(done.push(token), script_tokens(rest).skip(1));
                    assert(done.push(token) + script_tokens(rest).skip(1) =~= done
                        + script_tokens(rest));
                }
                return Err(FlowError { step: steps.len(), fault });
            },
            Ok(step) => {
                steps.push(step);
            },
        }
        if end == n {
            proof {
                assert(rest =~= token);
                assert(done + script_tokens(rest) =~= done.push(token));
            }
            return Ok(steps);
        }
        proof {
            assert(rest.skip(end - start + 1) =~= script.skip(end + 1));
            assert(done + script_tokens(rest) =~= done.push(token) + script_tokens(
                script.skip(end + 1),
            ));
            done = done.push(token);
        }
        start = end + 1;
    }
}

/// Parses a script whose steps are all well formed.
pub fn parse_flow(flow: &str) -> (steps: Vec<FlowStep>)
    requires
        flow_well_formed(flow.spec_bytes()),
    ensures
        spec_parse_flow(flow.spec_bytes()) == Ok::<Seq<FlowStep>, FlowError>(steps@),
{
    match try_parse_flow(flow) {
        Ok(steps) => steps,
        Err(_) => Vec::new(),
    }
}

/// Whether the separator does not occur in `token`.
pub open spec fn separator_free(token: Seq<u8>) -> bool {
    forall|i: int| 0 <= i < token.len() ==> #[trigger] token[i] != STEP_SEPARATOR
}

/// The steps of a list of tokens that starts with a well-formed one are
/// that token's step, then the steps of the others.
proof fn lemma_tokens_steps_cons(token: Seq<u8>, step: FlowStep, others: Seq<Seq<u8>>)
    requires
        spec_step(token) == Ok::<FlowStep, StepFault>(step),
        tokens_steps(others) is Ok,
    ensures
        tokens_steps(seq![token] + others) == Ok::<Seq<FlowStep>, FlowError>(
            seq![step] + tokens_steps(others)->Ok_0,
        ),
    decreases others.len(),
{
    let all = seq![token] + others;
    assert(tokens_steps(Seq::<Seq<u8>>::empty()) == Ok::<Seq<FlowStep>, FlowError>(Seq::empty()));
    if others.len() == 0 {
        assert(others =~= Seq::<Seq<u8>>::empty());
        assert(all.drop_last() =~= Seq::<Seq<u8>>::empty());
        assert(all.last() == token);
        assert(Seq::<FlowStep>::empty().push(step) =~= seq![step] + tokens_steps(others)->Ok_0);
    } else {
        lemma_tokens_steps_cons(token, step, others.drop_last());
        assert(all.drop_last() =~= seq![token] + others.drop_last());
        assert(all.last() == others.last());
        let before = tokens_steps(others.drop_last())->Ok_0;
        let last = spec_step(others.last())->Ok_0;
        assert((seq![step] + before).push(last) =~= seq![step] + before.push(last));
    }
}

/// Execution order follows the text: a script made of a well-formed step,
/// a separator and a well-formed script means that step, then the steps of
/// the rest.
pub proof fn lemma_parse_cons(token: Seq<u8>, step: FlowStep, rest: Seq<u8>)
    requires
        separator_free(token),
        spec_step(token) == Ok::<FlowStep, StepFault>(step),
        flow_well_formed(rest),
    ensures
        spec_parse_flow(token + seq![STEP_SEPARATOR] + rest) == Ok::<Seq<FlowStep>, FlowError>(
            seq![step] + spec_parse_flow(rest)->Ok_0,
        ),
{
    let s = token + seq![STEP_SEPARATOR] + rest;
    lemma_first_index_of_is(s, STEP_SEPARATOR, token.len() as int);
    assert(s.take(token.len() as int) =~= token);
    assert(s.skip(token.len() as int + 1) =~= rest);
    lemma_tokens_steps_cons(token, step, script_tokens(rest));
}

/// The same, for a step inside a script: where `script[from..to]` is the
/// well-formed step `flow[k]`, a separator follows it, and what follows
/// that means the steps of `flow` after `k`, the script from `from` on
/// means the steps of `flow` from `k` on.
pub proof fn lemma_parse_from(script: Seq<u8>, from: int, to: int, flow: Seq<FlowStep>, k: int)
    requires
        0 <= from <= to < script.len(),
        0 <= k < flow.len(),
        script[to] == STEP_SEPARATOR,
        separator_free(script.subrange(from, to)),
        spec_step(script.subrange(from, to)) == Ok::<FlowStep, StepFault>(flow[k]),
        spec_parse_flow(script.skip(to + 1)) == Ok::<Seq<FlowStep>, FlowError>(flow.skip(k + 1)),
    ensures
        spec_parse_flow(script.skip(from)) == Ok::<Seq<FlowStep>, FlowError>(flow.skip(k)),
{
    let token = script.subrange(from, to);
    let rest = script.skip(to + 1);
    lemma_parse_cons(token, flow[k], rest);
    assert(script.skip(from) =~= token + seq![STEP_SEPARATOR] + rest);
    assert(seq![flow[k]] + flow.skip(k + 1) =~= flow.skip(k));
}

/// The end of a script: where `script[from..]` is the well-formed step that
/// is the last of `flow`, the script from `from` on means that step.
pub proof fn lemma_parse_last(script: Seq<u8>, from: int, flow: Seq<FlowStep>)
    requires
        0 <= from <= script.len(),
        flow.len() > 0,
        separator_free(script.skip(from)),
        spec_step(script.skip(from)) == Ok::<FlowStep, StepFault>(flow.last()),
    ensures
        spec_parse_flow(script.skip(from)) == Ok::<Seq<FlowStep>, FlowError>(
            flow.skip(flow.len() - 1),
        ),
{
    lemma_parse_single(script.skip(from), flow.last());
    assert(seq![flow.last()] =~= flow.skip(flow.len() - 1));
}

/// A script that is one well-formed step means that step.
pub proof fn lemma_parse_single(token: Seq<u8>, step: FlowStep)
    requires
        separator_free(token),
        spec_step(token) == Ok::<FlowStep, StepFault>(step),
    ensures
        spec_parse_flow(token) == Ok::<Seq<FlowStep>, FlowError>(seq![step]),
{
    lemma_first_index_of_is(token, STEP_SEPARATOR, token.len() as int);
    assert(tokens_steps(Seq::<Seq<u8>>::empty()) == Ok::<Seq<FlowStep>, FlowError>(Seq::empty()));
    assert(seq![token].drop_last() =~= Seq::<Seq<u8>>::empty());
    assert(seq![token].last() == token);
    assert(Seq::<FlowStep>::empty().push(step) =~= seq![step]);
}

/// Appending a digit multiplies the value by ten and adds the digit.
pub proof fn lemma_decimal_push(s: Seq<u8>, b: u8)
    requires
        is_digit(b),
    ensures
        decimal_value(s.push(b)) == decimal_value(s) * 10 + (b - DIGIT_ZERO),
{
    assert(s.push(b).drop_last() =~= s);
}

} // verus!
