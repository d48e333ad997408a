//! The two predefined flow-control scripts, which reset an attached device.
//!
//! Receiving hardware depends on the exact order of the level changes and
//! on the exact delays, so each script is given as text and, proved equal
//! to it, as the list of steps that the text means.

use vstd::prelude::*;
use vstd::string::StringSliceAdditionalSpecFns;
use vstd::string::is_ascii_spec_bytes;
use crate::flow::{
    FlowError, FlowStep, StepFault, lemma_decimal_push, lemma_parse_from, lemma_parse_last,
    parse_flow, spec_parse_flow, spec_step,
};

verus! {

/// The script that a DTR toggle runs.
pub const DTR_TOGGLE_SCRIPT: &'static str = "r1:d0:s1000:d1:r0";

/// The script that an RTS toggle runs.
pub const RTS_TOGGLE_SCRIPT: &'static str = "r0:d0:s100:d1:r0:s100:r1:d0:r1:s100:r0:d0";

/// The steps of the DTR toggle.
pub open spec fn dtr_toggle_flow() -> Seq<FlowStep> {
    seq![
        FlowStep::Rts(true),
        FlowStep::Dtr(false),
        FlowStep::Sleep(1000),
        FlowStep::Dtr(true),
        FlowStep::Rts(false),
    ]
}

/// The steps of the RTS toggle.
pub open spec fn rts_toggle_flow() -> Seq<FlowStep> {
    seq![
        FlowStep::Rts(false),
        FlowStep::Dtr(false),
        FlowStep::Sleep(100),
        FlowStep::Dtr(true),
        FlowStep::Rts(false),
        FlowStep::Sleep(100),
        FlowStep::Rts(true),
        FlowStep::Dtr(false),
        FlowStep::Rts(true),
        FlowStep::Sleep(100),
        FlowStep::Rts(false),
        FlowStep::Dtr(false),
    ]
}

spec fn tok_r0() -> Seq<u8> {
    seq![0x72u8, 0x30u8]
}

spec fn tok_r1() -> Seq<u8> {
    seq![0x72u8, 0x31u8]
}

spec fn tok_d0() -> Seq<u8> {
    seq![0x64u8, 0x30u8]
}

spec fn tok_d1() -> Seq<u8> {
    seq![0x64u8, 0x31u8]
}

spec fn tok_s100() -> Seq<u8> {
    seq![0x73u8, 0x31u8, 0x30u8, 0x30u8]
}

spec fn tok_s1000() -> Seq<u8> {
    seq![0x73u8, 0x31u8, 0x30u8, 0x30u8, 0x30u8]
}

proof fn lemma_signal_tokens()
    ensures
        spec_step(tok_r0()) == Ok::<FlowStep, StepFault>(FlowStep::Rts(false)),
        spec_step(tok_r1()) == Ok::<FlowStep, StepFault>(FlowStep::Rts(true)),
        spec_step(tok_d0()) == Ok::<FlowStep, StepFault>(FlowStep::Dtr(false)),
        spec_step(tok_d1()) == Ok::<FlowStep, StepFault>(FlowStep::Dtr(true)),
{
    let e = Seq::<u8>::empty();
    assert(tok_r0().skip(1) =~= e.push(0x30u8));
    assert(tok_r1().skip(1) =~= e.push(0x31u8));
    assert(tok_d0().skip(1) =~= e.push(0x30u8));
    assert(tok_d1().skip(1) =~= e.push(0x31u8));
    lemma_decimal_push(e, 0x30u8);
    lemma_decimal_push(e, 0x31u8);
}

proof fn lemma_sleep_tokens()
    ensures
        spec_step(tok_s100()) == Ok::<FlowStep, StepFault>(FlowStep::Sleep(100)),
        spec_step(tok_s1000()) == Ok::<FlowStep, StepFault>(FlowStep::Sleep(1000)),
{
    let e = Seq::<u8>::empty();
    let d1 = e.push(0x31u8);
    let d10 = d1.push(0x30u8);
    let d100 = d10.push(0x30u8);
    let d1000 = d100.push(0x30u8);
    assert(tok_s100().skip(1) =~= d100);
    assert(tok_s1000().skip(1) =~= d1000);
    lemma_decimal_push(e, 0x31u8);
    lemma_decimal_push(d1, 0x30u8);
    lemma_decimal_push(d10, 0x30u8);
    lemma_decimal_push(d100, 0x30u8);
}

/// The DTR toggle's text from byte 12 on means its steps from the one numbered 3 on.
proof fn lemma_dtr_toggle_from_3()
    ensures
        spec_parse_flow(DTR_TOGGLE_SCRIPT.spec_bytes().skip(12)) == Ok::<
            Seq<FlowStep>,
            FlowError,
        >(dtr_toggle_flow().skip(3)),
{
    let s = DTR_TOGGLE_SCRIPT.spec_bytes();
    let flow = dtr_toggle_flow();
    reveal_strlit("r1:d0:s1000:d1:r0");
    is_ascii_spec_bytes(DTR_TOGGLE_SCRIPT);
    lemma_signal_tokens();
    lemma_sleep_tokens();
    assert(s.skip(15) =~= tok_r0());
    lemma_parse_last(s, 15, flow);
    assert(s.subrange(12, 14) =~= tok_d1());
    lemma_parse_from(s, 12, 14, flow, 3);
}

/// The text of the DTR toggle means `dtr_toggle_flow`.
pub proof fn lemma_dtr_toggle_script()
    ensures
        spec_parse_flow(DTR_TOGGLE_SCRIPT.spec_bytes()) == Ok::<Seq<FlowStep>, FlowError>(
            dtr_toggle_flow(),
        ),
{
    let s = DTR_TOGGLE_SCRIPT.spec_bytes();
    let flow = dtr_toggle_flow();
    reveal_strlit("r1:d0:s1000:d1:r0");
    is_ascii_spec_bytes(DTR_TOGGLE_SCRIPT);
    lemma_signal_tokens();
    lemma_sleep_tokens();
    lemma_dtr_toggle_from_3();
    assert(s.subrange(6, 11) =~= tok_s1000());
    lemma_parse_from(s, 6, 11, flow, 2);
    assert(s.subrange(3, 5) =~= tok_d0());
    lemma_parse_from(s, 3, 5, flow, 1);
    assert(s.subrange(0, 2) =~= tok_r1());
    lemma_parse_from(s, 0, 2, flow, 0);
    assert(s.skip(0) =~= s);
    assert(flow.skip(0) =~= flow);
}

/// The steps of the DTR toggle, parsed from its text.
pub fn dtr_toggle_steps() -> (steps: Vec<FlowStep>)
    ensures
        steps@ == dtr_toggle_flow(),
{
    proof {
        lemma_dtr_toggle_script();
    }
    parse_flow(DTR_TOGGLE_SCRIPT)
}

/// The RTS toggle's text from byte 31 on means its steps from the one numbered 9 on.
proof fn lemma_rts_toggle_from_9()
    ensures
        spec_parse_flow(RTS_TOGGLE_SCRIPT.spec_bytes().skip(31)) == Ok::<
            Seq<FlowStep>,
            FlowError,
        >(rts_toggle_flow().skip(9)),
{
    let s = RTS_TOGGLE_SCRIPT.spec_bytes();
    let flow = rts_toggle_flow();
    reveal_strlit("r0:d0:s100:d1:r0:s100:r1:d0:r1:s100:r0:d0");
    is_ascii_spec_bytes(RTS_TOGGLE_SCRIPT);
    lemma_signal_tokens();
    lemma_sleep_tokens();
    assert(s.skip(39) =~= tok_d0());
    lemma_parse_last(s, 39, flow);
    assert(s.subrange(36, 38) =~= tok_r0());
    lemma_parse_from(s, 36, 38, flow, 10);
    assert(s.subrange(31, 35) =~= tok_s100());
    lemma_parse_from(s, 31, 35, flow, 9);
}

/// The RTS toggle's text from byte 22 on means its steps from the one numbered 6 on.
proof fn lemma_rts_toggle_from_6()
    ensures
        spec_parse_flow(RTS_TOGGLE_SCRIPT.spec_bytes().skip(22)) == Ok::<
            Seq<FlowStep>,
            FlowError,
        >(rts_toggle_flow().skip(6)),
{
    let s = RTS_TOGGLE_SCRIPT.spec_bytes();
    let flow = rts_toggle_flow();
    reveal_strlit("r0:d0:s100:d1:r0:s100:r1:d0:r1:s100:r0:d0");
    is_ascii_spec_bytes(RTS_TOGGLE_SCRIPT);
    lemma_signal_tokens();
    lemma_sleep_tokens();
    lemma_rts_toggle_from_9();
    assert(s.subrange(28, 30) =~= tok_r1());
    lemma_parse_from(s, 28, 30, flow, 8);
    assert(s.subrange(25, 27) =~= tok_d0());
    lemma_parse_from(s, 25, 27, flow, 7);
    assert(s.subrange(22, 24) =~= tok_r1());
    lemma_parse_from(s, 22, 24, flow, 6);
}

/// The RTS toggle's text from byte 11 on means its steps from the one numbered 3 on.
proof fn lemma_rts_toggle_from_3()
    ensures
        spec_parse_flow(RTS_TOGGLE_SCRIPT.spec_bytes().skip(11)) == Ok::<
            Seq<FlowStep>,
            FlowError,
        >(rts_toggle_flow().skip(3)),
{
    let s = RTS_TOGGLE_SCRIPT.spec_bytes();
    let flow = rts_toggle_flow();
    reveal_strlit("r0:d0:s100:d1:r0:s100:r1:d0:r1:s100:r0:d0");
    is_ascii_spec_bytes(RTS_TOGGLE_SCRIPT);
    lemma_signal_tokens();
    lemma_sleep_tokens();
    lemma_rts_toggle_from_6();
    assert(s.subrange(17, 21) =~= tok_s100());
    lemma_parse_from(s, 17, 21, flow, 5);
    assert(s.subrange(14, 16) =~= tok_r0());
    lemma_parse_from(s, 14, 16, flow, 4);
    assert(s.subrange(11, 13) =~= tok_d1());
    lemma_parse_from(s, 11, 13, flow, 3);
}

/// The text of the RTS toggle means `rts_toggle_flow`.
pub proof fn lemma_rts_toggle_script()
    ensures
        spec_parse_flow(RTS_TOGGLE_SCRIPT.spec_bytes()) == Ok::<Seq<FlowStep>, FlowError>(
            rts_toggle_flow(),
        ),
{
    let s = RTS_TOGGLE_SCRIPT.spec_bytes();
    let flow = rts_toggle_flow();
    reveal_strlit("r0:d0:s100:d1:r0:s100:r1:d0:r1:s100:r0:d0");
    is_ascii_spec_bytes(RTS_TOGGLE_SCRIPT);
    lemma_signal_tokens();
    lemma_sleep_tokens();
    lemma_rts_toggle_from_3();
    assert(s.subrange(6, 10) =~= tok_s100());
    lemma_parse_from(s, 6, 10, flow, 2);
    assert(s.subrange(3, 5) =~= tok_d0());
    lemma_parse_from(s, 3, 5, flow, 1);
    assert(s.subrange(0, 2) =~= tok_r0());
    lemma_parse_from(s, 0, 2, flow, 0);
    assert(s.skip(0) =~= s);
    assert(flow.skip(0) =~= flow);
}

/// The steps of the RTS toggle, parsed from its text.
pub fn rts_toggle_steps() -> (steps: Vec<FlowStep>)
    ensures
        steps@ == rts_toggle_flow(),
{
    proof {
        lemma_rts_toggle_script();
    }
    parse_flow(RTS_TOGGLE_SCRIPT)
}

} // verus!
