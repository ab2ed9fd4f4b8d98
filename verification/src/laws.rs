use vstd::prelude::*;
use crate::errors::EvalError;
use crate::eval::{
    start_model, step_model, resume_model, status_of, BinOp, EvaluationV, FrameV, ModeV, Status,
    UnOp, ZERO_BITS, near_zero_spec,
};
use crate::term::TermV;

verus! {

broadcast use vstd::seq::group_seq_axioms;

/// A constant reduces to itself: with no binding table at all, the machine
/// started on `Constant(b)` finishes after its two internal transitions with
/// exactly the value `b`, asking the driver for nothing on the way.
pub proof fn lemma_constant_reduces(b: u64)
    ensures
        step_model(step_model(start_model(TermV::Constant(b), None))).mode == ModeV::Done(b),
{
}

/// Evaluating a bare variable against a table that does not bind its symbol
/// fails with `UnboundVariable`, naming that symbol, on the first transition.
pub proof fn lemma_unbound_variable(sym: char, tbl: Map<char, u64>)
    requires
        !tbl.contains_key(sym),
    ensures
        step_model(start_model(TermV::Variable(sym), Some(tbl))).mode == ModeV::Failed(
            EvalError::UnboundVariable(sym),
        ),
{
}

/// Evaluating a bare variable with no binding table at all fails with
/// `MissingBindings`, naming that symbol, on the first transition.
pub proof fn lemma_missing_bindings(sym: char)
    ensures
        step_model(start_model(TermV::Variable(sym), None)).mode == ModeV::Failed(
            EvalError::MissingBindings(sym),
        ),
{
}

/// The division-by-near-zero guard: a quotient of two constants whose second
/// constant is below the near-zero threshold fails with `DivisionByZero` —
/// whatever value `r` the driver returned for the initial division of the
/// first constant by itself — instead of asking the driver to divide.
pub proof fn lemma_division_by_near_zero(a: u64, z: u64, r: u64)
    requires
        !near_zero_spec(a),
        near_zero_spec(z),
    ensures
        ({
            let m0 = start_model(
                TermV::Quotient(seq![TermV::Constant(a), TermV::Constant(z)]),
                None,
            );
            let paused = step_model(
                step_model(step_model(step_model(step_model(m0)))),
            );
            status_of(paused) == Status::NeedBin(BinOp::Div, a, a) && step_model(
                step_model(resume_model(paused, r)),
            ).mode == ModeV::Failed(EvalError::DivisionByZero)
        }),
{
    let cs = seq![TermV::Constant(a), TermV::Constant(z)];
    let m0 = start_model(TermV::Quotient(cs), None);
    let m1 = step_model(m0);
    assert(m1.mode == ModeV::Descend(cs[0]));
    let m2 = step_model(m1);
    assert(m2.mode == ModeV::Return(a));
    let m3 = step_model(m2);
    assert(m3.mode == ModeV::Descend(cs[0]));
    let m4 = step_model(m3);
    assert(m4.mode == ModeV::Return(a));
    let m5 = step_model(m4);
    assert(m5.mode == ModeV::PendingBin(BinOp::Div, a, a));
    let m6 = resume_model(m5, r);
    assert(m6.mode == ModeV::Descend(cs[1]));
    let m7 = step_model(m6);
    assert(m7.mode == ModeV::Return(z));
    let m8 = step_model(m7);
    assert(m8.mode == ModeV::Failed(EvalError::DivisionByZero));
}

/// Left-to-right accumulation of a sum of two constants: the machine asks
/// first for `0 + a`, then — whatever answer `r1` the driver gave — for
/// `r1 + b`, and finishes with the driver's second answer `r2`.
pub proof fn lemma_sum_of_two_constants(a: u64, b: u64, r1: u64, r2: u64)
    ensures
        ({
            let m0 = start_model(
                TermV::Sum(seq![TermV::Constant(a), TermV::Constant(b)]),
                None,
            );
            let first = step_model(step_model(step_model(m0)));
            status_of(first) == Status::NeedBin(BinOp::Add, ZERO_BITS, a) && ({
                let second = step_model(step_model(resume_model(first, r1)));
                status_of(second) == Status::NeedBin(BinOp::Add, r1, b) && step_model(
                    resume_model(second, r2),
                ).mode == ModeV::Done(r2)
            })
        }),
{
    let cs = seq![TermV::Constant(a), TermV::Constant(b)];
    let m0 = start_model(TermV::Sum(cs), None);
    let m1 = step_model(m0);
    assert(m1.mode == ModeV::Descend(cs[0]));
    let m2 = step_model(m1);
    let m3 = step_model(m2);
    assert(m3.mode == ModeV::PendingBin(BinOp::Add, ZERO_BITS, a));
    let m4 = resume_model(m3, r1);
    assert(m4.mode == ModeV::Descend(cs[1]));
    let m5 = step_model(m4);
    let m6 = step_model(m5);
    assert(m6.mode == ModeV::PendingBin(BinOp::Add, r1, b));
    let m7 = resume_model(m6, r2);
    assert(m7.mode == ModeV::Return(r2));
    let m8 = step_model(m7);
    assert(m8.mode == ModeV::Done(r2));
}

/// A trigonometric wrapper delegates exactly one application to the driver:
/// evaluating `Sine(Constant(b))` pauses asking for the sine of `b`, and
/// finishes with precisely the value the driver hands back.
pub proof fn lemma_sine_of_constant(b: u64, r: u64)
    ensures
        ({
            let m0 = start_model(TermV::Sine(Box::new(TermV::Constant(b))), None);
            let paused = step_model(step_model(step_model(m0)));
            status_of(paused) == Status::NeedUn(UnOp::Sine, b) && step_model(
                resume_model(paused, r),
            ).mode == ModeV::Done(r)
        }),
{
    let m0 = start_model(TermV::Sine(Box::new(TermV::Constant(b))), None);
    let m1 = step_model(m0);
    let m2 = step_model(m1);
    let m3 = step_model(m2);
    assert(m3.mode == ModeV::PendingUn(UnOp::Sine, b));
    let m4 = resume_model(m3, r);
    assert(m4.mode == ModeV::Return(r));
    let m5 = step_model(m4);
    assert(m5.mode == ModeV::Done(r));
}


/// The machine state that is about to evaluate child `k` of a sum, with
/// accumulator `acc` and nothing else on the stack.
pub open spec fn sum_round_state(cs: Seq<TermV>, k: int, acc: u64) -> EvaluationV {
    EvaluationV {
        frames: seq![(FrameV::Sum { children: cs, idx: k, acc: acc })],
        mode: ModeV::Descend(cs[k]),
        bindings: None,
    }
}

/// What one accumulation round of a sum of constants does; see
/// `lemma_sum_round`.
pub open spec fn sum_round_holds(cs: Seq<TermV>, k: int, acc: u64, r: u64) -> bool {
    let paused = step_model(step_model(sum_round_state(cs, k, acc)));
    &&& status_of(paused) == Status::NeedBin(BinOp::Add, acc, cs[k]->Constant_0)
    &&& k + 1 < cs.len() ==> resume_model(paused, r) == sum_round_state(cs, k + 1, r)
    &&& k + 1 == cs.len() ==> step_model(resume_model(paused, r)).mode == ModeV::Done(r)
}

/// One accumulation round of a sum of constants, at any position `k` and
/// with any accumulator `acc`: the machine evaluating child `k` pauses
/// asking for `acc + c` where `c` is that constant, and — whatever answer
/// `r` the driver gives — moves on to child `k + 1` with accumulator `r`,
/// or finishes with `r` when no child is left. Chaining this round from the
/// first child to the last gives the left-to-right accumulation of a sum of
/// any width; differences, products and quotients follow the same shape
/// through `step_model` and `resume_model`.
pub proof fn lemma_sum_round(cs: Seq<TermV>, k: int, acc: u64, r: u64)
    requires
        0 <= k < cs.len(),
        (cs[k] is Constant),
    ensures
        sum_round_holds(cs, k, acc, r),
{
    let fr = FrameV::Sum { children: cs, idx: k, acc: acc };
    let m = sum_round_state(cs, k, acc);
    let m1 = step_model(m);
    assert(m1.mode == ModeV::Return(cs[k]->Constant_0));
    let m2 = step_model(m1);
    assert(m2.frames.last() == fr);
    assert(m2.mode == ModeV::PendingBin(BinOp::Add, acc, cs[k]->Constant_0));
    let m3 = resume_model(m2, r);
    if k + 1 < cs.len() {
        assert(m2.frames.drop_last() =~= Seq::<FrameV>::empty());
        assert(m3.frames =~= seq![(FrameV::Sum { children: cs, idx: k + 1, acc: r })]);
        assert(m3 =~= sum_round_state(cs, k + 1, r));
    } else {
        assert(m2.frames.drop_last() =~= Seq::<FrameV>::empty());
        assert(m3.mode == ModeV::Return(r));
        assert(step_model(m3).mode == ModeV::Done(r));
    }
}

} // verus!
