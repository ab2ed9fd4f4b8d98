use vstd::prelude::*;
use crate::bindings::Bindings;
use crate::errors::EvalError;
use crate::term::{Term, TermV, views};

verus! {

broadcast use vstd::seq::group_seq_axioms;

/// The bit pattern of the double-precision number zero, the starting
/// accumulator of a sum.
pub const ZERO_BITS: u64 = 0;

/// The bit pattern of the double-precision number one, the starting
/// accumulator of a product.
pub const ONE_BITS: u64 = 0x3FF0_0000_0000_0000;

/// All bits of a double-precision pattern except the sign bit.
pub const ABS_MASK: u64 = 0x7FFF_FFFF_FFFF_FFFF;

/// The bit pattern of the near-zero threshold under which a divisor is
/// rejected. It is the pattern of the decimal value
/// 0.00000000000000001.
pub const NEAR_ZERO_BOUND: u64 = 0x3C67_0EF5_4646_D497;

/// Whether the double-precision number with bit pattern `bits` has a
/// magnitude below the near-zero threshold. For patterns with the sign bit
/// cleared, the ordering of finite doubles agrees with the ordering of their
/// bit patterns, and every not-a-number pattern compares above the threshold
/// pattern, so masking the sign bit and comparing patterns decides the
/// magnitude test exactly (not-a-number divisors are not near zero).
pub open spec fn near_zero_spec(bits: u64) -> bool {
    (bits & ABS_MASK) < NEAR_ZERO_BOUND
}

/// Whether a divisor with this bit pattern is rejected by the
/// division-by-near-zero guard.
pub fn near_zero(bits: u64) -> (r: bool)
    ensures
        r == near_zero_spec(bits),
{
    (bits & ABS_MASK) < NEAR_ZERO_BOUND
}

/// The arithmetic the machine asks its driver to perform on two values.
#[derive(Clone, Copy, Debug, PartialEq, Eq, Structural)]
pub enum BinOp {
    /// Addition, accumulating a sum.
    Add,
    /// Subtraction, accumulating a difference.
    Sub,
    /// Multiplication, accumulating a product.
    Mul,
    /// Division, accumulating a quotient; the divisor has already passed the
    /// near-zero guard.
    Div,
}

/// The trigonometric function the machine asks its driver to apply.
#[derive(Clone, Copy, Debug, PartialEq, Eq, Structural)]
pub enum UnOp {
    /// The sine, in radians.
    Sine,
    /// The cosine, in radians.
    Cosine,
    /// The tangent, in radians.
    Tangent,
    /// The inverse sine.
    ArcSine,
    /// The inverse cosine.
    ArcCosine,
    /// The inverse tangent.
    ArcTangent,
}

/// A suspended composite node: the children still to be walked, the position
/// of the child currently being evaluated, and the accumulator so far.
enum Frame {
    Sum { children: Vec<Term>, idx: usize, acc: u64 },
    Difference { children: Vec<Term>, idx: usize, acc: u64 },
    Product { children: Vec<Term>, idx: usize, acc: u64 },
    Quotient { children: Vec<Term>, idx: usize, acc: u64, first_done: bool },
    Unary { op: UnOp },
}

/// The model of a suspended composite node.
#[verifier::ext_equal]
pub enum FrameV {
    Sum { children: Seq<TermV>, idx: int, acc: u64 },
    Difference { children: Seq<TermV>, idx: int, acc: u64 },
    Product { children: Seq<TermV>, idx: int, acc: u64 },
    Quotient { children: Seq<TermV>, idx: int, acc: u64, first_done: bool },
    Unary { op: UnOp },
}

impl View for Frame {
    type V = FrameV;

    closed spec fn view(&self) -> FrameV {
        match self {
            Frame::Sum { children, idx, acc } => (FrameV::Sum {
                children: views(children@),
                idx: *idx as int,
                acc: *acc,
            }),
            Frame::Difference { children, idx, acc } => (FrameV::Difference {
                children: views(children@),
                idx: *idx as int,
                acc: *acc,
            }),
            Frame::Product { children, idx, acc } => (FrameV::Product {
                children: views(children@),
                idx: *idx as int,
                acc: *acc,
            }),
            Frame::Quotient { children, idx, acc, first_done } => (FrameV::Quotient {
                children: views(children@),
                idx: *idx as int,
                acc: *acc,
                first_done: *first_done,
            }),
            Frame::Unary { op } => (FrameV::Unary { op: *op }),
        }
    }
}

/// What the machine is doing between observable pauses.
enum Mode {
    Descend(Term),
    Return(u64),
    PendingBin(BinOp, u64, u64),
    PendingUn(UnOp, u64),
    Done(u64),
    Failed(EvalError),
}

/// The model of what the machine is doing.
#[verifier::ext_equal]
pub enum ModeV {
    /// About to evaluate this term.
    Descend(TermV),
    /// A subterm's value is travelling back to the enclosing frame.
    Return(u64),
    /// Waiting for the driver to combine two values.
    PendingBin(BinOp, u64, u64),
    /// Waiting for the driver to apply a trigonometric function.
    PendingUn(UnOp, u64),
    /// Evaluation succeeded with this value.
    Done(u64),
    /// Evaluation failed; no value will be produced.
    Failed(EvalError),
}

impl View for Mode {
    type V = ModeV;

    closed spec fn view(&self) -> ModeV {
        match self {
            Mode::Descend(t) => ModeV::Descend(t@),
            Mode::Return(v) => ModeV::Return(*v),
            Mode::PendingBin(op, a, b) => ModeV::PendingBin(*op, *a, *b),
            Mode::PendingUn(op, a) => ModeV::PendingUn(*op, *a),
            Mode::Done(v) => ModeV::Done(*v),
            Mode::Failed(e) => ModeV::Failed(*e),
        }
    }
}

/// The model of a whole machine: the frame stack, the current mode, and the
/// binding table (or `None` for constants-only evaluation).
#[verifier::ext_equal]
pub struct EvaluationV {
    pub frames: Seq<FrameV>,
    pub mode: ModeV,
    pub bindings: Option<Map<char, u64>>,
}

/// A resumable evaluation of a term: it walks the tree depth first, left to
/// right, exactly as the recursive evaluation contract prescribes, and pauses
/// whenever an arithmetic operation on values is due, handing the operands to
/// the caller and resuming with the caller's result. Everything except the
/// arithmetic itself — the walk order, the variable lookups, the near-zero
/// guard, and the error rules — happens inside the machine.
pub struct Evaluation {
    frames: Vec<Frame>,
    mode: Mode,
    bindings: Option<Bindings>,
}

impl View for Evaluation {
    type V = EvaluationV;

    closed spec fn view(&self) -> EvaluationV {
        EvaluationV {
            frames: Seq::new(self.frames@.len(), |i: int| self.frames@[i]@),
            mode: self.mode@,
            bindings: match self.bindings {
                Option::None => None,
                Option::Some(b) => Some(b@),
            },
        }
    }
}

/// What a caller observes of a machine, and what it must do next.
#[derive(Clone, Copy, Debug, PartialEq, Eq, Structural)]
pub enum Status {
    /// The machine has internal work left: call `step`.
    Running,
    /// The machine needs `op` applied to the two values with these bit
    /// patterns: compute and call `resume` with the result.
    NeedBin(BinOp, u64, u64),
    /// The machine needs `op` applied to the value with this bit pattern:
    /// compute and call `resume` with the result.
    NeedUn(UnOp, u64),
    /// Evaluation succeeded with the value with this bit pattern.
    Done(u64),
    /// Evaluation failed.
    Failed(EvalError),
}

/// The status determined by a machine model.
pub open spec fn status_of(m: EvaluationV) -> Status {
    match m.mode {
        ModeV::Descend(_) => Status::Running,
        ModeV::Return(_) => Status::Running,
        ModeV::PendingBin(op, a, b) => Status::NeedBin(op, a, b),
        ModeV::PendingUn(op, a) => Status::NeedUn(op, a),
        ModeV::Done(v) => Status::Done(v),
        ModeV::Failed(e) => Status::Failed(e),
    }
}

/// Whether the machine has internal work left, so that `step` applies.
pub open spec fn is_running(m: EvaluationV) -> bool {
    m.mode is Descend || m.mode is Return
}

/// Whether the machine waits for the driver, so that `resume` applies.
pub open spec fn is_pending(m: EvaluationV) -> bool {
    m.mode is PendingBin || m.mode is PendingUn
}

/// Well-formedness of a frame that sits on the stack: the current position
/// is inside the child list, every child is a well-formed term, and a
/// quotient that has not finished its first pass is still at position zero.
pub open spec fn frame_wf(f: FrameV) -> bool {
    match f {
        FrameV::Sum { children, idx, acc } => 0 <= idx < children.len() && forall|i: int|
            0 <= i < children.len() ==> (#[trigger] children[i]).wf(),
        FrameV::Difference { children, idx, acc } => 0 <= idx < children.len() && forall|i: int|
            0 <= i < children.len() ==> (#[trigger] children[i]).wf(),
        FrameV::Product { children, idx, acc } => 0 <= idx < children.len() && forall|i: int|
            0 <= i < children.len() ==> (#[trigger] children[i]).wf(),
        FrameV::Quotient { children, idx, acc, first_done } => 0 <= idx < children.len()
            && (!first_done ==> idx == 0) && forall|i: int|
            0 <= i < children.len() ==> (#[trigger] children[i]).wf(),
        FrameV::Unary { op } => true,
    }
}

/// The machine invariant: every suspended frame is well-formed, a term about
/// to be evaluated is well-formed, and a pending operation has a frame to
/// report to (a two-value operation reports to a composite frame past its
/// first pass).
pub open spec fn wf_machine(m: EvaluationV) -> bool {
    (forall|k: int| 0 <= k < m.frames.len() ==> frame_wf(#[trigger] m.frames[k])) && match m.mode {
        ModeV::Descend(t) => t.wf(),
        ModeV::PendingBin(op, a, b) => m.frames.len() > 0 && (m.frames.last() matches
            FrameV::Quotient { first_done, .. } ==> first_done),
        ModeV::PendingUn(op, a) => m.frames.len() > 0 && m.frames.last() is Unary,
        _ => true,
    }
}

/// The machine that begins the evaluation of a term.
pub open spec fn start_model(t: TermV, bindings: Option<Map<char, u64>>) -> EvaluationV {
    EvaluationV { frames: Seq::empty(), mode: ModeV::Descend(t), bindings: bindings }
}

/// One internal transition from a `Descend` mode: leaves resolve at once,
/// composites push a frame and descend into their first child, empty sums
/// and products resolve to their starting accumulator.
pub open spec fn descend_model(m: EvaluationV, t: TermV) -> EvaluationV {
    match t {
        TermV::Constant(b) => EvaluationV { mode: ModeV::Return(b), ..m },
        TermV::Variable(sym) => match m.bindings {
            Option::None => EvaluationV {
                mode: ModeV::Failed(EvalError::MissingBindings(sym)),
                ..m
            },
            Option::Some(tbl) => if tbl.contains_key(sym) {
                EvaluationV { mode: ModeV::Return(tbl[sym]), ..m }
            } else {
                EvaluationV { mode: ModeV::Failed(EvalError::UnboundVariable(sym)), ..m }
            },
        },
        TermV::Sum(cs) => if cs.len() == 0 {
            EvaluationV { mode: ModeV::Return(ZERO_BITS), ..m }
        } else {
            EvaluationV {
                frames: m.frames.push(FrameV::Sum { children: cs, idx: 0, acc: ZERO_BITS }),
                mode: ModeV::Descend(cs[0]),
                ..m
            }
        },
        TermV::Difference(cs) => EvaluationV {
            frames: m.frames.push(FrameV::Difference { children: cs, idx: 0, acc: ZERO_BITS }),
            mode: ModeV::Descend(cs[0]),
            ..m
        },
        TermV::Product(cs) => if cs.len() == 0 {
            EvaluationV { mode: ModeV::Return(ONE_BITS), ..m }
        } else {
            EvaluationV {
                frames: m.frames.push(FrameV::Product { children: cs, idx: 0, acc: ONE_BITS }),
                mode: ModeV::Descend(cs[0]),
                ..m
            }
        },
        TermV::Quotient(cs) => EvaluationV {
            frames: m.frames.push(
                FrameV::Quotient { children: cs, idx: 0, acc: ZERO_BITS, first_done: false },
            ),
            mode: ModeV::Descend(cs[0]),
            ..m
        },
        TermV::Sine(t1) => EvaluationV {
            frames: m.frames.push(FrameV::Unary { op: UnOp::Sine }),
            mode: ModeV::Descend(*t1),
            ..m
        },
        TermV::Cosine(t1) => EvaluationV {
            frames: m.frames.push(FrameV::Unary { op: UnOp::Cosine }),
            mode: ModeV::Descend(*t1),
            ..m
        },
        TermV::Tangent(t1) => EvaluationV {
            frames: m.frames.push(FrameV::Unary { op: UnOp::Tangent }),
            mode: ModeV::Descend(*t1),
            ..m
        },
        TermV::ArcSine(t1) => EvaluationV {
            frames: m.frames.push(FrameV::Unary { op: UnOp::ArcSine }),
            mode: ModeV::Descend(*t1),
            ..m
        },
        TermV::ArcCosine(t1) => EvaluationV {
            frames: m.frames.push(FrameV::Unary { op: UnOp::ArcCosine }),
            mode: ModeV::Descend(*t1),
            ..m
        },
        TermV::ArcTangent(t1) => EvaluationV {
            frames: m.frames.push(FrameV::Unary { op: UnOp::ArcTangent }),
            mode: ModeV::Descend(*t1),
            ..m
        },
    }
}

/// One internal transition from a `Return` mode: an empty stack finishes the
/// run; otherwise the value reaches the top frame, which asks the driver for
/// the next arithmetic operation, or moves to its next child, or — for a
/// difference's or quotient's first pass — stores the value directly. A
/// quotient checks every divisor against the near-zero guard before asking
/// for the division.
pub open spec fn return_model(m: EvaluationV, v: u64) -> EvaluationV {
    if m.frames.len() == 0 {
        EvaluationV { mode: ModeV::Done(v), ..m }
    } else {
        let fr = m.frames.last();
        let popped = m.frames.drop_last();
        match fr {
            FrameV::Sum { children, idx, acc } => EvaluationV {
                mode: ModeV::PendingBin(BinOp::Add, acc, v),
                ..m
            },
            FrameV::Product { children, idx, acc } => EvaluationV {
                mode: ModeV::PendingBin(BinOp::Mul, acc, v),
                ..m
            },
            FrameV::Difference { children, idx, acc } => if idx == 0 {
                if children.len() == 1 {
                    EvaluationV { frames: popped, mode: ModeV::Return(v), ..m }
                } else {
                    EvaluationV {
                        frames: popped.push(
                            FrameV::Difference { children: children, idx: 1, acc: v },
                        ),
                        mode: ModeV::Descend(children[1]),
                        ..m
                    }
                }
            } else {
                EvaluationV { mode: ModeV::PendingBin(BinOp::Sub, acc, v), ..m }
            },
            FrameV::Quotient { children, idx, acc, first_done } => if !first_done {
                EvaluationV {
                    frames: popped.push(
                        FrameV::Quotient { children: children, idx: 0, acc: v, first_done: true },
                    ),
                    mode: ModeV::Descend(children[0]),
                    ..m
                }
            } else if near_zero_spec(v) {
                EvaluationV {
                    frames: popped,
                    mode: ModeV::Failed(EvalError::DivisionByZero),
                    ..m
                }
            } else {
                EvaluationV { mode: ModeV::PendingBin(BinOp::Div, acc, v), ..m }
            },
            FrameV::Unary { op } => EvaluationV { mode: ModeV::PendingUn(op, v), ..m },
        }
    }
}

/// One internal transition: what `step` does to a running machine.
pub open spec fn step_model(m: EvaluationV) -> EvaluationV {
    match m.mode {
        ModeV::Descend(t) => descend_model(m, t),
        ModeV::Return(v) => return_model(m, v),
        _ => m,
    }
}

/// The transition made when the driver hands back the result `r` of the
/// pending operation: the top frame stores it as its new accumulator and
/// either descends into its next child or, when no child is left, returns
/// the accumulator to the frame below.
pub open spec fn resume_model(m: EvaluationV, r: u64) -> EvaluationV {
    match m.mode {
        ModeV::PendingBin(op, a, b) => if m.frames.len() == 0 {
            EvaluationV { mode: ModeV::Return(r), ..m }
        } else {
            let fr = m.frames.last();
            let popped = m.frames.drop_last();
            match fr {
                FrameV::Sum { children, idx, acc } => if idx + 1 < children.len() {
                    EvaluationV {
                        frames: popped.push(
                            FrameV::Sum { children: children, idx: idx + 1, acc: r },
                        ),
                        mode: ModeV::Descend(children[idx + 1]),
                        ..m
                    }
                } else {
                    EvaluationV { frames: popped, mode: ModeV::Return(r), ..m }
                },
                FrameV::Difference { children, idx, acc } => if idx + 1 < children.len() {
                    EvaluationV {
                        frames: popped.push(
                            FrameV::Difference { children: children, idx: idx + 1, acc: r },
                        ),
                        mode: ModeV::Descend(children[idx + 1]),
                        ..m
                    }
                } else {
                    EvaluationV { frames: popped, mode: ModeV::Return(r), ..m }
                },
                FrameV::Product { children, idx, acc } => if idx + 1 < children.len() {
                    EvaluationV {
                        frames: popped.push(
                            FrameV::Product { children: children, idx: idx + 1, acc: r },
                        ),
                        mode: ModeV::Descend(children[idx + 1]),
                        ..m
                    }
                } else {
                    EvaluationV { frames: popped, mode: ModeV::Return(r), ..m }
                },
                FrameV::Quotient { children, idx, acc, first_done } => if idx + 1
                    < children.len() {
                    EvaluationV {
                        frames: popped.push(
                            FrameV::Quotient {
                                children: children,
                                idx: idx + 1,
                                acc: r,
                                first_done: first_done,
                            },
                        ),
                        mode: ModeV::Descend(children[idx + 1]),
                        ..m
                    }
                } else {
                    EvaluationV { frames: popped, mode: ModeV::Return(r), ..m }
                },
                FrameV::Unary { op } => EvaluationV {
                    frames: popped,
                    mode: ModeV::Return(r),
                    ..m
                },
            }
        },
        ModeV::PendingUn(op, a) => if m.frames.len() == 0 {
            EvaluationV { mode: ModeV::Return(r), ..m }
        } else {
            EvaluationV { frames: m.frames.drop_last(), mode: ModeV::Return(r), ..m }
        },
        _ => m,
    }
}

impl Term {
    /// Begins the evaluation of this term against the given binding table.
    /// The caller then drives the returned machine: `step` while it is
    /// running, and `resume` with the result of each requested operation.
    pub fn evaluate(&self, values: &Bindings) -> (m: Evaluation)
        requires
            self@.wf(),
        ensures
            m@ == start_model(self@, Some(values@)),
            wf_machine(m@),
    {
        let m = Evaluation {
            frames: Vec::new(),
            mode: Mode::Descend(self.clone()),
            bindings: Some(values.duplicate()),
        };
        proof {
            assert(m@ =~= start_model(self@, Some(values@)));
        }
        m
    }

    /// Begins the evaluation of this term with no binding table at all:
    /// valid for variable-free terms, and any variable reached makes the run
    /// fail with `MissingBindings`.
    pub fn reduce(&self) -> (m: Evaluation)
        requires
            self@.wf(),
        ensures
            m@ == start_model(self@, None),
            wf_machine(m@),
    {
        let m = Evaluation {
            frames: Vec::new(),
            mode: Mode::Descend(self.clone()),
            bindings: None,
        };
        proof {
            assert(m@ =~= start_model(self@, None));
        }
        m
    }
}

impl Evaluation {
    /// What the machine needs from its caller now.
    pub fn status(&self) -> (s: Status)
        ensures
            s == status_of(self@),
    {
        match &self.mode {
            Mode::Descend(_) => Status::Running,
            Mode::Return(_) => Status::Running,
            Mode::PendingBin(op, a, b) => Status::NeedBin(*op, *a, *b),
            Mode::PendingUn(op, a) => Status::NeedUn(*op, *a),
            Mode::Done(v) => Status::Done(*v),
            Mode::Failed(e) => Status::Failed(*e),
        }
    }

    /// Performs one internal transition of a running machine.
    pub fn step(&mut self)
        requires
            wf_machine(old(self)@),
            is_running(old(self)@),
        ensures
            final(self)@ == step_model(old(self)@),
            wf_machine(final(self)@),
    {
        let mut taken = Mode::Return(0);
        core::mem::swap(&mut self.mode, &mut taken);
        match taken {
            Mode::Descend(t) => {
                proof {
                    assert((EvaluationV { mode: ModeV::Descend(t@), ..self@ }) =~= old(self)@);
                }
                self.step_descend(t);
            },
            Mode::Return(v) => {
                proof {
                    assert((EvaluationV { mode: ModeV::Return(v), ..self@ }) =~= old(self)@);
                }
                self.step_return(v);
            },
            other => {
                self.mode = other;
                proof {
                    assert(self@ =~= old(self)@);
                }
            },
        }
    }

    /// Handles one `Descend` transition; see `descend_model`.
    fn step_descend(&mut self, t: Term)
        requires
            wf_machine(
                EvaluationV {
                    mode: ModeV::Descend(t@),
                    ..old(self)@
                },
            ),
            old(self).mode@ == ModeV::Return(0u64),
        ensures
            final(self)@ == descend_model(
                EvaluationV { mode: ModeV::Descend(t@), ..old(self)@ },
                t@,
            ),
            wf_machine(final(self)@),
    {
        let ghost m0 = EvaluationV { mode: ModeV::Descend(t@), ..self@ };
        match t {
            Term::Constant(b) => {
                self.mode = Mode::Return(b);
                proof {
                    assert(self@ =~= descend_model(m0, m0.mode->Descend_0));
                }
            },
            Term::Variable(v) => {
                match &self.bindings {
                    Option::None => {
                        self.mode = Mode::Failed(EvalError::MissingBindings(v.symbol));
                    },
                    Option::Some(tbl) => {
                        match tbl.get(v.symbol) {
                            Option::Some(val) => {
                                self.mode = Mode::Return(val);
                            },
                            Option::None => {
                                self.mode = Mode::Failed(EvalError::UnboundVariable(v.symbol));
                            },
                        }
                    },
                }
                proof {
                    assert(self@ =~= descend_model(m0, m0.mode->Descend_0));
                }
            },
            Term::Sum(children) => {
                proof {
                    crate::term::lemma_views_len(children@);
                }
                if children.len() == 0 {
                    self.mode = Mode::Return(ZERO_BITS);
                } else {
                    let c = children[0].clone();
                    proof {
                        crate::term::lemma_views_index(children@, 0);
                    }
                    self.frames.push(Frame::Sum { children, idx: 0, acc: ZERO_BITS });
                    self.mode = Mode::Descend(c);
                }
                proof {
                    assert(self@ =~= descend_model(m0, m0.mode->Descend_0));
                }
            },
            Term::Difference(children) => {
                proof {
                    crate::term::lemma_views_len(children@);
                }
                let c = children[0].clone();
                proof {
                    crate::term::lemma_views_index(children@, 0);
                }
                self.frames.push(Frame::Difference { children, idx: 0, acc: ZERO_BITS });
                self.mode = Mode::Descend(c);
                proof {
                    assert(self@ =~= descend_model(m0, m0.mode->Descend_0));
                }
            },
            Term::Product(children) => {
                proof {
                    crate::term::lemma_views_len(children@);
                }
                if children.len() == 0 {
                    self.mode = Mode::Return(ONE_BITS);
                } else {
                    let c = children[0].clone();
                    proof {
                        crate::term::lemma_views_index(children@, 0);
                    }
                    self.frames.push(Frame::Product { children, idx: 0, acc: ONE_BITS });
                    self.mode = Mode::Descend(c);
                }
                proof {
                    assert(self@ =~= descend_model(m0, m0.mode->Descend_0));
                }
            },
            Term::Quotient(children) => {
                proof {
                    crate::term::lemma_views_len(children@);
                }
                let c = children[0].clone();
                proof {
                    crate::term::lemma_views_index(children@, 0);
                }
                self.frames.push(
                    Frame::Quotient { children, idx: 0, acc: ZERO_BITS, first_done: false },
                );
                self.mode = Mode::Descend(c);
                proof {
                    assert(self@ =~= descend_model(m0, m0.mode->Descend_0));
                }
            },
            Term::Sine(t1) => {
                self.frames.push(Frame::Unary { op: UnOp::Sine });
                self.mode = Mode::Descend(*t1);
                proof {
                    assert(self@ =~= descend_model(m0, m0.mode->Descend_0));
                }
            },
            Term::Cosine(t1) => {
                self.frames.push(Frame::Unary { op: UnOp::Cosine });
                self.mode = Mode::Descend(*t1);
                proof {
                    assert(self@ =~= descend_model(m0, m0.mode->Descend_0));
                }
            },
            Term::Tangent(t1) => {
                self.frames.push(Frame::Unary { op: UnOp::Tangent });
                self.mode = Mode::Descend(*t1);
                proof {
                    assert(self@ =~= descend_model(m0, m0.mode->Descend_0));
                }
            },
            Term::ArcSine(t1) => {
                self.frames.push(Frame::Unary { op: UnOp::ArcSine });
                self.mode = Mode::Descend(*t1);
                proof {
                    assert(self@ =~= descend_model(m0, m0.mode->Descend_0));
                }
            },
            Term::ArcCosine(t1) => {
                self.frames.push(Frame::Unary { op: UnOp::ArcCosine });
                self.mode = Mode::Descend(*t1);
                proof {
                    assert(self@ =~= descend_model(m0, m0.mode->Descend_0));
                }
            },
            Term::ArcTangent(t1) => {
                self.frames.push(Frame::Unary { op: UnOp::ArcTangent });
                self.mode = Mode::Descend(*t1);
                proof {
                    assert(self@ =~= descend_model(m0, m0.mode->Descend_0));
                }
            },
        }
    }

    /// Handles one `Return` transition; see `return_model`.
    fn step_return(&mut self, v: u64)
        requires
            wf_machine(
                EvaluationV {
                    mode: ModeV::Return(v),
                    ..old(self)@
                },
            ),
            old(self).mode@ == ModeV::Return(0u64),
        ensures
            final(self)@ == return_model(
                EvaluationV { mode: ModeV::Return(v), ..old(self)@ },
                v,
            ),
            wf_machine(final(self)@),
    {
        let ghost m0 = EvaluationV { mode: ModeV::Return(v), ..self@ };
        match self.frames.pop() {
            Option::None => {
                self.mode = Mode::Done(v);
                proof {
                    assert(self@ =~= return_model(m0, v));
                }
            },
            Option::Some(fr) => {
                proof {
                    assert(m0.frames.last() == fr@);
                    assert(m0.frames.drop_last() =~= self@.frames);
                }
                match fr {
                    Frame::Sum { children, idx, acc } => {
                        self.frames.push(Frame::Sum { children, idx, acc });
                        self.mode = Mode::PendingBin(BinOp::Add, acc, v);
                        proof {
                            assert(self@ =~= return_model(m0, v));
                        }
                    },
                    Frame::Product { children, idx, acc } => {
                        self.frames.push(Frame::Product { children, idx, acc });
                        self.mode = Mode::PendingBin(BinOp::Mul, acc, v);
                        proof {
                            assert(self@ =~= return_model(m0, v));
                        }
                    },
                    Frame::Difference { children, idx, acc } => {
                        proof {
                            crate::term::lemma_views_len(children@);
                        }
                        if idx == 0 {
                            if children.len() == 1 {
                                self.mode = Mode::Return(v);
                            } else {
                                let c = children[1].clone();
                                proof {
                                    crate::term::lemma_views_len(children@);
                                    crate::term::lemma_views_index(children@, 1);
                                }
                                self.frames.push(
                                    Frame::Difference { children, idx: 1, acc: v },
                                );
                                self.mode = Mode::Descend(c);
                            }
                        } else {
                            self.frames.push(Frame::Difference { children, idx, acc });
                            self.mode = Mode::PendingBin(BinOp::Sub, acc, v);
                        }
                        proof {
                            assert(self@ =~= return_model(m0, v));
                        }
                    },
                    Frame::Quotient { children, idx, acc, first_done } => {
                        if !first_done {
                            let c = children[0].clone();
                            proof {
                                crate::term::lemma_views_len(children@);
                                crate::term::lemma_views_index(children@, 0);
                            }
                            self.frames.push(
                                Frame::Quotient { children, idx: 0, acc: v, first_done: true },
                            );
                            self.mode = Mode::Descend(c);
                        } else if near_zero(v) {
                            self.mode = Mode::Failed(EvalError::DivisionByZero);
                        } else {
                            self.frames.push(
                                Frame::Quotient { children, idx, acc, first_done },
                            );
                            self.mode = Mode::PendingBin(BinOp::Div, acc, v);
                        }
                        proof {
                            assert(self@ =~= return_model(m0, v));
                        }
                    },
                    Frame::Unary { op } => {
                        self.frames.push(Frame::Unary { op });
                        self.mode = Mode::PendingUn(op, v);
                        proof {
                            assert(self@ =~= return_model(m0, v));
                        }
                    },
                }
            },
        }
    }

    /// Hands the machine the result of the operation it asked for, as a bit
    /// pattern, and lets it continue.
    pub fn resume(&mut self, r: u64)
        requires
            wf_machine(old(self)@),
            is_pending(old(self)@),
        ensures
            final(self)@ == resume_model(old(self)@, r),
            wf_machine(final(self)@),
    {
        let ghost m0 = self@;
        let mut taken = Mode::Return(0);
        core::mem::swap(&mut self.mode, &mut taken);
        match taken {
            Mode::PendingBin(op, a, b) => {
                match self.frames.pop() {
                    Option::None => {
                        self.mode = Mode::Return(r);
                        proof {
                            assert(self@ =~= resume_model(m0, r));
                        }
                    },
                    Option::Some(fr) => {
                        proof {
                            assert(m0.frames.last() == fr@);
                            assert(frame_wf(m0.frames[m0.frames.len() - 1]));
                            assert(frame_wf(fr@));
                            assert(m0.frames.drop_last() =~= self@.frames);
                        }
                        match fr {
                            Frame::Sum { children, idx, acc } => {
                                let n = children.len();
                                proof {
                                    crate::term::lemma_views_len(children@);
                                }
                                if idx + 1 < n {
                                    let c = children[idx + 1].clone();
                                    proof {
                                        crate::term::lemma_views_index(children@, idx + 1 as int);
                                    }
                                    self.frames.push(
                                        Frame::Sum { children, idx: idx + 1, acc: r },
                                    );
                                    self.mode = Mode::Descend(c);
                                } else {
                                    self.mode = Mode::Return(r);
                                }
                                proof {
                                    assert(self@ =~= resume_model(m0, r));
                                }
                            },
                            Frame::Difference { children, idx, acc } => {
                                let n = children.len();
                                proof {
                                    crate::term::lemma_views_len(children@);
                                }
                                if idx + 1 < n {
                                    let c = children[idx + 1].clone();
                                    proof {
                                        crate::term::lemma_views_index(children@, idx + 1 as int);
                                    }
                                    self.frames.push(
                                        Frame::Difference { children, idx: idx + 1, acc: r },
                                    );
                                    self.mode = Mode::Descend(c);
                                } else {
                                    self.mode = Mode::Return(r);
                                }
                                proof {
                                    assert(self@ =~= resume_model(m0, r));
                                }
                            },
                            Frame::Product { children, idx, acc } => {
                                let n = children.len();
                                proof {
                                    crate::term::lemma_views_len(children@);
                                }
                                if idx + 1 < n {
                                    let c = children[idx + 1].clone();
                                    proof {
                                        crate::term::lemma_views_index(children@, idx + 1 as int);
                                    }
                                    self.frames.push(
                                        Frame::Product { children, idx: idx + 1, acc: r },
                                    );
                                    self.mode = Mode::Descend(c);
                                } else {
                                    self.mode = Mode::Return(r);
                                }
                                proof {
                                    assert(self@ =~= resume_model(m0, r));
                                }
                            },
                            Frame::Quotient { children, idx, acc, first_done } => {
                                let n = children.len();
                                proof {
                                    crate::term::lemma_views_len(children@);
                                }
                                if idx + 1 < n {
                                    let c = children[idx + 1].clone();
                                    proof {
                                        crate::term::lemma_views_index(children@, idx + 1 as int);
                                    }
                                    self.frames.push(
                                        Frame::Quotient {
                                            children,
                                            idx: idx + 1,
                                            acc: r,
                                            first_done,
                                        },
                                    );
                                    self.mode = Mode::Descend(c);
                                } else {
                                    self.mode = Mode::Return(r);
                                }
                                proof {
                                    assert(self@ =~= resume_model(m0, r));
                                }
                            },
                            Frame::Unary { op } => {
                                self.mode = Mode::Return(r);
                                proof {
                                    assert(self@ =~= resume_model(m0, r));
                                }
                            },
                        }
                    },
                }
            },
            Mode::PendingUn(op, a) => {
                self.frames.pop();
                self.mode = Mode::Return(r);
                proof {
                    assert(m0.frames.drop_last() =~= self@.frames);
                    assert(self@ =~= resume_model(m0, r));
                }
            },
            other => {
                self.mode = other;
                proof {
                    assert(self@ =~= old(self)@);
                }
            },
        }
    }
}

} // verus!
