use vstd::prelude::*;
use crate::variable::Variable;

verus! {

broadcast use vstd::seq::group_seq_axioms;

/// Terms are basic mathematical building blocks, from which are formed
/// expressions and more complex entities.
///
/// A term is a tree: leaves are constants and variables, inner nodes combine
/// an ordered sequence of children (sums, differences, products, quotients)
/// or wrap a single child (the trigonometric variants). Every numeric value
/// is carried as the IEEE-754 bit pattern of a double-precision number, held
/// in a `u64`, so that the tree logic can be reasoned about exactly; the
/// caller converts to and from floating point at the boundary.
pub enum Term {
    /// A variable leaf; its value is looked up in the binding table when the
    /// term is evaluated.
    Variable(Variable),
    /// A constant leaf holding the bit pattern of its fixed value.
    Constant(u64),
    /// A sum of the children, accumulated left to right from zero.
    Sum(Vec<Term>),
    /// The first child minus each subsequent child, left to right. Must hold
    /// at least one child.
    Difference(Vec<Term>),
    /// A product of the children, accumulated left to right from one.
    Product(Vec<Term>),
    /// The first child divided successively by every child of the sequence,
    /// itself included (so the first child appears twice in the division
    /// chain: `c0 / c0 / c1 / ...`). This mirrors the engine's established
    /// division chain and is kept deliberately. Must hold at least one child.
    Quotient(Vec<Term>),
    /// The sine of the child's value, in radians.
    Sine(Box<Term>),
    /// The cosine of the child's value, in radians.
    Cosine(Box<Term>),
    /// The tangent of the child's value, in radians.
    Tangent(Box<Term>),
    /// The inverse sine of the child's value.
    ArcSine(Box<Term>),
    /// The inverse cosine of the child's value.
    ArcCosine(Box<Term>),
    /// The inverse tangent of the child's value.
    ArcTangent(Box<Term>),
}

/// The mathematical model of a term: the same tree with children as
/// sequences, used by every contract of this library.
#[verifier::ext_equal]
pub enum TermV {
    Variable(char),
    Constant(u64),
    Sum(Seq<TermV>),
    Difference(Seq<TermV>),
    Product(Seq<TermV>),
    Quotient(Seq<TermV>),
    Sine(Box<TermV>),
    Cosine(Box<TermV>),
    Tangent(Box<TermV>),
    ArcSine(Box<TermV>),
    ArcCosine(Box<TermV>),
    ArcTangent(Box<TermV>),
}

impl TermV {
    /// Well-formedness: `Difference` and `Quotient` nodes hold at least one
    /// child, everywhere in the tree. Evaluating an empty difference or
    /// quotient is undefined, so evaluation requires this invariant.
    pub open spec fn wf(self) -> bool
        decreases self,
    {
        match self {
            TermV::Variable(_) => true,
            TermV::Constant(_) => true,
            TermV::Sum(ts) => forall|i: int| 0 <= i < ts.len() ==> (#[trigger] ts[i]).wf(),
            TermV::Difference(ts) => ts.len() >= 1 && forall|i: int|
                0 <= i < ts.len() ==> (#[trigger] ts[i]).wf(),
            TermV::Product(ts) => forall|i: int| 0 <= i < ts.len() ==> (#[trigger] ts[i]).wf(),
            TermV::Quotient(ts) => ts.len() >= 1 && forall|i: int|
                0 <= i < ts.len() ==> (#[trigger] ts[i]).wf(),
            TermV::Sine(t) => t.wf(),
            TermV::Cosine(t) => t.wf(),
            TermV::Tangent(t) => t.wf(),
            TermV::ArcSine(t) => t.wf(),
            TermV::ArcCosine(t) => t.wf(),
            TermV::ArcTangent(t) => t.wf(),
        }
    }

    /// The sequence a term contributes when it is merged into a sum: a sum
    /// node contributes its children, any other term contributes itself.
    pub open spec fn summands(self) -> Seq<TermV> {
        match self {
            TermV::Sum(ts) => ts,
            _ => seq![self],
        }
    }
}

/// The models of a sequence of terms, in order.
pub open spec fn views(ts: Seq<Term>) -> Seq<TermV>
    decreases ts,
{
    if ts.len() == 0 {
        Seq::empty()
    } else {
        views(ts.drop_last()).push(ts.last()@)
    }
}

impl View for Term {
    type V = TermV;

    open spec fn view(&self) -> TermV
        decreases *self,
    {
        match self {
            Term::Variable(v) => TermV::Variable(v.symbol),
            Term::Constant(b) => TermV::Constant(*b),
            Term::Sum(ts) => TermV::Sum(views(ts@)),
            Term::Difference(ts) => TermV::Difference(views(ts@)),
            Term::Product(ts) => TermV::Product(views(ts@)),
            Term::Quotient(ts) => TermV::Quotient(views(ts@)),
            Term::Sine(t) => TermV::Sine(Box::new((**t)@)),
            Term::Cosine(t) => TermV::Cosine(Box::new((**t)@)),
            Term::Tangent(t) => TermV::Tangent(Box::new((**t)@)),
            Term::ArcSine(t) => TermV::ArcSine(Box::new((**t)@)),
            Term::ArcCosine(t) => TermV::ArcCosine(Box::new((**t)@)),
            Term::ArcTangent(t) => TermV::ArcTangent(Box::new((**t)@)),
        }
    }
}

/// The model sequence is as long as the term sequence.
pub broadcast proof fn lemma_views_len(ts: Seq<Term>)
    ensures
        (#[trigger] views(ts)).len() == ts.len(),
    decreases ts.len(),
{
    if ts.len() > 0 {
        lemma_views_len(ts.drop_last());
        assert(views(ts) == views(ts.drop_last()).push(ts.last()@));
        assert(ts.drop_last().len() == ts.len() - 1);
        assert(views(ts).len() == views(ts.drop_last()).len() + 1);
    }
}

/// The model sequence holds, position by position, the models of the terms.
pub broadcast proof fn lemma_views_index(ts: Seq<Term>, i: int)
    requires
        0 <= i < ts.len(),
    ensures
        #[trigger] views(ts)[i] == ts[i]@,
    decreases ts.len(),
{
    lemma_views_len(ts.drop_last());
    assert(views(ts) == views(ts.drop_last()).push(ts.last()@));
    if i < ts.len() - 1 {
        lemma_views_index(ts.drop_last(), i);
        assert(views(ts)[i] == views(ts.drop_last())[i]);
        assert(ts.drop_last()[i] == ts[i]);
    } else {
        assert(views(ts)[i] == ts.last()@);
    }
}

/// Taking the models of a concatenation concatenates the models.
pub broadcast proof fn lemma_views_concat(a: Seq<Term>, b: Seq<Term>)
    ensures
        #[trigger] views(a + b) == views(a) + views(b),
{
    let l = views(a + b);
    let r = views(a) + views(b);
    lemma_views_len(a + b);
    lemma_views_len(a);
    lemma_views_len(b);
    assert forall|i: int| 0 <= i < l.len() implies l[i] == r[i] by {
        lemma_views_index(a + b, i);
        if i < a.len() {
            assert((a + b)[i] == a[i]);
            lemma_views_index(a, i);
        } else {
            assert((a + b)[i] == b[i - a.len()]);
            lemma_views_index(b, i - a.len());
        }
    }
    assert(l =~= r);
}

/// Taking the models of a push appends the pushed term's model.
pub broadcast proof fn lemma_views_push(ts: Seq<Term>, t: Term)
    ensures
        #[trigger] views(ts.push(t)) == views(ts).push(t@),
{
    assert(ts.push(t).drop_last() =~= ts);
    assert(ts.push(t).last() == t);
}

impl Term {
    /// Combines two terms into a flattened sum, non-consuming: the result is
    /// a new `Sum` whose children are the summands of `self` followed by the
    /// summands of `another`, so sums are merged flat instead of nested and
    /// `self`'s contribution stays before `another`'s.
    pub fn plus(&self, another: &Term) -> (r: Term)
        ensures
            r@ == TermV::Sum(self@.summands() + another@.summands()),
    {
        self.clone().plus_owned(another.clone())
    }

    /// Combines two terms into a flattened sum, consuming both operands; the
    /// result is the same as `plus` on the same operands.
    pub fn plus_owned(self, another: Term) -> (r: Term)
        ensures
            r@ == TermV::Sum(self@.summands() + another@.summands()),
    {
        let ghost lv = self@;
        let ghost rv = another@;
        match self {
            Term::Sum(mut ts) => {
                let ghost ts0 = ts@;
                match another {
                    Term::Sum(mut more) => {
                        let ghost more0 = more@;
                        ts.append(&mut more);
                        proof {
                            lemma_views_concat(ts0, more0);
                            assert(views(ts@) == lv.summands() + rv.summands());
                        }
                        Term::Sum(ts)
                    },
                    other => {
                        let ghost o = other;
                        ts.push(other);
                        proof {
                            lemma_views_push(ts0, o);
                            assert(views(ts0).push(o@) =~= views(ts0) + seq![o@]);
                            assert(views(ts@) =~= lv.summands() + rv.summands());
                        }
                        Term::Sum(ts)
                    },
                }
            },
            left => {
                let ghost l = left;
                match another {
                    Term::Sum(mut more) => {
                        let ghost more0 = more@;
                        let mut ts: Vec<Term> = Vec::new();
                        ts.push(left);
                        let ghost one = ts@;
                        ts.append(&mut more);
                        proof {
                            lemma_views_len(one);
                            lemma_views_index(one, 0);
                            assert(views(one) =~= seq![l@]);
                            lemma_views_concat(one, more0);
                            assert(views(ts@) =~= lv.summands() + rv.summands());
                        }
                        Term::Sum(ts)
                    },
                    other => {
                        let ghost o = other;
                        let mut ts: Vec<Term> = Vec::new();
                        ts.push(left);
                        let ghost one = ts@;
                        ts.push(other);
                        proof {
                            lemma_views_len(one);
                            lemma_views_index(one, 0);
                            assert(views(one) =~= seq![l@]);
                            lemma_views_push(one, o);
                            assert(views(one).push(o@) =~= seq![l@] + seq![o@]);
                            assert(views(ts@) =~= lv.summands() + rv.summands());
                        }
                        Term::Sum(ts)
                    },
                }
            },
        }
    }
}

impl Clone for Term {
    /// Produces an independent tree whose model is identical to this one's.
    fn clone(&self) -> (r: Term)
        ensures
            r@ == self@,
        decreases *self,
    {
        match self {
            Term::Variable(v) => Term::Variable(*v),
            Term::Constant(b) => Term::Constant(*b),
            Term::Sum(ts) => Term::Sum(clone_terms(ts)),
            Term::Difference(ts) => Term::Difference(clone_terms(ts)),
            Term::Product(ts) => Term::Product(clone_terms(ts)),
            Term::Quotient(ts) => Term::Quotient(clone_terms(ts)),
            Term::Sine(t) => Term::Sine(Box::new((**t).clone())),
            Term::Cosine(t) => Term::Cosine(Box::new((**t).clone())),
            Term::Tangent(t) => Term::Tangent(Box::new((**t).clone())),
            Term::ArcSine(t) => Term::ArcSine(Box::new((**t).clone())),
            Term::ArcCosine(t) => Term::ArcCosine(Box::new((**t).clone())),
            Term::ArcTangent(t) => Term::ArcTangent(Box::new((**t).clone())),
        }
    }
}

/// Clones every term of a sequence, preserving order of models.
fn clone_terms(ts: &Vec<Term>) -> (r: Vec<Term>)
    ensures
        views(r@) == views(ts@),
    decreases ts@,
{
    let mut out: Vec<Term> = Vec::new();
    let mut i: usize = 0;
    while i < ts.len()
        invariant
            i <= ts@.len(),
            out@.len() == i,
            forall|j: int| 0 <= j < i ==> #[trigger] out@[j]@ == ts@[j]@,
        decreases ts@.len() - i,
    {
        out.push(ts[i].clone());
        i = i + 1;
    }
    proof {
        lemma_views_len(out@);
        lemma_views_len(ts@);
        assert forall|j: int| 0 <= j < ts@.len() implies views(out@)[j] == views(ts@)[j] by {
            lemma_views_index(out@, j);
            lemma_views_index(ts@, j);
        }
        assert(views(out@) =~= views(ts@));
    }
    out
}

impl Term {
    /// Decides well-formedness: whether every difference and quotient in the
    /// tree holds at least one child. Evaluation requires this, and callers
    /// that received a tree from elsewhere can establish it here.
    pub fn well_formed(&self) -> (r: bool)
        ensures
            r == self@.wf(),
        decreases *self,
    {
        match self {
            Term::Variable(_) => true,
            Term::Constant(_) => true,
            Term::Sum(ts) => {
                let r = all_well_formed(ts);
                proof {
                    lemma_all_wf_equiv(ts@);
                }
                r
            },
            Term::Difference(ts) => {
                let r = ts.len() >= 1 && all_well_formed(ts);
                proof {
                    lemma_views_len(ts@);
                    lemma_all_wf_equiv(ts@);
                }
                r
            },
            Term::Product(ts) => {
                let r = all_well_formed(ts);
                proof {
                    lemma_all_wf_equiv(ts@);
                }
                r
            },
            Term::Quotient(ts) => {
                let r = ts.len() >= 1 && all_well_formed(ts);
                proof {
                    lemma_views_len(ts@);
                    lemma_all_wf_equiv(ts@);
                }
                r
            },
            Term::Sine(t) => (**t).well_formed(),
            Term::Cosine(t) => (**t).well_formed(),
            Term::Tangent(t) => (**t).well_formed(),
            Term::ArcSine(t) => (**t).well_formed(),
            Term::ArcCosine(t) => (**t).well_formed(),
            Term::ArcTangent(t) => (**t).well_formed(),
        }
    }
}

/// Decides whether every term of the sequence is well-formed.
fn all_well_formed(ts: &Vec<Term>) -> (r: bool)
    ensures
        r == (forall|j: int| 0 <= j < ts@.len() ==> (#[trigger] ts@[j]@).wf()),
    decreases ts@,
{
    let mut i: usize = 0;
    while i < ts.len()
        invariant
            i <= ts@.len(),
            forall|j: int| 0 <= j < i ==> (#[trigger] ts@[j]@).wf(),
        decreases ts@.len() - i,
    {
        if !ts[i].well_formed() {
            return false;
        }
        i = i + 1;
    }
    true
}

/// A composite node over the models of a term sequence is well-formed
/// exactly when each term's model is well-formed (and, for differences and
/// quotients, the sequence is non-empty).
proof fn lemma_all_wf_equiv(ts: Seq<Term>)
    ensures
        TermV::Sum(views(ts)).wf() == (forall|j: int|
            0 <= j < ts.len() ==> (#[trigger] ts[j]@).wf()),
        TermV::Product(views(ts)).wf() == (forall|j: int|
            0 <= j < ts.len() ==> (#[trigger] ts[j]@).wf()),
        TermV::Difference(views(ts)).wf() == (ts.len() >= 1 && forall|j: int|
            0 <= j < ts.len() ==> (#[trigger] ts[j]@).wf()),
        TermV::Quotient(views(ts)).wf() == (ts.len() >= 1 && forall|j: int|
            0 <= j < ts.len() ==> (#[trigger] ts[j]@).wf()),
{
    lemma_views_len(ts);
    assert(TermV::Sum(views(ts))->Sum_0 == views(ts));
    assert(TermV::Product(views(ts))->Product_0 == views(ts));
    assert(TermV::Difference(views(ts))->Difference_0 == views(ts));
    assert(TermV::Quotient(views(ts))->Quotient_0 == views(ts));
    if forall|j: int| 0 <= j < ts.len() ==> (#[trigger] ts[j]@).wf() {
        assert forall|i: int| 0 <= i < views(ts).len() implies (#[trigger] views(ts)[i]).wf() by {
            lemma_views_index(ts, i);
            assert(ts[i]@.wf());
        }
        assert(TermV::Sum(views(ts)).wf());
        assert(TermV::Product(views(ts)).wf());
        if ts.len() >= 1 {
            assert(TermV::Difference(views(ts)).wf());
            assert(TermV::Quotient(views(ts)).wf());
        } else {
            assert(!TermV::Difference(views(ts)).wf());
            assert(!TermV::Quotient(views(ts)).wf());
        }
    } else {
        assert(exists|j: int| 0 <= j < ts.len() && !(#[trigger] ts[j]@).wf());
        let j = choose|j: int| 0 <= j < ts.len() && !(#[trigger] ts[j]@).wf();
        lemma_views_index(ts, j);
        assert(!views(ts)[j].wf());
        assert(!TermV::Sum(views(ts)).wf());
        assert(!TermV::Product(views(ts)).wf());
        assert(!TermV::Difference(views(ts)).wf());
        assert(!TermV::Quotient(views(ts)).wf());
    }
}

} // verus!
