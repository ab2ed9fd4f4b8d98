use cassie::bindings::Bindings;
use cassie::errors::EvalError;
use cassie::eval::{BinOp, Evaluation, Status, UnOp};
use cassie::term::Term;
use cassie::variable::Variable;

fn apply_bin(op: BinOp, a: u64, b: u64) -> u64 {
    let x = f64::from_bits(a);
    let y = f64::from_bits(b);
    let r = match op {
        BinOp::Add => x + y,
        BinOp::Sub => x - y,
        BinOp::Mul => x * y,
        BinOp::Div => x / y,
    };
    r.to_bits()
}

fn apply_un(op: UnOp, a: u64) -> u64 {
    let x = f64::from_bits(a);
    let r = match op {
        UnOp::Sine => x.sin(),
        UnOp::Cosine => x.cos(),
        UnOp::Tangent => x.tan(),
        UnOp::ArcSine => x.asin(),
        UnOp::ArcCosine => x.acos(),
        UnOp::ArcTangent => x.atan(),
    };
    r.to_bits()
}

fn run(mut m: Evaluation) -> Result<f64, EvalError> {
    loop {
        match m.status() {
            Status::Running => m.step(),
            Status::NeedBin(op, a, b) => m.resume(apply_bin(op, a, b)),
            Status::NeedUn(op, a) => m.resume(apply_un(op, a)),
            Status::Done(v) => return Ok(f64::from_bits(v)),
            Status::Failed(e) => return Err(e),
        }
    }
}

fn constant(x: f64) -> Term {
    Term::Constant(x.to_bits())
}

fn reduce(t: &Term) -> Result<f64, EvalError> {
    run(t.reduce())
}

fn evaluate(t: &Term, values: &Bindings) -> Result<f64, EvalError> {
    run(t.evaluate(values))
}

#[test]
fn it_works() {
}

#[test]
fn constant_reduces_to_itself() {
    assert_eq!(reduce(&constant(24.0)).unwrap(), 24.0);
    assert_eq!(reduce(&constant(64.0)).unwrap(), 64.0);
    assert_eq!(reduce(&constant(-0.5)).unwrap(), -0.5);
    assert_eq!(reduce(&constant(0.0)).unwrap(), 0.0);
}

#[test]
fn combining_two_non_sums_keeps_order() {
    let c = constant(12.0);
    let d = constant(27.0);
    let z = c.plus(&d);
    match &z {
        Term::Sum(children) => {
            assert_eq!(children.len(), 2);
            assert_eq!(reduce(&children[0]).unwrap(), 12.0);
            assert_eq!(reduce(&children[1]).unwrap(), 27.0);
        }
        _ => panic!("combining must yield a sum"),
    }
    assert!((reduce(&z).unwrap() - 39.0).abs() < 0.00001);
}

#[test]
fn combining_two_sums_flattens() {
    let a = Term::Sum(vec![constant(1.0), constant(2.0)]);
    let b = Term::Sum(vec![constant(3.0), constant(4.0)]);
    let z = a.plus(&b);
    match &z {
        Term::Sum(children) => {
            assert_eq!(children.len(), 4);
            for (i, want) in [1.0, 2.0, 3.0, 4.0].iter().enumerate() {
                match &children[i] {
                    Term::Constant(bits) => assert_eq!(f64::from_bits(*bits), *want),
                    _ => panic!("flattening must not nest sums"),
                }
            }
        }
        _ => panic!("combining must yield a sum"),
    }
    assert!((reduce(&z).unwrap() - 10.0).abs() < 0.00001);
}

#[test]
fn combining_sum_and_non_sum_appends() {
    let a = Term::Sum(vec![constant(1.0), constant(2.0)]);
    let b = constant(3.0);
    let left = a.plus(&b);
    match &left {
        Term::Sum(children) => assert_eq!(children.len(), 3),
        _ => panic!("combining must yield a sum"),
    }
    let right = b.plus(&a);
    match &right {
        Term::Sum(children) => {
            assert_eq!(children.len(), 3);
            assert_eq!(reduce(&children[0]).unwrap(), 3.0);
            assert_eq!(reduce(&children[1]).unwrap(), 1.0);
            assert_eq!(reduce(&children[2]).unwrap(), 2.0);
        }
        _ => panic!("combining must yield a sum"),
    }
    assert!((reduce(&left).unwrap() - 6.0).abs() < 0.00001);
    assert!((reduce(&right).unwrap() - 6.0).abs() < 0.00001);
}

#[test]
fn consuming_combination_matches_reference_form() {
    let z = constant(12.0).plus_owned(constant(27.0));
    assert!((reduce(&z).unwrap() - 39.0).abs() < 0.00001);
}

#[test]
fn sum_of_constants_accumulates_left_to_right() {
    let t = Term::Sum(vec![constant(1.5), constant(2.25), constant(3.75)]);
    assert_eq!(reduce(&t).unwrap(), 1.5 + 2.25 + 3.75);
}

#[test]
fn product_of_constants_accumulates_left_to_right() {
    let t = Term::Product(vec![constant(2.0), constant(3.0), constant(4.0)]);
    assert_eq!(reduce(&t).unwrap(), 24.0);
}

#[test]
fn difference_subtracts_each_following_term() {
    let t = Term::Difference(vec![constant(10.0), constant(3.0), constant(2.5)]);
    assert_eq!(reduce(&t).unwrap(), 10.0 - 3.0 - 2.5);
}

#[test]
fn difference_of_one_term_is_that_term() {
    let t = Term::Difference(vec![constant(42.0)]);
    assert_eq!(reduce(&t).unwrap(), 42.0);
}

#[test]
fn empty_sum_and_product_have_neutral_values() {
    assert_eq!(reduce(&Term::Sum(Vec::new())).unwrap(), 0.0);
    assert_eq!(reduce(&Term::Product(Vec::new())).unwrap(), 1.0);
}

#[test]
fn quotient_divides_by_first_term_twice() {
    let t = Term::Quotient(vec![constant(10.0), constant(2.0)]);
    assert_eq!(reduce(&t).unwrap(), 10.0 / 10.0 / 2.0);
}

#[test]
fn quotient_by_zero_fails() {
    let t = Term::Quotient(vec![constant(5.0), constant(0.0)]);
    assert_eq!(reduce(&t).unwrap_err(), EvalError::DivisionByZero);
}

#[test]
fn quotient_near_zero_guard_uses_magnitude() {
    let fails = Term::Quotient(vec![constant(5.0), constant(0.000000000000000005)]);
    assert_eq!(reduce(&fails).unwrap_err(), EvalError::DivisionByZero);
    let fails_negative = Term::Quotient(vec![constant(5.0), constant(-0.0)]);
    assert_eq!(reduce(&fails_negative).unwrap_err(), EvalError::DivisionByZero);
    let passes = Term::Quotient(vec![constant(5.0), constant(0.0000000000000001)]);
    assert!(reduce(&passes).is_ok());
}

#[test]
fn unbound_variable_fails_by_error_kind() {
    let t = Term::Variable(Variable::named('x'));
    let mut values = Bindings::new();
    values.insert('y', 1.0f64.to_bits());
    assert_eq!(evaluate(&t, &values).unwrap_err(), EvalError::UnboundVariable('x'));
    assert_eq!(reduce(&t).unwrap_err(), EvalError::MissingBindings('x'));
}

#[test]
fn bound_variable_evaluates_to_its_value() {
    let f = Term::Variable(Variable::named('φ'));
    let mut values = Bindings::new();
    values.insert('φ', 68.0f64.to_bits());
    assert!((evaluate(&f, &values).unwrap() - 68.0).abs() < 0.00001);
}

#[test]
fn later_binding_overwrites_earlier() {
    let t = Term::Variable(Variable::named('x'));
    let mut values = Bindings::new();
    values.insert('x', 1.0f64.to_bits());
    values.insert('x', 2.0f64.to_bits());
    assert_eq!(evaluate(&t, &values).unwrap(), 2.0);
}

#[test]
fn variable_plus_constant_scenario() {
    let x = Term::Variable(Variable::named('x'));
    let c = constant(100.0);
    let s = x.plus(&c);
    let mut values = Bindings::new();
    values.insert('x', 28.0f64.to_bits());
    assert!((evaluate(&s, &values).unwrap() - 128.0).abs() < 0.00001);
}

#[test]
fn trigonometric_wrappers_at_zero() {
    let s = Term::Sine(Box::new(constant(0.0)));
    assert!(reduce(&s).unwrap().abs() < 0.00001);
    let c = Term::Cosine(Box::new(constant(0.0)));
    assert!((reduce(&c).unwrap() - 1.0).abs() < 0.00001);
    let t = Term::Tangent(Box::new(constant(0.0)));
    assert!(reduce(&t).unwrap().abs() < 0.00001);
    let at = Term::ArcTangent(Box::new(constant(0.0)));
    assert!(reduce(&at).unwrap().abs() < 0.00001);
    let ac = Term::ArcCosine(Box::new(constant(1.0)));
    assert!(reduce(&ac).unwrap().abs() < 0.00001);
    let asn = Term::ArcSine(Box::new(constant(0.0)));
    assert!(reduce(&asn).unwrap().abs() < 0.00001);
}

#[test]
fn first_failure_in_walk_order_wins() {
    let t = Term::Sum(vec![
        Term::Quotient(vec![constant(5.0), constant(0.0)]),
        Term::Variable(Variable::named('x')),
    ]);
    assert_eq!(reduce(&t).unwrap_err(), EvalError::DivisionByZero);
    let u = Term::Sum(vec![
        Term::Variable(Variable::named('x')),
        Term::Quotient(vec![constant(5.0), constant(0.0)]),
    ]);
    assert_eq!(reduce(&u).unwrap_err(), EvalError::MissingBindings('x'));
}

#[test]
fn nested_composites_evaluate_depth_first() {
    let t = Term::Product(vec![
        Term::Sum(vec![constant(1.0), constant(2.0)]),
        Term::Difference(vec![constant(10.0), constant(4.0)]),
    ]);
    assert_eq!(reduce(&t).unwrap(), 18.0);
}

#[test]
fn well_formed_rejects_empty_difference_and_quotient() {
    assert!(constant(1.0).well_formed());
    assert!(Term::Sum(Vec::new()).well_formed());
    assert!(!Term::Difference(Vec::new()).well_formed());
    assert!(!Term::Quotient(Vec::new()).well_formed());
    let nested = Term::Product(vec![constant(1.0), Term::Quotient(Vec::new())]);
    assert!(!nested.well_formed());
    let fine = Term::Sine(Box::new(Term::Difference(vec![constant(2.0)])));
    assert!(fine.well_formed());
}
