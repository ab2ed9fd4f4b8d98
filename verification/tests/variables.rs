use cassie::errors::{decimal_string, EvalError, InvalidLength};
use cassie::variable::Variable;

#[test]
fn named_holds_its_symbol() {
    let x = Variable::named('x');
    assert_eq!(x.symbol, 'x');
    let v = Variable::named('ν');
    assert_eq!(v.symbol, 'ν');
}

#[test]
fn new_is_an_alias_for_named() {
    let x = Variable::new('x');
    assert_eq!(x, Variable::named('x'));
}

#[test]
fn parse_round_trip() {
    assert_eq!(Variable::parse("x").unwrap().symbol, 'x');
    assert_eq!(Variable::parse("Γ").unwrap(), Variable { symbol: 'Γ' });
    assert_eq!(Variable::parse("").unwrap_err(), InvalidLength { found: 0 });
    assert_eq!(Variable::parse("xy").unwrap_err(), InvalidLength { found: 2 });
}

#[test]
fn parse_through_from_str() {
    let x: Variable = "x".parse().unwrap();
    assert_eq!(x.symbol, 'x');
    assert!("".parse::<Variable>().is_err());
    assert!("xy".parse::<Variable>().is_err());
}

#[test]
fn variable_renders_as_bare_symbol() {
    assert_eq!(Variable::named('x').to_text(), "x");
    assert_eq!(Variable::named('α').to_text(), "α");
}

#[test]
fn error_messages_match_reference_wording() {
    assert_eq!(EvalError::DivisionByZero.message(), "Attempted division by zero.");
    assert_eq!(
        EvalError::UnboundVariable('x').message(),
        "No value provided for variable x"
    );
    assert_eq!(
        EvalError::MissingBindings('φ').message(),
        "No variable values provided (looking for φ)"
    );
    assert_eq!(
        InvalidLength { found: 0 }.message(),
        "Variables must be one character long (none given)."
    );
    assert_eq!(
        InvalidLength { found: 2 }.message(),
        "Variables cannot be longer than one character (2 found)."
    );
    assert_eq!(
        InvalidLength { found: 12 }.message(),
        "Variables cannot be longer than one character (12 found)."
    );
}

#[test]
fn decimal_rendering_is_exact() {
    assert_eq!(decimal_string(0), "0");
    assert_eq!(decimal_string(7), "7");
    assert_eq!(decimal_string(10), "10");
    assert_eq!(decimal_string(905), "905");
    assert_eq!(decimal_string(18446744073709551615), "18446744073709551615");
}
