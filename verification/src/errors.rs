use vstd::prelude::*;
use vstd::string::StringExecFns;

verus! {

/// The character for a single decimal digit.
pub open spec fn digit_char(d: nat) -> char {
    if d == 0 {
        '0'
    } else if d == 1 {
        '1'
    } else if d == 2 {
        '2'
    } else if d == 3 {
        '3'
    } else if d == 4 {
        '4'
    } else if d == 5 {
        '5'
    } else if d == 6 {
        '6'
    } else if d == 7 {
        '7'
    } else if d == 8 {
        '8'
    } else {
        '9'
    }
}

/// The decimal digits of `n`, most significant first.
pub open spec fn decimal_of(n: nat) -> Seq<char>
    decreases n,
{
    if n < 10 {
        seq![digit_char(n)]
    } else {
        decimal_of(n / 10).push(digit_char(n % 10))
    }
}

/// The one-character text of a single decimal digit.
fn digit_str(d: usize) -> (r: &'static str)
    requires
        d < 10,
    ensures
        r@ == seq![digit_char(d as nat)],
{
    proof {
        reveal_strlit("0");
        reveal_strlit("1");
        reveal_strlit("2");
        reveal_strlit("3");
        reveal_strlit("4");
        reveal_strlit("5");
        reveal_strlit("6");
        reveal_strlit("7");
        reveal_strlit("8");
        reveal_strlit("9");
    }
    match d {
        0 => "0",
        1 => "1",
        2 => "2",
        3 => "3",
        4 => "4",
        5 => "5",
        6 => "6",
        7 => "7",
        8 => "8",
        _ => "9",
    }
}

/// Renders a number in decimal.
pub fn decimal_string(n: usize) -> (r: String)
    ensures
        r@ == decimal_of(n as nat),
    decreases n,
{
    if n < 10 {
        String::from_str(digit_str(n))
    } else {
        let mut s = decimal_string(n / 10);
        s.append(digit_str(n % 10));
        s
    }
}

/// Relies on char::to_string, which renders exactly the one character.
#[verifier::external_body]
pub(crate) fn char_string(c: char) -> (r: String)
    ensures
        r@ == seq![c],
{
    c.to_string()
}

/// The failure reported when a variable is built from text whose character
/// count is not exactly one. `found` is the observed character count, which
/// is therefore never `1`.
#[derive(Clone, Copy, Debug, PartialEq, Eq, Structural)]
pub struct InvalidLength {
    pub found: usize,
}

impl InvalidLength {
    /// The characters of the human-readable description of this failure.
    pub open spec fn message_spec(self) -> Seq<char> {
        if self.found == 0 {
            "Variables must be one character long (none given)."@
        } else {
            "Variables cannot be longer than one character ("@ + decimal_of(self.found as nat)
                + " found)."@
        }
    }

    /// The human-readable description of this failure.
    pub fn message(&self) -> (r: String)
        ensures
            r@ == self.message_spec(),
    {
        if self.found == 0 {
            String::from_str("Variables must be one character long (none given).")
        } else {
            let mut s = String::from_str("Variables cannot be longer than one character (");
            let digits = decimal_string(self.found);
            s.append(digits.as_str());
            s.append(" found).");
            s
        }
    }
}

/// A failure raised while evaluating a term. Every failure is a recoverable
/// value: evaluation never panics and never substitutes a default.
#[derive(Clone, Copy, Debug, PartialEq, Eq, Structural)]
pub enum EvalError {
    /// A variable was reached but no binding table was supplied at all; the
    /// payload is the symbol that was being looked up.
    MissingBindings(char),
    /// A binding table was supplied but holds no entry for this symbol.
    UnboundVariable(char),
    /// A divisor's magnitude fell below the near-zero threshold during
    /// quotient evaluation.
    DivisionByZero,
}

impl EvalError {
    /// The characters of the human-readable description of this failure.
    pub open spec fn message_spec(self) -> Seq<char> {
        match self {
            EvalError::MissingBindings(sym) => "No variable values provided (looking for "@
                + seq![sym] + ")"@,
            EvalError::UnboundVariable(sym) => "No value provided for variable "@ + seq![sym],
            EvalError::DivisionByZero => "Attempted division by zero."@,
        }
    }

    /// The human-readable description of this failure.
    pub fn message(&self) -> (r: String)
        ensures
            r@ == self.message_spec(),
    {
        match self {
            EvalError::MissingBindings(sym) => {
                let mut s = String::from_str("No variable values provided (looking for ");
                let c = char_string(*sym);
                s.append(c.as_str());
                s.append(")");
                s
            },
            EvalError::UnboundVariable(sym) => {
                let mut s = String::from_str("No value provided for variable ");
                let c = char_string(*sym);
                s.append(c.as_str());
                s
            },
            EvalError::DivisionByZero => String::from_str("Attempted division by zero."),
        }
    }
}

} // verus!
