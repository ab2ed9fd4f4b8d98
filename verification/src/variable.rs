use vstd::prelude::*;
use vstd::string::StrSliceExecFns;
use crate::errors::InvalidLength;

verus! {

/// A variable represents a value which is arbitrary or unknown, identified by
/// a single-character symbol. It carries no value of its own: the symbol is a
/// key into the binding table supplied at evaluation time.
#[derive(Clone, Copy, Debug, PartialEq, Eq, Structural)]
pub struct Variable {
    pub symbol: char,
}

impl Variable {
    /// Creates a variable with associated symbol `symbol`.
    pub fn named(symbol: char) -> (r: Self)
        ensures
            r.symbol == symbol,
    {
        Self { symbol }
    }

    /// An alias for `Variable::named`.
    pub fn new(c: char) -> (r: Self)
        ensures
            r.symbol == c,
    {
        Self::named(c)
    }

    /// Renders the variable as text: exactly its bare symbol character, with
    /// no quoting and no type name.
    pub fn to_text(&self) -> (r: String)
        ensures
            r@ == seq![self.symbol],
    {
        crate::errors::char_string(self.symbol)
    }

    /// Builds a variable from text. Succeeds exactly when the text holds one
    /// character; otherwise reports the observed character count.
    pub fn parse(s: &str) -> (r: Result<Variable, InvalidLength>)
        ensures
            s@.len() == 1 ==> r == Ok::<Variable, InvalidLength>(Variable { symbol: s@[0] }),
            s@.len() != 1 ==> r == Err::<Variable, InvalidLength>(InvalidLength {
                found: s@.len() as usize,
            }),
    {
        let n = s.unicode_len();
        if n == 1 {
            Ok(Variable { symbol: s.get_char(0) })
        } else {
            Err(InvalidLength { found: n })
        }
    }
}

impl core::str::FromStr for Variable {
    type Err = InvalidLength;

    fn from_str(s: &str) -> Result<Variable, InvalidLength> {
        Variable::parse(s)
    }
}

} // verus!
