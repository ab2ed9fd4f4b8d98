use vstd::prelude::*;

verus! {

broadcast use vstd::seq::group_seq_axioms;

/// A binding table: a mapping from single-character variable symbols to
/// values, each value carried as the IEEE-754 bit pattern of a
/// double-precision number. Later insertions overwrite earlier ones. The
/// table is read-only during evaluation.
pub struct Bindings {
    entries: Vec<(char, u64)>,
}

/// The mapping described by an entry list read left to right, later entries
/// overwriting earlier ones.
pub open spec fn map_of(entries: Seq<(char, u64)>) -> Map<char, u64>
    decreases entries.len(),
{
    if entries.len() == 0 {
        Map::empty()
    } else {
        map_of(entries.drop_last()).insert(entries.last().0, entries.last().1)
    }
}

impl View for Bindings {
    type V = Map<char, u64>;

    closed spec fn view(&self) -> Map<char, u64> {
        map_of(self.entries@)
    }
}

impl Bindings {
    /// Creates an empty table.
    pub fn new() -> (r: Bindings)
        ensures
            r@ == Map::<char, u64>::empty(),
    {
        Bindings { entries: Vec::new() }
    }

    /// Binds `symbol` to the value whose bit pattern is `value_bits`,
    /// replacing any earlier binding of the same symbol.
    pub fn insert(&mut self, symbol: char, value_bits: u64)
        ensures
            final(self)@ == old(self)@.insert(symbol, value_bits),
    {
        self.entries.push((symbol, value_bits));
        proof {
            assert(self.entries@.drop_last() =~= old(self).entries@);
        }
    }

    /// Looks a symbol up: the bound value's bit pattern, or `None` when the
    /// symbol is not bound.
    pub fn get(&self, symbol: char) -> (r: Option<u64>)
        ensures
            self@.contains_key(symbol) ==> r == Some(self@[symbol]),
            !self@.contains_key(symbol) ==> r == None::<u64>,
    {
        let mut i: usize = self.entries.len();
        proof {
            assert(self.entries@.subrange(0, i as int) =~= self.entries@);
        }
        while i > 0
            invariant
                i <= self.entries@.len(),
                self@.contains_key(symbol) == map_of(
                    self.entries@.subrange(0, i as int),
                ).contains_key(symbol),
                self@.contains_key(symbol) ==> self@[symbol] == map_of(
                    self.entries@.subrange(0, i as int),
                )[symbol],
            decreases i,
        {
            let ghost pre = self.entries@.subrange(0, i as int);
            proof {
                assert(pre.drop_last() =~= self.entries@.subrange(0, i - 1));
                assert(map_of(pre) == map_of(pre.drop_last()).insert(pre.last().0, pre.last().1));
            }
            let (k, v) = self.entries[i - 1];
            if k == symbol {
                return Some(v);
            }
            i = i - 1;
        }
        proof {
            assert(self.entries@.subrange(0, 0) =~= Seq::<(char, u64)>::empty());
        }
        None
    }

    /// Produces an independent table describing the same mapping.
    pub fn duplicate(&self) -> (r: Bindings)
        ensures
            r@ == self@,
    {
        let mut out: Vec<(char, u64)> = Vec::new();
        let mut i: usize = 0;
        while i < self.entries.len()
            invariant
                i <= self.entries@.len(),
                out@ =~= self.entries@.subrange(0, i as int),
            decreases self.entries@.len() - i,
        {
            let (k, v) = self.entries[i];
            out.push((k, v));
            i = i + 1;
        }
        proof {
            assert(out@ =~= self.entries@);
        }
        Bindings { entries: out }
    }
}

} // verus!
