//! Two-way table between strings and small integer symbols.
use vstd::prelude::*;

verus! {

/// Identity of an interned string: its position in the order of first interning.
#[derive(Clone, Copy, Debug, PartialEq, Eq, Hash, Structural)]
pub struct Symbol(pub u32);

/// Deduplicating string table. Symbol `k` stands for the `k`-th distinct
/// string interned.
#[derive(Debug, Default)]
pub struct Interner {
    strings: Vec<String>,
}

impl View for Interner {
    type V = Seq<Seq<char>>;

    /// The interned strings, in the order of their symbols.
    closed spec fn view(&self) -> Seq<Seq<char>> {
        self.strings@.map_values(|s: String| s@)
    }
}

impl Interner {
    /// Every string is stored once, and every position fits in a symbol.
    pub open spec fn wf(&self) -> bool {
        &&& self@.no_duplicates()
        &&& self@.len() <= u32::MAX + 1
    }

    pub fn new() -> (r: Self)
        ensures
            r.wf(),
            r@ == Seq::<Seq<char>>::empty(),
    {
        let r = Interner { strings: Vec::new() };
        proof {
            assert(r@ =~= Seq::<Seq<char>>::empty());
        }
        r
    }

    /// Number of distinct strings interned so far.
    pub fn len(&self) -> (r: usize)
        ensures
            r == self@.len(),
    {
        self.strings.len()
    }

    /// Position of `s` in the table, if it was interned.
    fn position(&self, s: &String) -> (r: Option<usize>)
        ensures
            match r {
                Some(i) => i < self@.len() && self@[i as int] == s@,
                None => !self@.contains(s@),
            },
    {
        let mut i: usize = 0;
        while i < self.strings.len()
            invariant
                i <= self.strings@.len(),
                self@.len() == self.strings@.len(),
                forall|j: int| 0 <= j < i ==> self@[j] != s@,
            decreases self.strings@.len() - i,
        {
            if self.strings[i] == *s {
                return Some(i);
            }
            i = i + 1;
        }
        None
    }

    /// What interning `s` did to `old` to give `new` and the symbol `r`: a
    /// known string keeps its symbol and the table, a new one is appended and
    /// gets the next symbol.
    pub open spec fn intern_post(old: &Self, new: &Self, s: Seq<char>, r: Symbol) -> bool {
        &&& new.wf()
        &&& (r.0 as int) < new@.len()
        &&& new@[r.0 as int] == s
        &&& old@.contains(s) ==> new@ == old@
        &&& !old@.contains(s) ==> new@ == old@.push(s) && r.0 == old@.len()
    }

    /// Returns the symbol of `s`, adding `s` to the table when it is new.
    pub fn intern(&mut self, s: &str) -> (r: Symbol)
        requires
            old(self).wf(),
            old(self)@.contains(s@) || old(self)@.len() <= u32::MAX,
        ensures
            Self::intern_post(old(self), final(self), s@, r),
    {
        let owned = s.to_owned();
        match self.position(&owned) {
            Some(i) => Symbol(i as u32),
            None => {
                let k = self.strings.len();
                self.strings.push(owned);
                proof {
                    assert(self@ =~= old(self)@.push(s@));
                    assert forall|a: int, b: int|
                        0 <= a < b < self@.len() implies self@[a] != self@[b] by {
                        if b == k {
                            assert(old(self)@[a] == self@[a]);
                        } else {
                            assert(old(self)@[a] != old(self)@[b]);
                        }
                    }
                }
                Symbol(k as u32)
            },
        }
    }

    /// The string that `symbol` stands for.
    pub fn lookup(&self, symbol: Symbol) -> (r: &str)
        requires
            (symbol.0 as int) < self@.len(),
        ensures
            r@ == self@[symbol.0 as int],
    {
        self.strings[symbol.0 as usize].as_str()
    }
}

/// Interning the same string twice gives the same symbol, and the second
/// time leaves the table as it was.
pub proof fn lemma_intern_same_symbol(i0: Interner, i1: Interner, i2: Interner, s: Seq<char>, r1: Symbol, r2: Symbol)
    requires
        Interner::intern_post(&i0, &i1, s, r1),
        Interner::intern_post(&i1, &i2, s, r2),
    ensures
        r1 == r2,
        i2@ == i1@,
{
    assert(i1@.contains(s));
    assert(i1@[r1.0 as int] == i1@[r2.0 as int]);
}

/// Distinct strings get distinct symbols.
pub proof fn lemma_intern_distinct(i0: Interner, i1: Interner, i2: Interner, s: Seq<char>, t: Seq<char>, r1: Symbol, r2: Symbol)
    requires
        Interner::intern_post(&i0, &i1, s, r1),
        Interner::intern_post(&i1, &i2, t, r2),
        s != t,
    ensures
        r1 != r2,
{
    if i1@.contains(t) {
    } else {
        assert(i2@[r1.0 as int] == i1@[r1.0 as int]);
    }
}

/// Looking up the symbol that interning gave returns the string interned.
pub proof fn lemma_lookup_interned(i0: Interner, i1: Interner, s: Seq<char>, r: Symbol)
    requires
        Interner::intern_post(&i0, &i1, s, r),
    ensures
        (r.0 as int) < i1@.len(),
        i1@[r.0 as int] == s,
{
}

} // verus!
