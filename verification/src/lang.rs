//! Language tags and the chain of tags that a locale falls back through.

use vstd::prelude::*;

verus! {

/// The languages that are known by name.
#[derive(Clone, Copy, Debug, PartialEq, Eq, Hash, Structural)]
pub enum IsoLang {
    English,
    Deutsch,
    Portuguese,
    Chinese,
    French,
    Spanish,
    Japanese,
    Arabic,
}

/// The countries that are known by name.
#[derive(Clone, Copy, Debug, PartialEq, Eq, Hash, Structural)]
pub enum IsoCountry {
    US,
    GB,
    AU,
    DE,
    AT,
    CH,
    CN,
    TW,
    PT,
    BR,
    JP,
    ES,
    FR,
    CA,
}

/// A language tag: the root of every fallback chain, or a language with or
/// without a country.
#[derive(Clone, Copy, Debug, PartialEq, Eq, Hash, Structural)]
pub enum Lang {
    Root,
    Iso(IsoLang, Option<IsoCountry>),
}

impl Lang {
    /// American English, as a value of the model.
    pub open spec fn spec_en_us() -> Lang {
        Lang::Iso(IsoLang::English, Some(IsoCountry::US))
    }

    /// American English: the tag that every language falls back to before
    /// the root.
    pub fn en_us() -> (r: Lang)
        ensures
            r == Lang::spec_en_us(),
    {
        Lang::Iso(IsoLang::English, Some(IsoCountry::US))
    }

    /// The primary dialect that this tag falls back to, where it is a
    /// secondary dialect of German, French, Portuguese or Chinese.
    pub open spec fn primary_dialect(self) -> Option<Lang> {
        match self {
            Lang::Iso(IsoLang::Deutsch, Some(c)) => if c != IsoCountry::DE {
                Some(Lang::Iso(IsoLang::Deutsch, Some(IsoCountry::DE)))
            } else {
                None
            },
            Lang::Iso(IsoLang::French, Some(c)) => if c != IsoCountry::FR {
                Some(Lang::Iso(IsoLang::French, Some(IsoCountry::FR)))
            } else {
                None
            },
            Lang::Iso(IsoLang::Portuguese, Some(c)) => if c != IsoCountry::PT {
                Some(Lang::Iso(IsoLang::Portuguese, Some(IsoCountry::PT)))
            } else {
                None
            },
            Lang::Iso(IsoLang::Chinese, Some(IsoCountry::TW)) => Some(
                Lang::Iso(IsoLang::Chinese, Some(IsoCountry::CN)),
            ),
            _ => None,
        }
    }

    /// The tag that this one falls back to. A secondary dialect falls back to
    /// the primary dialect of its language; every other tag falls back to
    /// American English, American English to the root, and the root to
    /// nothing.
    pub open spec fn parent(self) -> Option<Lang> {
        if self == Lang::Root {
            None
        } else if self == Lang::spec_en_us() {
            Some(Lang::Root)
        } else if self.primary_dialect() is Some {
            self.primary_dialect()
        } else {
            Some(Lang::spec_en_us())
        }
    }

    /// How many steps this tag is from the root.
    pub open spec fn depth(self) -> nat {
        if self == Lang::Root {
            0
        } else if self == Lang::spec_en_us() {
            1
        } else if self.primary_dialect() is Some {
            3
        } else {
            2
        }
    }

    /// The fallback chain of this tag, from the root to the tag itself.
    pub open spec fn chain(self) -> Seq<Lang>
        decreases self.depth(),
    {
        match self.parent() {
            None => seq![self],
            Some(p) => p.chain().push(self),
        }
    }

    /// The tag that this one falls back to, if it is not the root.
    pub fn fallback(&self) -> (r: Option<Lang>)
        ensures
            r == self.parent(),
            r matches Some(p) ==> p.depth() < self.depth(),
    {
        match *self {
            Lang::Root => None,
            Lang::Iso(IsoLang::English, Some(IsoCountry::US)) => Some(Lang::Root),
            Lang::Iso(IsoLang::Deutsch, Some(c)) => if c != IsoCountry::DE {
                Some(Lang::Iso(IsoLang::Deutsch, Some(IsoCountry::DE)))
            } else {
                Some(Lang::en_us())
            },
            Lang::Iso(IsoLang::French, Some(c)) => if c != IsoCountry::FR {
                Some(Lang::Iso(IsoLang::French, Some(IsoCountry::FR)))
            } else {
                Some(Lang::en_us())
            },
            Lang::Iso(IsoLang::Portuguese, Some(c)) => if c != IsoCountry::PT {
                Some(Lang::Iso(IsoLang::Portuguese, Some(IsoCountry::PT)))
            } else {
                Some(Lang::en_us())
            },
            Lang::Iso(IsoLang::Chinese, Some(IsoCountry::TW)) => Some(
                Lang::Iso(IsoLang::Chinese, Some(IsoCountry::CN)),
            ),
            _ => Some(Lang::en_us()),
        }
    }

    /// The fallback chain of this tag, from the root to the tag itself.
    pub fn fallback_chain(&self) -> (r: Vec<Lang>)
        ensures
            r@ == self.chain(),
    {
        let mut reversed: Vec<Lang> = Vec::new();
        let mut current = *self;
        reversed.push(current);
        loop
            invariant
                reversed@.len() > 0,
                current == reversed@.last(),
                current.chain() + reversed@.drop_last().reverse() == self.chain(),
            ensures
                current.parent() is None,
            decreases current.depth(),
        {
            match current.fallback() {
                None => {
                    break ;
                },
                Some(p) => {
                    proof {
                        let before = reversed@;
                        assert(before.push(p).drop_last() == before);
                        assert(before.reverse() == before.drop_last().reverse().insert(0, current)) by {
                            assert(before.reverse() =~= before.drop_last().reverse().insert(0, current));
                        }
                        assert(p.chain() + before.reverse() =~= current.chain()
                            + before.drop_last().reverse());
                    }
                    reversed.push(p);
                    current = p;
                },
            }
        }
        let mut chain: Vec<Lang> = Vec::new();
        let mut n = reversed.len();
        while n > 0
            invariant
                n <= reversed@.len(),
                chain@ == reversed@.subrange(n as int, reversed@.len() as int).reverse(),
            decreases n,
        {
            n -= 1;
            chain.push(reversed[n]);
            assert(chain@ =~= reversed@.subrange(n as int, reversed@.len() as int).reverse());
        }
        proof {
            assert(reversed@.subrange(0, reversed@.len() as int) == reversed@);
            assert(current.chain() == seq![current]);
            assert(reversed@.reverse() =~= seq![current] + reversed@.drop_last().reverse());
        }
        chain
    }
}

} // verus!
