use vstd::prelude::*;
use vstd::string::StringExecFns;

verus! {

/// Text before and after something.
#[derive(Debug, Clone, Copy, PartialEq, Eq)]
pub struct AffixPair<'a> {
    pub prefix: &'a str,
    pub postfix: &'a str,
}

/// A text with a prefix and a postfix (empty by default).
#[derive(Debug, Clone, Copy, PartialEq, Eq)]
pub struct AffixedString<'a> {
    pub text: &'a str,
    pub affix_pair: AffixPair<'a>,
}

/// No prefix and no postfix.
impl<'a> Default for AffixPair<'a> {
    fn default() -> (r: Self)
        ensures
            r.prefix@ == Seq::<char>::empty(),
            r.postfix@ == Seq::<char>::empty(),
    {
        let empty = "";
        proof {
            reveal_strlit("");
        }
        AffixPair { prefix: empty, postfix: empty }
    }
}

/// An empty text without affixes.
impl<'a> Default for AffixedString<'a> {
    fn default() -> (r: Self)
        ensures
            r.text@ == Seq::<char>::empty(),
            r.affix_pair.prefix@ == Seq::<char>::empty(),
            r.affix_pair.postfix@ == Seq::<char>::empty(),
    {
        let empty = "";
        proof {
            reveal_strlit("");
        }
        AffixedString { text: empty, affix_pair: AffixPair::default() }
    }
}

/// Prefix, text, postfix.
pub open spec fn affixed_text(a: AffixedString) -> Seq<char> {
    a.affix_pair.prefix@ + a.text@ + a.affix_pair.postfix@
}

impl<'a> AffixedString<'a> {
    /// A text with empty prefix and postfix.
    pub fn new(text: &'a str) -> (r: Self)
        ensures
            r.text == text,
            r.affix_pair.prefix@ == Seq::<char>::empty(),
            r.affix_pair.postfix@ == Seq::<char>::empty(),
    {
        let empty = "";
        proof {
            reveal_strlit("");
        }
        Self { text, affix_pair: AffixPair { prefix: empty, postfix: empty } }
    }

    /// Sets prefix and postfix to the same text; takes `self` so that calls chain
    /// from `new(...)`.
    pub fn with_affix(self, affix: &'a str) -> (r: Self)
        ensures
            r.text == self.text,
            r.affix_pair.prefix == affix,
            r.affix_pair.postfix == affix,
    {
        let mut s = self;
        s.affix_pair.prefix = affix;
        s.affix_pair.postfix = affix;
        s
    }

    /// Sets prefix and postfix separately.
    pub fn with_separate_affix(self, prefix: &'a str, postfix: &'a str) -> (r: Self)
        ensures
            r.text == self.text,
            r.affix_pair.prefix == prefix,
            r.affix_pair.postfix == postfix,
    {
        let mut s = self;
        s.affix_pair.prefix = prefix;
        s.affix_pair.postfix = postfix;
        s
    }

    /// Whether the text (not counting the affixes) is empty.
    pub fn is_empty(&self) -> (r: bool)
        ensures
            r == (self.text@.len() == 0),
    {
        self.text.is_empty()
    }

    /// Appends prefix, text and postfix to `out`.
    pub fn write_to(&self, out: &mut String)
        ensures
            final(out)@ == old(out)@ + affixed_text(*self),
    {
        let ghost start = out@;
        out.append(self.affix_pair.prefix);
        out.append(self.text);
        out.append(self.affix_pair.postfix);
        assert(out@ =~= start + affixed_text(*self));
    }

    /// Prefix, text and postfix, as `Display` shows them.
    pub fn to_string(&self) -> (r: String)
        ensures
            r@ == affixed_text(*self),
    {
        let mut out = String::new();
        self.write_to(&mut out);
        assert(out@ =~= affixed_text(*self));
        out
    }
}

} // verus!
