use crate::command::base::affix::{affixed_text, AffixPair};
use crate::command::base::key_value::KeyValuePair;
use vstd::prelude::*;
use vstd::string::StringExecFns;

verus! {

/// How an `Argument` is rendered: affixes around it and the separator between
/// key and value.
///
/// The default separator is empty: for `--key=value` set it with
/// `with_separator("=")`, else the result is `--keyvalue`.
#[derive(Debug, Clone, Copy, PartialEq, Eq)]
pub struct Formatting<'a> {
    pub affix: AffixPair<'a>,
    /// Between key and value when rendering an `Argument`.
    pub separator: &'a str,
}

/// No affixes and an empty separator.
impl<'a> Default for Formatting<'a> {
    fn default() -> (r: Self)
        ensures
            r.affix.prefix@ == Seq::<char>::empty(),
            r.affix.postfix@ == Seq::<char>::empty(),
            r.separator@ == Seq::<char>::empty(),
    {
        let empty = "";
        proof {
            reveal_strlit("");
        }
        Formatting { affix: AffixPair::default(), separator: empty }
    }
}

impl<'a> Formatting<'a> {
    pub fn with_separator(self, separator: &'a str) -> (r: Self)
        ensures
            r.affix == self.affix,
            r.separator == separator,
    {
        let mut f = self;
        f.separator = separator;
        f
    }

    pub fn with_affix(self, affix: AffixPair<'a>) -> (r: Self)
        ensures
            r.affix == affix,
            r.separator == self.separator,
    {
        let mut f = self;
        f.affix = affix;
        f
    }
}

/// A key-value pair with its formatting.
#[derive(Debug, Clone, Copy, PartialEq, Eq)]
pub struct Argument<'a> {
    pub key_value_pair: KeyValuePair<'a>,
    pub formatting: Formatting<'a>,
}

/// An empty key and value with the default formatting; it renders as nothing.
impl<'a> Default for Argument<'a> {
    fn default() -> (r: Self)
        ensures
            r.key_value_pair.key.0.text@ == Seq::<char>::empty(),
            r.key_value_pair.key.0.affix_pair.prefix@ == Seq::<char>::empty(),
            r.key_value_pair.key.0.affix_pair.postfix@ == Seq::<char>::empty(),
            r.key_value_pair.value.0.text@ == Seq::<char>::empty(),
            r.key_value_pair.value.0.affix_pair.prefix@ == Seq::<char>::empty(),
            r.key_value_pair.value.0.affix_pair.postfix@ == Seq::<char>::empty(),
            r.formatting.affix.prefix@ == Seq::<char>::empty(),
            r.formatting.affix.postfix@ == Seq::<char>::empty(),
            r.formatting.separator@ == Seq::<char>::empty(),
            base_argument_text(r) == Seq::<char>::empty(),
    {
        let r = Argument { key_value_pair: KeyValuePair::default(), formatting: Formatting::default() };
        assert(base_argument_text(r) =~= Seq::<char>::empty());
        r
    }
}

/// Prefix, key, then separator and value only if the value has text, postfix.
pub open spec fn base_argument_text(a: Argument) -> Seq<char> {
    let value = if a.key_value_pair.value.0.text@.len() != 0 {
        a.formatting.separator@ + affixed_text(a.key_value_pair.value.0)
    } else {
        Seq::empty()
    };
    a.formatting.affix.prefix@ + affixed_text(a.key_value_pair.key.0) + value
        + a.formatting.affix.postfix@
}

impl Argument<'_> {
    /// Appends the rendered argument to `out`.
    pub fn write_to(&self, out: &mut String)
        ensures
            final(out)@ == old(out)@ + base_argument_text(*self),
    {
        let ghost start = out@;
        out.append(self.formatting.affix.prefix);
        self.key_value_pair.key.0.write_to(out);
        if !self.key_value_pair.value.is_empty() {
            out.append(self.formatting.separator);
            self.key_value_pair.value.0.write_to(out);
        }
        out.append(self.formatting.affix.postfix);
        assert(out@ =~= start + base_argument_text(*self));
    }

    /// The argument as text, as `Display` shows it.
    pub fn to_string(&self) -> (r: String)
        ensures
            r@ == base_argument_text(*self),
    {
        let mut out = String::new();
        self.write_to(&mut out);
        assert(out@ =~= base_argument_text(*self));
        out
    }
}

} // verus!
