use crate::command::base::affix::{affixed_text, AffixedString};
use vstd::prelude::*;

verus! {

/// A key and its value.
#[derive(Debug, Clone, Copy, PartialEq, Eq)]
pub struct KeyValuePair<'a> {
    pub key: Key<'a>,
    pub value: Value<'a>,
}

#[derive(Debug, Clone, Copy, PartialEq, Eq)]
pub struct Key<'a>(pub AffixedString<'a>);

#[derive(Debug, Clone, Copy, PartialEq, Eq)]
pub struct Value<'a>(pub AffixedString<'a>);

/// An empty key and an empty value, without affixes.
impl<'a> Default for KeyValuePair<'a> {
    fn default() -> (r: Self)
        ensures
            r.key.0.text@ == Seq::<char>::empty(),
            r.key.0.affix_pair.prefix@ == Seq::<char>::empty(),
            r.key.0.affix_pair.postfix@ == Seq::<char>::empty(),
            r.value.0.text@ == Seq::<char>::empty(),
            r.value.0.affix_pair.prefix@ == Seq::<char>::empty(),
            r.value.0.affix_pair.postfix@ == Seq::<char>::empty(),
    {
        KeyValuePair { key: Key::default(), value: Value::default() }
    }
}

/// An empty key without affixes.
impl<'a> Default for Key<'a> {
    fn default() -> (r: Self)
        ensures
            r.0.text@ == Seq::<char>::empty(),
            r.0.affix_pair.prefix@ == Seq::<char>::empty(),
            r.0.affix_pair.postfix@ == Seq::<char>::empty(),
    {
        Key(AffixedString::default())
    }
}

/// An empty value without affixes.
impl<'a> Default for Value<'a> {
    fn default() -> (r: Self)
        ensures
            r.0.text@ == Seq::<char>::empty(),
            r.0.affix_pair.prefix@ == Seq::<char>::empty(),
            r.0.affix_pair.postfix@ == Seq::<char>::empty(),
    {
        Value(AffixedString::default())
    }
}

impl Key<'_> {
    /// The key with its affixes, as `Display` shows it.
    pub fn to_string(&self) -> (r: String)
        ensures
            r@ == affixed_text(self.0),
    {
        self.0.to_string()
    }
}

impl Value<'_> {
    /// Whether the value's text is empty.
    pub fn is_empty(&self) -> (r: bool)
        ensures
            r == (self.0.text@.len() == 0),
    {
        self.0.is_empty()
    }

    /// The value with its affixes, as `Display` shows it.
    pub fn to_string(&self) -> (r: String)
        ensures
            r@ == affixed_text(self.0),
    {
        self.0.to_string()
    }
}

} // verus!
