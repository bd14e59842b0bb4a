use crate::command::arguments::argument::Argument;
use crate::command::arguments::delimited_string::{DelimitedString, Delimiter};
use vstd::prelude::*;
use vstd::std_specs::convert::IntoSpec;

verus! {

/// Builds an `Argument` part by part; only the key is required.
#[derive(Debug)]
pub struct ArgumentBuilder<'a> {
    prefix: Option<&'a str>,
    key: Option<DelimitedString<'a>>,
    separator: Option<&'a str>,
    value: Option<DelimitedString<'a>>,
    postfix: Option<&'a str>,
    delimiter: Option<Delimiter<'a>>,
}

impl<'a> Default for ArgumentBuilder<'a> {
    fn default() -> (r: Self)
        ensures
            r.is_blank(),
    {
        ArgumentBuilder {
            prefix: None,
            key: None,
            separator: None,
            value: None,
            postfix: None,
            delimiter: None,
        }
    }
}

impl<'a> ArgumentBuilder<'a> {
    /// The argument the builder would build, with every part as set so far.
    pub closed spec fn parts(&self) -> (
        Option<&'a str>,
        Option<DelimitedString<'a>>,
        Option<&'a str>,
        Option<DelimitedString<'a>>,
        Option<&'a str>,
        Option<Delimiter<'a>>,
    ) {
        (self.prefix, self.key, self.separator, self.value, self.postfix, self.delimiter)
    }

    /// Nothing is set yet.
    pub open spec fn is_blank(&self) -> bool {
        self.parts() == (
            None::<&'a str>,
            None::<DelimitedString<'a>>,
            None::<&'a str>,
            None::<DelimitedString<'a>>,
            None::<&'a str>,
            None::<Delimiter<'a>>,
        )
    }

    pub fn new() -> (r: Self)
        ensures
            r.is_blank(),
    {
        Self::default()
    }

    pub fn prefix(self, prefix: &'a str) -> (r: Self)
        ensures
            r.parts() == (Some(prefix), self.parts().1, self.parts().2, self.parts().3, self.parts().4, self.parts().5),
    {
        let mut b = self;
        b.prefix = Some(prefix);
        b
    }

    pub fn key<K: Into<DelimitedString<'a>>>(self, key: K) -> (r: Self)
        ensures
            r.parts().1 is Some,
            K::obeys_into_spec() ==> r.parts().1 == Some(key.into_spec()),
            r.parts().0 == self.parts().0,
            r.parts().2 == self.parts().2,
            r.parts().3 == self.parts().3,
            r.parts().4 == self.parts().4,
            r.parts().5 == self.parts().5,
    {
        let mut b = self;
        b.key = Some(key.into());
        b
    }

    pub fn separator(self, separator: &'a str) -> (r: Self)
        ensures
            r.parts() == (self.parts().0, self.parts().1, Some(separator), self.parts().3, self.parts().4, self.parts().5),
    {
        let mut b = self;
        b.separator = Some(separator);
        b
    }

    pub fn value<V: Into<DelimitedString<'a>>>(self, value: V) -> (r: Self)
        ensures
            r.parts().3 is Some,
            V::obeys_into_spec() ==> r.parts().3 == Some(value.into_spec()),
            r.parts().0 == self.parts().0,
            r.parts().1 == self.parts().1,
            r.parts().2 == self.parts().2,
            r.parts().4 == self.parts().4,
            r.parts().5 == self.parts().5,
    {
        let mut b = self;
        b.value = Some(value.into());
        b
    }

    /// Sets the key to the given delimited string, delimiter included (for
    /// example a key in quotes).
    pub fn delimited_key(self, key: DelimitedString<'a>) -> (r: Self)
        ensures
            r.parts() == (self.parts().0, Some(key), self.parts().2, self.parts().3, self.parts().4, self.parts().5),
    {
        let mut b = self;
        b.key = Some(key);
        b
    }

    /// Sets the value to the given delimited string, delimiter included.
    pub fn delimited_value(self, value: DelimitedString<'a>) -> (r: Self)
        ensures
            r.parts() == (self.parts().0, self.parts().1, self.parts().2, Some(value), self.parts().4, self.parts().5),
    {
        let mut b = self;
        b.value = Some(value);
        b
    }

    /// Sets the value in double quotes (`"value"`).
    pub fn quoted_value(self, value: &'a str) -> (r: Self)
        ensures
            r.parts().3 == Some(
                DelimitedString {
                    value,
                    delimiter: Some(Delimiter { start: Some("\""), end: Some("\"") }),
                },
            ),
            r.parts().0 == self.parts().0,
            r.parts().1 == self.parts().1,
            r.parts().2 == self.parts().2,
            r.parts().4 == self.parts().4,
            r.parts().5 == self.parts().5,
    {
        let quote = "\"";
        proof {
            reveal_strlit("\"");
        }
        let mut b = self;
        b.value = Some(DelimitedString::new(Some(quote), value, Some(quote)));
        b
    }

    pub fn postfix(self, postfix: &'a str) -> (r: Self)
        ensures
            r.parts() == (self.parts().0, self.parts().1, self.parts().2, self.parts().3, Some(postfix), self.parts().5),
    {
        let mut b = self;
        b.postfix = Some(postfix);
        b
    }

    /// Puts `start` and `end` around the whole argument (for example `[` and `]`).
    pub fn delimiter(self, start: &'a str, end: &'a str) -> (r: Self)
        ensures
            r.parts() == (self.parts().0, self.parts().1, self.parts().2, self.parts().3, self.parts().4, Some(Delimiter { start: Some(start), end: Some(end) })),
    {
        let mut b = self;
        b.delimiter = Some(Delimiter::new(Some(start), Some(end)));
        b
    }

    /// Puts the given delimiter around the whole argument.
    pub fn with_delimiter(self, delimiter: Delimiter<'a>) -> (r: Self)
        ensures
            r.parts() == (self.parts().0, self.parts().1, self.parts().2, self.parts().3, self.parts().4, Some(delimiter)),
    {
        let mut b = self;
        b.delimiter = Some(delimiter);
        b
    }

    /// The argument, or `None` when no key was given.
    pub fn build(self) -> (r: Option<Argument<'a>>)
        ensures
            self.parts().1 is None ==> r is None,
            self.parts().1 matches Some(k) ==> r == Some(
                Argument {
                    prefix: self.parts().0,
                    key: k,
                    separator: self.parts().2,
                    value: self.parts().3,
                    postfix: self.parts().4,
                    delimiter: self.parts().5,
                },
            ),
    {
        let key = match self.key {
            Some(k) => k,
            None => return None,
        };
        Some(
            Argument {
                prefix: self.prefix,
                key,
                separator: self.separator,
                value: self.value,
                postfix: self.postfix,
                delimiter: self.delimiter,
            },
        )
    }
}

} // verus!
