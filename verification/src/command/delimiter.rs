mod private;

use crate::command::text::opt_text;
use std::borrow::Cow;
use std::marker::PhantomData;
use vstd::prelude::*;
use vstd::string::StringExecFns;

verus! {

/// The kinds of text a `DelimiterString` can stand for; sealed.
pub trait DelimiterType: private::Sealed {

}

#[derive(Debug, Clone, Copy, PartialEq, Eq)]
pub struct DelimiterPrefix;

impl private::Sealed for DelimiterPrefix {

}

impl DelimiterType for DelimiterPrefix {

}

#[derive(Debug, Clone, Copy, PartialEq, Eq)]
pub struct DelimiterSeparator;

impl private::Sealed for DelimiterSeparator {

}

impl DelimiterType for DelimiterSeparator {

}

#[derive(Debug, Clone, Copy, PartialEq, Eq)]
pub struct DelimiterPostfix;

impl private::Sealed for DelimiterPostfix {

}

impl DelimiterType for DelimiterPostfix {

}

#[derive(Debug, Clone, Copy, PartialEq, Eq)]
pub struct DelimiterKey;

impl private::Sealed for DelimiterKey {

}

impl DelimiterType for DelimiterKey {

}

#[derive(Debug, Clone, Copy, PartialEq, Eq)]
pub struct DelimiterValue;

impl private::Sealed for DelimiterValue {

}

impl DelimiterType for DelimiterValue {

}

/// A text with an optional prefix and suffix, tagged with the kind of text it is.
#[derive(Debug, PartialEq, Eq)]
pub struct DelimiterString<'a, T: DelimiterType> {
    text: &'a str,
    prefix: Option<&'a str>,
    suffix: Option<&'a str>,
    _phantom: PhantomData<T>,
}

impl<'a, T: DelimiterType> Clone for DelimiterString<'a, T> {
    fn clone(&self) -> (r: Self)
        ensures
            r.parts() == self.parts(),
    {
        Self { text: self.text, prefix: self.prefix, suffix: self.suffix, _phantom: PhantomData }
    }
}

/// Whether an optional piece adds nothing: absent or empty.
pub open spec fn is_blank_part(s: Option<&str>) -> bool {
    opt_text(s).len() == 0
}

impl<'a, T: DelimiterType> DelimiterString<'a, T> {
    /// The text, prefix and suffix.
    pub closed spec fn parts(&self) -> (&'a str, Option<&'a str>, Option<&'a str>) {
        (self.text, self.prefix, self.suffix)
    }

    pub fn new(text: &'a str, prefix: Option<&'a str>, suffix: Option<&'a str>) -> (r: Self)
        ensures
            r.parts() == (text, prefix, suffix),
    {
        Self { text, prefix, suffix, _phantom: PhantomData }
    }

    /// Prefix, text, suffix; borrows the text when neither piece adds anything.
    pub fn delimit(&self) -> (r: Cow<'a, str>)
        ensures
            r@ == opt_text(self.parts().1) + self.parts().0@ + opt_text(self.parts().2),
            (is_blank_part(self.parts().1) && is_blank_part(self.parts().2)) <==> r is Borrowed,
    {
        let p_blank = match self.prefix {
            Some(p) => p.is_empty(),
            None => true,
        };
        let s_blank = match self.suffix {
            Some(s) => s.is_empty(),
            None => true,
        };
        if p_blank && s_blank {
            assert(opt_text(self.prefix) + self.text@ + opt_text(self.suffix) =~= self.text@);
            return Cow::Borrowed(self.text);
        }
        let mut out = String::new();
        if !p_blank {
            match self.prefix {
                Some(p) => out.append(p),
                None => {},
            }
        }
        out.append(self.text);
        if !s_blank {
            match self.suffix {
                Some(s) => out.append(s),
                None => {},
            }
        }
        assert(out@ =~= opt_text(self.prefix) + self.text@ + opt_text(self.suffix));
        Cow::Owned(out)
    }
}

} // verus!
