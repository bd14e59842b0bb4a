use crate::command::text::{
    is_single_char, lemma_byte_len_concat, lemma_byte_len_empty, opt_byte_len, opt_str_byte_len,
    opt_text, push_opt, byte_len,
};
use vstd::prelude::*;
use vstd::std_specs::convert::FromSpecImpl;
use vstd::string::StringExecFns;

verus! {

// ==========================================
// Delimiter
// ==========================================

/// Text placed before and after something, either side optional.
#[derive(Debug, Clone, Copy, PartialEq, Eq)]
pub struct Delimiter<'a> {
    pub start: Option<&'a str>,
    pub end: Option<&'a str>,
}

/// Both sides are the same single character, `"` or `'`.
pub open spec fn is_quote_pair(start: Option<&str>, end: Option<&str>) -> bool {
    match (start, end) {
        (Some(s), Some(e)) => (s@ == seq!['"'] && e@ == seq!['"']) || (s@ == seq!['\''] && e@
            == seq!['\'']),
        _ => false,
    }
}

impl<'a> Default for Delimiter<'a> {
    fn default() -> (r: Self)
        ensures
            r.start is None,
            r.end is None,
    {
        Delimiter { start: None, end: None }
    }
}

impl<'a> Delimiter<'a> {
    pub fn new(start: Option<&'a str>, end: Option<&'a str>) -> (r: Self)
        ensures
            r.start == start,
            r.end == end,
    {
        Self { start, end }
    }

    /// The same text on both sides (for example double quotes).
    pub fn symmetrical(delimiter: &'a str) -> (r: Self)
        ensures
            r.start == Some(delimiter),
            r.end == Some(delimiter),
    {
        Self { start: Some(delimiter), end: Some(delimiter) }
    }

    /// The total byte length of both sides.
    pub open spec fn byte_len(&self) -> nat {
        opt_byte_len(self.start) + opt_byte_len(self.end)
    }

    /// The total byte length of both sides.
    pub fn len(&self) -> (r: usize)
        requires
            self.byte_len() <= usize::MAX,
        ensures
            r == self.byte_len(),
    {
        opt_str_byte_len(self.start) + opt_str_byte_len(self.end)
    }

    pub fn is_empty(&self) -> (r: bool)
        requires
            self.byte_len() <= usize::MAX,
        ensures
            r == (self.byte_len() == 0),
    {
        self.len() == 0
    }

    /// Whether both sides are double quotes, or both single quotes.
    pub fn is_quote(&self) -> (r: bool)
        ensures
            r == is_quote_pair(self.start, self.end),
    {
        match (self.start, self.end) {
            (Some(s), Some(e)) => (is_single_char(s, '"') && is_single_char(e, '"')) || (
            is_single_char(s, '\'') && is_single_char(e, '\'')),
            _ => false,
        }
    }
}

// ==========================================
// DelimitedString
// ==========================================

/// A value with an optional delimiter around it.
#[derive(Debug, Clone, Copy, PartialEq, Eq)]
pub struct DelimitedString<'a> {
    pub value: &'a str,
    pub delimiter: Option<Delimiter<'a>>,
}

/// The rendered text: start, value, end.
pub open spec fn delimited_text(d: DelimitedString) -> Seq<char> {
    match d.delimiter {
        Some(del) => opt_text(del.start) + d.value@ + opt_text(del.end),
        None => d.value@,
    }
}

impl<'a> DelimitedString<'a> {
    /// A value without delimiter.
    pub fn plain(value: &'a str) -> (r: Self)
        ensures
            r.value == value,
            r.delimiter is None,
    {
        Self { value, delimiter: None }
    }

    /// A value with the given sides; without any side there is no delimiter.
    pub fn new(start: Option<&'a str>, value: &'a str, end: Option<&'a str>) -> (r: Self)
        ensures
            r.value == value,
            (start is Some || end is Some) ==> r.delimiter == Some(
                Delimiter { start, end },
            ),
            (start is None && end is None) ==> r.delimiter is None,
    {
        let delimiter = if start.is_some() || end.is_some() {
            Some(Delimiter::new(start, end))
        } else {
            None
        };
        Self { value, delimiter }
    }

    pub fn with_delimiter(value: &'a str, delimiter: Delimiter<'a>) -> (r: Self)
        ensures
            r.value == value,
            r.delimiter == Some(delimiter),
    {
        Self { value, delimiter: Some(delimiter) }
    }

    /// The byte length of the rendered text.
    pub open spec fn byte_len(&self) -> nat {
        byte_len(self.value@) + match self.delimiter {
            Some(d) => d.byte_len(),
            None => 0,
        }
    }

    /// The byte length of the value and its delimiter.
    pub fn len(&self) -> (r: usize)
        requires
            self.byte_len() <= usize::MAX,
        ensures
            r == self.byte_len(),
            r == byte_len(delimited_text(*self)),
    {
        proof {
            self.lemma_byte_len();
        }
        let v = crate::command::text::str_byte_len(self.value);
        match self.delimiter {
            Some(d) => v + d.len(),
            None => v,
        }
    }

    /// The byte length of the rendered text is the sum of its parts.
    pub proof fn lemma_byte_len(&self)
        ensures
            self.byte_len() == byte_len(delimited_text(*self)),
    {
        if let Some(d) = self.delimiter {
            lemma_byte_len_concat(opt_text(d.start), self.value@);
            lemma_byte_len_concat(opt_text(d.start) + self.value@, opt_text(d.end));
        }
    }

    pub fn is_empty(&self) -> (r: bool)
        requires
            self.byte_len() <= usize::MAX,
        ensures
            r == (self.byte_len() == 0),
    {
        self.len() == 0
    }

    /// Whether the value is in quotes.
    pub fn is_quoted(&self) -> (r: bool)
        ensures
            r == match self.delimiter {
                Some(d) => is_quote_pair(d.start, d.end),
                None => false,
            },
    {
        match self.delimiter {
            Some(d) => d.is_quote(),
            None => false,
        }
    }

    /// Appends the rendered text to `out`.
    pub fn write_to(&self, out: &mut String)
        ensures
            final(out)@ == old(out)@ + delimited_text(*self),
    {
        match self.delimiter {
            Some(d) => {
                push_opt(out, d.start);
                out.append(self.value);
                push_opt(out, d.end);
            },
            None => {
                out.append(self.value);
            },
        }
    }

    /// The rendered text, as `Display` shows it.
    pub fn to_string(&self) -> (r: String)
        ensures
            r@ == delimited_text(*self),
    {
        let mut out = String::new();
        self.write_to(&mut out);
        out
    }
}

/// Putting a delimiter around a value adds exactly the delimiter's length to
/// the rendered text.
pub proof fn law_delimiter_len<'a>(value: &'a str, d: Delimiter<'a>)
    ensures
        byte_len(delimited_text(DelimitedString { value, delimiter: Some(d) })) == byte_len(value@)
            + d.byte_len(),
{
    DelimitedString { value, delimiter: Some(d) }.lemma_byte_len();
}

/// The length of a delimited string is the length of its rendered text, the
/// value's plus the delimiter's, and it is zero exactly when nothing is rendered.
pub proof fn law_delimited_len(ds: DelimitedString)
    ensures
        ds.byte_len() == byte_len(delimited_text(ds)),
        ds.byte_len() == byte_len(ds.value@) + match ds.delimiter {
            Some(d) => d.byte_len(),
            None => 0,
        },
        (ds.byte_len() == 0) == (delimited_text(ds).len() == 0),
{
    ds.lemma_byte_len();
    lemma_byte_len_empty(delimited_text(ds));
}

/// A plain value has no delimiter, is what `From<&str>` makes, renders as the
/// value itself with the value's length, and is not quoted.
pub proof fn law_plain<'a>(value: &'a str)
    ensures
        ({
            let p = DelimitedString { value, delimiter: None };
            &&& p == <DelimitedString<'a> as vstd::std_specs::convert::FromSpec<&'a str>>::from_spec(value)
            &&& delimited_text(p) == value@
            &&& p.byte_len() == byte_len(value@)
            &&& !match p.delimiter {
                Some(d) => is_quote_pair(d.start, d.end),
                None => false,
            }
        }),
{
}

/// A plain string becomes a value without delimiter.
impl<'a> From<&'a str> for DelimitedString<'a> {
    fn from(s: &'a str) -> (r: DelimitedString<'a>) {
        DelimitedString::plain(s)
    }
}

impl<'a> FromSpecImpl<&'a str> for DelimitedString<'a> {
    open spec fn obeys_from_spec() -> bool {
        true
    }

    open spec fn from_spec(s: &'a str) -> DelimitedString<'a> {
        DelimitedString { value: s, delimiter: None }
    }
}

} // verus!
