use crate::command::arguments::argument_builder::ArgumentBuilder;
use crate::command::arguments::delimited_string::{
    delimited_text, is_quote_pair, DelimitedString, Delimiter,
};
use crate::command::text::{is_blank, is_single_char, is_white_space, opt_text, push_opt, starts_with_two};
use vstd::prelude::*;
use vstd::std_specs::convert::FromSpecImpl;
use vstd::string::StringExecFns;

verus! {

/// One command-line argument: `[delimiter start][prefix][key][separator][value][postfix][delimiter end]`,
/// where everything but the key is optional.
#[derive(Debug, Clone, PartialEq, Eq)]
pub struct Argument<'a> {
    pub prefix: Option<&'a str>,
    pub key: DelimitedString<'a>,
    pub separator: Option<&'a str>,
    pub value: Option<DelimitedString<'a>>,
    pub postfix: Option<&'a str>,
    pub delimiter: Option<Delimiter<'a>>,
}

/// The rendered text of an argument.
pub open spec fn argument_text(a: Argument) -> Seq<char> {
    let outer_start = match a.delimiter {
        Some(d) => opt_text(d.start),
        None => Seq::empty(),
    };
    let outer_end = match a.delimiter {
        Some(d) => opt_text(d.end),
        None => Seq::empty(),
    };
    let value = match a.value {
        Some(v) => delimited_text(v),
        None => Seq::empty(),
    };
    outer_start + opt_text(a.prefix) + delimited_text(a.key) + opt_text(a.separator) + value
        + opt_text(a.postfix) + outer_end
}

/// Whether every character of `s` is white space.
pub open spec fn all_white_space(s: Seq<char>) -> bool {
    forall|i: int| 0 <= i < s.len() ==> is_white_space(#[trigger] s[i])
}

/// The argv tokens of an argument, without quotes or delimiters.
pub open spec fn argument_tokens(a: Argument) -> Seq<Seq<char>> {
    let key = a.key.value@;
    match (a.prefix, a.separator, a.value) {
        (Some(p), Some(sep), Some(v)) => if all_white_space(sep@) {
            seq![p@ + key, v.value@]
        } else {
            seq![p@ + key + sep@ + v.value@]
        },
        (Some(p), None, None) => seq![p@ + key],
        _ => seq![key],
    }
}

/// The argument with every delimiter taken off: around the key, around the
/// value and around the whole argument.
pub open spec fn without_delimiters<'a>(a: Argument<'a>) -> Argument<'a> {
    Argument {
        key: DelimitedString { value: a.key.value, delimiter: None },
        value: match a.value {
            Some(v) => Some(DelimitedString { value: v.value, delimiter: None }),
            None => None,
        },
        delimiter: None,
        ..a
    }
}

/// The layout of a rendered argument, stated against its fields: the prefix,
/// the key, the separator, the value and the postfix in this order, and the
/// outer delimiter around all of them (the postfix inside it).
pub proof fn law_argument_layout(a: Argument)
    ensures
        argument_text(Argument { delimiter: None, ..a }) == opt_text(a.prefix) + delimited_text(
            a.key,
        ) + opt_text(a.separator) + match a.value {
            Some(v) => delimited_text(v),
            None => Seq::<char>::empty(),
        } + opt_text(a.postfix),
        a.delimiter matches Some(d) ==> argument_text(a) == opt_text(d.start) + argument_text(
            Argument { delimiter: None, ..a },
        ) + opt_text(d.end),
{
    let inner = Argument { delimiter: None, ..a };
    assert(argument_text(inner) =~= opt_text(a.prefix) + delimited_text(a.key) + opt_text(
        a.separator,
    ) + match a.value {
        Some(v) => delimited_text(v),
        None => Seq::<char>::empty(),
    } + opt_text(a.postfix));
    if let Some(d) = a.delimiter {
        assert(argument_text(a) =~= opt_text(d.start) + argument_text(inner) + opt_text(d.end));
    }
}

/// Argv tokens never carry a delimiter: taking every delimiter off the argument
/// leaves its tokens unchanged. With a prefix, a value and a separator made of
/// white space the tokens are the prefixed key and the bare value; with any
/// other separator they are one token, prefix, key, separator and bare value.
/// A flag (prefix, no separator, no value) is the prefixed key; without a
/// prefix, or with only one of separator and value, the token is the bare key.
pub proof fn law_arg_tokens_unquoted(a: Argument)
    ensures
        argument_tokens(without_delimiters(a)) == argument_tokens(a),
        a.prefix is Some && a.separator is Some && a.value is Some && all_white_space(
            a.separator.unwrap()@,
        ) ==> argument_tokens(a) == seq![
            a.prefix.unwrap()@ + a.key.value@,
            a.value.unwrap().value@,
        ],
        a.prefix is Some && a.separator is Some && a.value is Some && !all_white_space(
            a.separator.unwrap()@,
        ) ==> argument_tokens(a) == seq![
            a.prefix.unwrap()@ + a.key.value@ + a.separator.unwrap()@ + a.value.unwrap().value@,
        ],
        a.prefix is None ==> argument_tokens(a) == seq![a.key.value@],
        a.prefix is Some && a.separator is None && a.value is None ==> argument_tokens(a) == seq![
            a.prefix.unwrap()@ + a.key.value@,
        ],
        a.prefix is Some && (a.separator is None) != (a.value is None) ==> argument_tokens(a)
            == seq![a.key.value@],
{
}

/// The characters of each string.
pub open spec fn texts(v: Seq<String>) -> Seq<Seq<char>> {
    v.map_values(|s: String| s@)
}

impl<'a> Argument<'a> {
    pub fn builder() -> (r: ArgumentBuilder<'a>)
        ensures
            r.is_blank(),
    {
        ArgumentBuilder::new()
    }

    /// Appends the rendered argument to `out`.
    pub fn write_to(&self, out: &mut String)
        ensures
            final(out)@ == old(out)@ + argument_text(*self),
    {
        let ghost start = out@;
        match self.delimiter {
            Some(d) => push_opt(out, d.start),
            None => {},
        }
        push_opt(out, self.prefix);
        self.key.write_to(out);
        push_opt(out, self.separator);
        match self.value {
            Some(v) => v.write_to(out),
            None => {},
        }
        push_opt(out, self.postfix);
        match self.delimiter {
            Some(d) => push_opt(out, d.end),
            None => {},
        }
        assert(out@ =~= start + argument_text(*self));
    }

    /// The argument as text.
    pub fn render(&self) -> (r: String)
        ensures
            r@ == argument_text(*self),
    {
        let mut result = String::new();
        self.write_to(&mut result);
        assert(result@ =~= argument_text(*self));
        result
    }

    /// The unquoted argv tokens for running a process: a blank separator splits
    /// key and value into two tokens (`-v /var/sock`), any other keeps them in one
    /// (`--env=NODE_ENV=production`).
    pub fn to_arg_tokens(&self) -> (r: Vec<String>)
        ensures
            texts(r@) == argument_tokens(*self),
    {
        let mut tokens: Vec<String> = Vec::new();
        let key_raw = self.key.value;
        match (self.prefix, self.separator, self.value) {
            (Some(p), Some(sep), Some(val)) => {
                let v = val.value;
                if is_blank(sep) {
                    let mut first = String::from_str(p);
                    first.append(key_raw);
                    tokens.push(first);
                    tokens.push(String::from_str(v));
                    assert(texts(tokens@) =~= seq![p@ + key_raw@, v@]);
                } else {
                    let mut one = String::from_str(p);
                    one.append(key_raw);
                    one.append(sep);
                    one.append(v);
                    tokens.push(one);
                    assert(texts(tokens@) =~= seq![p@ + key_raw@ + sep@ + v@]);
                }
            },
            (Some(p), None, None) => {
                let mut one = String::from_str(p);
                one.append(key_raw);
                tokens.push(one);
                assert(texts(tokens@) =~= seq![p@ + key_raw@]);
            },
            _ => {
                tokens.push(String::from_str(key_raw));
                assert(texts(tokens@) =~= seq![key_raw@]);
            },
        }
        tokens
    }

    /// A flag or switch: a prefix but no value.
    pub fn is_flag(&self) -> (r: bool)
        ensures
            r == (self.prefix is Some && self.value is None),
    {
        self.prefix.is_some() && self.value.is_none()
    }

    pub fn has_value(&self) -> (r: bool)
        ensures
            r == self.value is Some,
    {
        self.value.is_some()
    }

    /// A positional argument: no prefix.
    pub fn is_positional(&self) -> (r: bool)
        ensures
            r == self.prefix is None,
    {
        self.prefix.is_none()
    }

    /// Whether the prefix starts with `--`.
    pub fn is_long_flag(&self) -> (r: bool)
        ensures
            r == (self.prefix matches Some(p) && p@.len() >= 2 && p@[0] == '-' && p@[1] == '-'),
    {
        match self.prefix {
            Some(p) => starts_with_two(p, '-', '-'),
            None => false,
        }
    }

    /// Whether the prefix is `-` or `/`.
    pub fn is_short_flag(&self) -> (r: bool)
        ensures
            r == (self.prefix matches Some(p) && (p@ == seq!['-'] || p@ == seq!['/'])),
    {
        match self.prefix {
            Some(p) => is_single_char(p, '-') || is_single_char(p, '/'),
            None => false,
        }
    }

    /// Whether the value is in quotes.
    pub fn is_value_quoted(&self) -> (r: bool)
        ensures
            r == (self.value matches Some(v) && v.delimiter matches Some(d) && is_quote_pair(
                d.start,
                d.end,
            )),
    {
        match self.value {
            Some(v) => v.is_quoted(),
            None => false,
        }
    }

    /// The bare key.
    pub fn key_str(&self) -> (r: &'a str)
        ensures
            r == self.key.value,
    {
        self.key.value
    }

    /// The bare value, if there is one.
    pub fn value_str(&self) -> (r: Option<&'a str>)
        ensures
            r == match self.value {
                Some(v) => Some(v.value),
                None => None::<&'a str>,
            },
    {
        match self.value {
            Some(v) => Some(v.value),
            None => None,
        }
    }

    /// The bare value, or `default` when there is none.
    pub fn value_or(&self, default: &'a str) -> (r: &'a str)
        ensures
            r == match self.value {
                Some(v) => v.value,
                None => default,
            },
    {
        match self.value_str() {
            Some(v) => v,
            None => default,
        }
    }
}

/// A plain string becomes a positional argument with that key.
impl<'a> From<&'a str> for Argument<'a> {
    fn from(s: &'a str) -> (r: Argument<'a>) {
        Argument {
            prefix: None,
            key: DelimitedString::plain(s),
            separator: None,
            value: None,
            postfix: None,
            delimiter: None,
        }
    }
}

impl<'a> FromSpecImpl<&'a str> for Argument<'a> {
    open spec fn obeys_from_spec() -> bool {
        true
    }

    open spec fn from_spec(s: &'a str) -> Argument<'a> {
        Argument {
            prefix: None,
            key: DelimitedString { value: s, delimiter: None },
            separator: None,
            value: None,
            postfix: None,
            delimiter: None,
        }
    }
}

} // verus!
