pub mod argument;
pub mod argument_builder;
pub mod delimited_string;

use crate::command::arguments::argument::{argument_text, texts};
use crate::command::argument::Argument;
use crate::command::text::byte_len;
use vstd::prelude::*;
use vstd::string::StringExecFns;

verus! {

/// Texts joined with `sep` between neighbours.
pub open spec fn join_texts(list: Seq<Seq<char>>, sep: Seq<char>) -> Seq<char>
    decreases list.len(),
{
    if list.len() == 0 {
        Seq::empty()
    } else if list.len() == 1 {
        list[0]
    } else {
        join_texts(list.drop_last(), sep) + sep + list.last()
    }
}

/// The texts of the arguments.
pub open spec fn argument_texts(items: Seq<Argument>) -> Seq<Seq<char>> {
    items.map_values(|a: Argument| argument_text(a))
}

/// The rendered text of an argument list: empty without arguments, otherwise the
/// arguments joined with the separator, inside the enclosing delimiter if any.
pub open spec fn arguments_text(
    items: Seq<Argument>,
    sep: Seq<char>,
    enclosing: Option<(&str, &str)>,
) -> Seq<char> {
    if items.len() == 0 {
        Seq::empty()
    } else {
        let joined = join_texts(argument_texts(items), sep);
        match enclosing {
            Some((start, end)) => start@ + joined + end@,
            None => joined,
        }
    }
}

/// How an argument list renders, for every list: nothing without arguments;
/// otherwise the arguments' texts joined with the separator (a single argument
/// alone, and each further one after a separator), and an enclosing delimiter
/// around all of it, however many arguments there are.
pub proof fn law_arguments_layout(items: Seq<Argument>, sep: Seq<char>, start: &str, end: &str)
    ensures
        items.len() == 0 ==> arguments_text(items, sep, Some((start, end))) == Seq::<char>::empty(),
        items.len() == 0 ==> arguments_text(items, sep, None) == Seq::<char>::empty(),
        items.len() >= 1 ==> arguments_text(items, sep, Some((start, end))) == start@
            + arguments_text(items, sep, None) + end@,
        items.len() == 1 ==> arguments_text(items, sep, None) == argument_text(items[0]),
        items.len() >= 2 ==> arguments_text(items, sep, None) == arguments_text(
            items.drop_last(),
            sep,
            None,
        ) + sep + argument_text(items.last()),
{
    if items.len() >= 2 {
        assert(argument_texts(items).drop_last() =~= argument_texts(items.drop_last()));
    }
}

/// An ordered list of arguments with the text that separates them.
#[derive(Debug, Clone, PartialEq, Eq)]
pub struct Arguments<'a> {
    items: Vec<Argument<'a>>,
    item_separator: &'a str,
    enclosing_delimiter: Option<(&'a str, &'a str)>,
}

impl<'a> Arguments<'a> {
    /// The arguments, in order.
    pub closed spec fn items_view(&self) -> Seq<Argument<'a>> {
        self.items@
    }

    /// The text between two arguments.
    pub closed spec fn separator_view(&self) -> &'a str {
        self.item_separator
    }

    /// The text around the whole list, if any.
    pub closed spec fn enclosing_view(&self) -> Option<(&'a str, &'a str)> {
        self.enclosing_delimiter
    }

    /// The rendered text.
    pub open spec fn text(&self) -> Seq<char> {
        arguments_text(self.items_view(), self.separator_view()@, self.enclosing_view())
    }

    pub fn new(item_separator: &'a str) -> (r: Self)
        ensures
            r.items_view() == Seq::<Argument<'a>>::empty(),
            r.separator_view() == item_separator,
            r.enclosing_view() is None,
    {
        Self { items: Vec::new(), item_separator, enclosing_delimiter: None }
    }

    pub fn push(&mut self, argument: Argument<'a>)
        ensures
            final(self).items_view() == old(self).items_view().push(argument),
            final(self).separator_view() == old(self).separator_view(),
            final(self).enclosing_view() == old(self).enclosing_view(),
    {
        self.items.push(argument);
    }

    pub fn with_argument(self, argument: Argument<'a>) -> (r: Self)
        ensures
            r.items_view() == self.items_view().push(argument),
            r.separator_view() == self.separator_view(),
            r.enclosing_view() == self.enclosing_view(),
    {
        let mut s = self;
        s.items.push(argument);
        s
    }

    pub fn set_item_separator(&mut self, separator: &'a str)
        ensures
            final(self).items_view() == old(self).items_view(),
            final(self).separator_view() == separator,
            final(self).enclosing_view() == old(self).enclosing_view(),
    {
        self.item_separator = separator;
    }

    pub fn with_enclosing_delimiter(self, start: &'a str, end: &'a str) -> (r: Self)
        ensures
            r.items_view() == self.items_view(),
            r.separator_view() == self.separator_view(),
            r.enclosing_view() == Some((start, end)),
    {
        let mut s = self;
        s.enclosing_delimiter = Some((start, end));
        s
    }

    pub fn items(&self) -> (r: &[Argument<'a>])
        ensures
            r@ == self.items_view(),
    {
        self.items.as_slice()
    }

    pub fn is_empty(&self) -> (r: bool)
        ensures
            r == (self.items_view().len() == 0),
    {
        self.items.len() == 0
    }

    /// Each argument rendered on its own.
    pub fn to_arg_strings(&self) -> (r: Vec<String>)
        ensures
            texts(r@) == argument_texts(self.items_view()),
    {
        let mut out: Vec<String> = Vec::new();
        let n = self.items.len();
        let mut i: usize = 0;
        while i < n
            invariant
                n == self.items@.len(),
                i <= n,
                texts(out@) == argument_texts(self.items@.take(i as int)),
            decreases n - i,
        {
            let s = self.items[i].render();
            let ghost prev = out@;
            out.push(s);
            proof {
                assert(texts(out@) =~= texts(prev).push(s@));
                assert(self.items@.take(i + 1) =~= self.items@.take(i as int).push(self.items@[i as int]));
                assert(argument_texts(self.items@.take(i + 1)) =~= argument_texts(self.items@.take(i as int)).push(argument_text(self.items@[i as int])));
            }
            i = i + 1;
        }
        assert(self.items@.take(n as int) =~= self.items@);
        out
    }

    /// The whole list as text.
    pub fn render(&self) -> (r: String)
        ensures
            r@ == self.text(),
    {
        let n = self.items.len();
        if n == 0 {
            return String::new();
        }
        let ghost list = argument_texts(self.items@);
        let mut joined = String::new();
        let mut i: usize = 0;
        while i < n
            invariant
                n == self.items@.len(),
                n > 0,
                i <= n,
                list == argument_texts(self.items@),
                joined@ == join_texts(list.take(i as int), self.item_separator@),
            decreases n - i,
        {
            let ghost prev = joined@;
            if i > 0 {
                joined.append(self.item_separator);
            }
            self.items[i].write_to(&mut joined);
            proof {
                let t = list.take(i + 1);
                assert(t.drop_last() =~= list.take(i as int));
                assert(t.last() == list[i as int]);
                if i == 0 {
                    assert(prev =~= Seq::<char>::empty());
                    assert(joined@ =~= t[0]);
                } else {
                    assert(joined@ =~= join_texts(t.drop_last(), self.item_separator@) + self.item_separator@ + t.last());
                }
            }
            i = i + 1;
        }
        assert(list.take(n as int) =~= list);
        match self.enclosing_delimiter {
            Some((start, end)) => {
                let mut out = String::from_str(start);
                out.append(joined.as_str());
                out.append(end);
                out
            },
            None => joined,
        }
    }

    /// The byte length of the rendered text.
    pub fn rendered_len(&self) -> (r: usize)
        requires
            byte_len(self.text()) <= usize::MAX,
        ensures
            r == byte_len(self.text()),
    {
        let s = self.render();
        s.as_str().len()
    }
}

impl<'a> Default for Arguments<'a> {
    /// An empty list separated by single spaces.
    fn default() -> (r: Self)
        ensures
            r.items_view() == Seq::<Argument<'a>>::empty(),
            r.separator_view()@ == seq![' '],
            r.enclosing_view() is None,
    {
        let space = " ";
        proof {
            reveal_strlit(" ");
        }
        Self::new(space)
    }
}

} // verus!
