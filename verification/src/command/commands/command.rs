use crate::command::arguments::Arguments;
use crate::command::text::{byte_len, lemma_byte_len_concat, lemma_byte_len_space, str_byte_len};
use vstd::prelude::*;
use vstd::string::StringExecFns;

verus! {

/// A program with its arguments and an optional working directory.
#[derive(Debug, Clone, PartialEq, Eq)]
pub struct Command<'a> {
    pub path: &'a str,
    pub arguments: Arguments<'a>,
    pub current_dir: Option<&'a str>,
}

/// The command line: the path, then a space and the arguments if there are any.
pub open spec fn command_text(c: Command) -> Seq<char> {
    if c.arguments.items_view().len() == 0 {
        c.path@
    } else {
        c.path@ + seq![' '] + c.arguments.text()
    }
}

/// The length of a command line: the path's alone when there are no
/// arguments, otherwise the path's, one for the space, and the arguments'.
pub proof fn law_command_len(c: Command)
    ensures
        byte_len(command_text(c)) == if c.arguments.items_view().len() == 0 {
            byte_len(c.path@)
        } else {
            byte_len(c.path@) + 1 + byte_len(c.arguments.text())
        },
{
    if c.arguments.items_view().len() != 0 {
        lemma_byte_len_space();
        lemma_byte_len_concat(c.path@, seq![' ']);
        lemma_byte_len_concat(c.path@ + seq![' '], c.arguments.text());
    }
}

impl<'a> Command<'a> {
    pub fn new(path: &'a str, arguments: Arguments<'a>) -> (r: Self)
        ensures
            r.path == path,
            r.arguments == arguments,
            r.current_dir is None,
    {
        Self { path, arguments, current_dir: None }
    }

    /// A command without arguments (an empty list separated by spaces).
    pub fn plain(path: &'a str) -> (r: Self)
        ensures
            r.path == path,
            r.arguments.items_view().len() == 0,
            r.arguments.separator_view()@ == seq![' '],
            r.arguments.enclosing_view() is None,
            r.current_dir is None,
    {
        Self { path, arguments: Arguments::default(), current_dir: None }
    }

    /// Sets the working directory.
    pub fn current_dir(self, dir: &'a str) -> (r: Self)
        ensures
            r.path == self.path,
            r.arguments == self.arguments,
            r.current_dir == Some(dir),
    {
        let mut c = self;
        c.current_dir = Some(dir);
        c
    }

    /// The exact byte length of the rendered command line.
    pub fn len(&self) -> (r: usize)
        requires
            byte_len(command_text(*self)) <= usize::MAX,
        ensures
            r == byte_len(command_text(*self)),
    {
        proof {
            law_command_len(*self);
        }
        if self.arguments.is_empty() {
            str_byte_len(self.path)
        } else {
            str_byte_len(self.path) + 1 + self.arguments.rendered_len()
        }
    }

    /// Whether the path is empty.
    pub fn is_empty(&self) -> (r: bool)
        ensures
            r == (self.path@.len() == 0),
    {
        self.path.is_empty()
    }

    /// The command line as text, as `Display` shows it.
    pub fn render(&self) -> (r: String)
        ensures
            r@ == command_text(*self),
    {
        let mut result = String::from_str(self.path);
        if !self.arguments.is_empty() {
            let space = " ";
            proof {
                reveal_strlit(" ");
            }
            result.append(space);
            let args = self.arguments.render();
            result.append(args.as_str());
        }
        result
    }
}

} // verus!
