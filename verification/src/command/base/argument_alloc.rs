use crate::command::arguments::join_texts;
use crate::command::base::argument::{base_argument_text, Argument, Formatting};
use vstd::prelude::*;
use vstd::string::StringExecFns;

verus! {

/// A list of arguments rendered with one formatting.
#[derive(Debug, Clone, PartialEq, Eq)]
pub struct ArgumentList<'a> {
    pub arguments: Vec<Argument<'a>>,
    pub formatting: Formatting<'a>,
}

/// No arguments, with the default formatting; it renders as nothing.
impl<'a> Default for ArgumentList<'a> {
    fn default() -> (r: Self)
        ensures
            r.arguments@ == Seq::<Argument<'a>>::empty(),
            r.formatting.affix.prefix@ == Seq::<char>::empty(),
            r.formatting.affix.postfix@ == Seq::<char>::empty(),
            r.formatting.separator@ == Seq::<char>::empty(),
            argument_list_text(r) == Seq::<char>::empty(),
    {
        let r = ArgumentList { arguments: Vec::new(), formatting: Formatting::default() };
        assert(argument_list_text(r) =~= Seq::<char>::empty());
        r
    }
}

/// Prefix, the arguments joined with the separator, postfix.
pub open spec fn argument_list_text(l: ArgumentList) -> Seq<char> {
    l.formatting.affix.prefix@ + join_texts(
        l.arguments@.map_values(|a: Argument| base_argument_text(a)),
        l.formatting.separator@,
    ) + l.formatting.affix.postfix@
}

impl ArgumentList<'_> {
    /// The list as text, as `Display` shows it.
    pub fn to_string(&self) -> (r: String)
        ensures
            r@ == argument_list_text(*self),
    {
        let ghost list = self.arguments@.map_values(|a: Argument| base_argument_text(a));
        let ghost sep = self.formatting.separator@;
        let mut out = String::from_str(self.formatting.affix.prefix);
        let ghost start = out@;
        let n = self.arguments.len();
        let mut i: usize = 0;
        proof {
            assert(list.take(0) =~= Seq::<Seq<char>>::empty());
            assert(out@ =~= start + join_texts(list.take(0), sep));
        }
        while i < n
            invariant
                n == self.arguments@.len(),
                i <= n,
                list == self.arguments@.map_values(|a: Argument| base_argument_text(a)),
                sep == self.formatting.separator@,
                out@ == start + join_texts(list.take(i as int), sep),
            decreases n - i,
        {
            let ghost prev = out@;
            if i > 0 {
                out.append(self.formatting.separator);
            }
            self.arguments[i].write_to(&mut out);
            proof {
                let t = list.take(i + 1);
                assert(t.drop_last() =~= list.take(i as int));
                assert(t.last() == list[i as int]);
                if i == 0 {
                    assert(join_texts(list.take(i as int), sep) =~= Seq::<char>::empty());
                    assert(out@ =~= start + t[0]);
                } else {
                    assert(out@ =~= start + (join_texts(t.drop_last(), sep) + sep + t.last()));
                }
            }
            i = i + 1;
        }
        assert(list.take(n as int) =~= list);
        out.append(self.formatting.affix.postfix);
        assert(out@ =~= argument_list_text(*self));
        out
    }
}

} // verus!
