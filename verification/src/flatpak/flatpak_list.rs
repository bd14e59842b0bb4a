use crate::command::argument::Argument;
use crate::command::arguments::argument::texts;
use crate::command::text::{char_is_white_space, is_white_space};
use crate::command::arguments::Arguments;
use crate::command::commands::command::Command;
use crate::flatpak::flatpak::{flatpak_command, positional, Flatpak};
use vstd::prelude::*;
use vstd::string::StrSliceExecFns;
use vstd::string::StringExecFns;

verus! {

/// What `flatpak list` lists.
#[derive(Debug, Clone, Copy, PartialEq, Eq)]
pub enum FlatpakListType {
    All,
    User,
    System,
    App,
    Runtime,
}

/// The command-line flag of a list type.
pub open spec fn list_flag(t: FlatpakListType) -> &'static str {
    match t {
        FlatpakListType::All => "--all",
        FlatpakListType::User => "--user",
        FlatpakListType::System => "--system",
        FlatpakListType::App => "--app",
        FlatpakListType::Runtime => "--runtime",
    }
}

impl FlatpakListType {
    pub fn as_flag(&self) -> (r: &'static str)
        ensures
            r == list_flag(*self),
    {
        match self {
            Self::All => "--all",
            Self::User => "--user",
            Self::System => "--system",
            Self::App => "--app",
            Self::Runtime => "--runtime",
        }
    }
}

/// What can be given as list options: one type, a slice, an array or a vector.
pub trait IntoFlatpakListOptions: Sized {
    /// The options, in order.
    spec fn options_view(self) -> Seq<FlatpakListType>;

    fn into_options(self) -> (r: Vec<FlatpakListType>)
        ensures
            r@ == self.options_view(),
    ;
}

impl IntoFlatpakListOptions for FlatpakListType {
    open spec fn options_view(self) -> Seq<FlatpakListType> {
        seq![self]
    }

    fn into_options(self) -> (r: Vec<FlatpakListType>) {
        let mut v: Vec<FlatpakListType> = Vec::new();
        v.push(self);
        assert(v@ =~= seq![self]);
        v
    }
}

impl IntoFlatpakListOptions for &[FlatpakListType] {
    open spec fn options_view(self) -> Seq<FlatpakListType> {
        self@
    }

    fn into_options(self) -> (r: Vec<FlatpakListType>) {
        vstd::slice::slice_to_vec(self)
    }
}

impl<const N: usize> IntoFlatpakListOptions for [FlatpakListType; N] {
    open spec fn options_view(self) -> Seq<FlatpakListType> {
        self@
    }

    fn into_options(self) -> (r: Vec<FlatpakListType>) {
        vstd::slice::slice_to_vec(self.as_slice())
    }
}

impl IntoFlatpakListOptions for Vec<FlatpakListType> {
    open spec fn options_view(self) -> Seq<FlatpakListType> {
        self@
    }

    fn into_options(self) -> (r: Vec<FlatpakListType>) {
        self
    }
}

impl Flatpak {
    /// `flatpak list --columns=application`, followed by the flag of each option.
    pub fn list<I: IntoFlatpakListOptions>(options: I) -> (r: Command<'static>)
        ensures
            flatpak_command(
                r,
                seq!["list", "--columns=application"] + options.options_view().map_values(
                    |t: FlatpakListType| list_flag(t),
                ),
            ),
    {
        let opts = options.into_options();
        let mut args = Arguments::default();
        args.push(Argument::from("list"));
        args.push(Argument::from("--columns=application"));
        let ghost head = seq!["list", "--columns=application"];
        let ghost flags = opts@.map_values(|t: FlatpakListType| list_flag(t));
        let n = opts.len();
        let mut i: usize = 0;
        assert(args.items_view() =~= (head + flags.take(0)).map_values(|s: &'static str| positional(s)));
        while i < n
            invariant
                n == opts@.len(),
                i <= n,
                flags == opts@.map_values(|t: FlatpakListType| list_flag(t)),
                args.items_view() == (head + flags.take(i as int)).map_values(
                    |s: &'static str| positional(s),
                ),
                args.separator_view()@ == seq![' '],
                args.enclosing_view() is None,
            decreases n - i,
        {
            let flag = opts[i].as_flag();
            args.push(Argument::from(flag));
            proof {
                assert(head + flags.take(i + 1) =~= (head + flags.take(i as int)).push(flag));
            }
            i = i + 1;
        }
        assert(flags.take(n as int) =~= flags);
        Command::new("flatpak", args)
    }
}

// ============================================================================
// Reading the output of `flatpak list`
// ============================================================================

/// The index of the first line break, if any.
pub open spec fn first_newline(s: Seq<char>) -> Option<nat>
    decreases s.len(),
{
    if s.len() == 0 {
        None
    } else if s[0] == '\n' {
        Some(0)
    } else {
        match first_newline(s.drop_first()) {
            Some(k) => Some(k + 1),
            None => None,
        }
    }
}

/// The pieces of `s` between line breaks.
pub open spec fn split_lines(s: Seq<char>) -> Seq<Seq<char>>
    decreases s.len(),
{
    match first_newline(s) {
        None => seq![s],
        Some(k) => if k < s.len() {
            seq![s.take(k as int)] + split_lines(s.skip(k as int + 1))
        } else {
            seq![s]
        },
    }
}

/// `s` without leading white space.
pub open spec fn trim_start(s: Seq<char>) -> Seq<char>
    decreases s.len(),
{
    if s.len() > 0 && is_white_space(s[0]) {
        trim_start(s.drop_first())
    } else {
        s
    }
}

/// `s` without trailing white space.
pub open spec fn trim_end(s: Seq<char>) -> Seq<char>
    decreases s.len(),
{
    if s.len() > 0 && is_white_space(s.last()) {
        trim_end(s.drop_last())
    } else {
        s
    }
}

/// `s` without white space at either end, as `str::trim` gives it.
pub open spec fn trim(s: Seq<char>) -> Seq<char> {
    trim_end(trim_start(s))
}

/// The trimmed lines that are not empty.
pub open spec fn nonempty_trimmed(lines: Seq<Seq<char>>) -> Seq<Seq<char>>
    decreases lines.len(),
{
    if lines.len() == 0 {
        Seq::empty()
    } else {
        let t = trim(lines[0]);
        (if t.len() > 0 {
            seq![t]
        } else {
            Seq::empty()
        }) + nonempty_trimmed(lines.drop_first())
    }
}

/// The application ids in the output of `flatpak list`: every line trimmed, empty
/// lines left out.
pub open spec fn list_entries(output: Seq<char>) -> Seq<Seq<char>> {
    nonempty_trimmed(split_lines(output))
}

proof fn lemma_first_newline(s: Seq<char>, j: int)
    requires
        0 <= j <= s.len(),
        forall|i: int| 0 <= i < j ==> s[i] != '\n',
    ensures
        j < s.len() && s[j] == '\n' ==> first_newline(s) == Some(j as nat),
        j == s.len() ==> first_newline(s) is None,
    decreases j,
{
    if j > 0 {
        let t = s.drop_first();
        assert forall|i: int| 0 <= i < j - 1 implies t[i] != '\n' by {
            assert(t[i] == s[i + 1]);
        }
        lemma_first_newline(t, j - 1);
        if j < s.len() {
            assert(t[j - 1] == s[j]);
        }
    }
}

proof fn lemma_trim_start(s: Seq<char>, p: int)
    requires
        0 <= p <= s.len(),
        forall|i: int| 0 <= i < p ==> is_white_space(#[trigger] s[i]),
        p == s.len() || !is_white_space(s[p]),
    ensures
        trim_start(s) == s.skip(p),
    decreases p,
{
    if p == 0 {
        assert(s.skip(0) =~= s);
    } else {
        let t = s.drop_first();
        assert forall|i: int| 0 <= i < p - 1 implies is_white_space(#[trigger] t[i]) by {
            assert(t[i] == s[i + 1]);
            assert(is_white_space(s[i + 1]));
        }
        if p < s.len() {
            assert(t[p - 1] == s[p]);
        }
        assert(is_white_space(s[0]));
        lemma_trim_start(t, p - 1);
        assert(t.skip(p - 1) =~= s.skip(p));
    }
}

proof fn lemma_trim_end(s: Seq<char>, q: int)
    requires
        0 <= q <= s.len(),
        forall|i: int| q <= i < s.len() ==> is_white_space(#[trigger] s[i]),
        q == 0 || !is_white_space(s[q - 1]),
    ensures
        trim_end(s) == s.take(q),
    decreases s.len() - q,
{
    if q == s.len() {
        assert(s.take(q) =~= s);
    } else {
        let t = s.drop_last();
        assert forall|i: int| q <= i < t.len() implies is_white_space(#[trigger] t[i]) by {
            assert(t[i] == s[i]);
        }
        if q > 0 {
            assert(t[q - 1] == s[q - 1]);
        }
        assert(is_white_space(s[s.len() - 1]));
        lemma_trim_end(t, q);
        assert(t.take(q) =~= s.take(q));
    }
}

proof fn lemma_trim_start_shape(s: Seq<char>)
    ensures
        trim_start(s).len() > 0 ==> !is_white_space(trim_start(s)[0]),
    decreases s.len(),
{
    if s.len() > 0 && is_white_space(s[0]) {
        lemma_trim_start_shape(s.drop_first());
    }
}

proof fn lemma_trim_end_shape(s: Seq<char>)
    ensures
        trim_end(s).len() <= s.len(),
        trim_end(s) == s.take(trim_end(s).len() as int),
        trim_end(s).len() > 0 ==> !is_white_space(trim_end(s).last()),
    decreases s.len(),
{
    if s.len() > 0 && is_white_space(s.last()) {
        lemma_trim_end_shape(s.drop_last());
        let t = trim_end(s.drop_last());
        assert(s.drop_last().take(t.len() as int) =~= s.take(t.len() as int));
    } else {
        assert(s.take(s.len() as int) =~= s);
    }
}

/// Every entry read from a `flatpak list` output is non-empty and has no white
/// space at either end.
pub proof fn law_list_entries_trimmed(output: Seq<char>)
    ensures
        forall|i: int|
            0 <= i < list_entries(output).len() ==> {
                let e = #[trigger] list_entries(output)[i];
                &&& e.len() > 0
                &&& !is_white_space(e[0])
                &&& !is_white_space(e.last())
            },
{
    lemma_nonempty_trimmed_shape(split_lines(output));
}

proof fn lemma_nonempty_trimmed_shape(lines: Seq<Seq<char>>)
    ensures
        forall|i: int|
            0 <= i < nonempty_trimmed(lines).len() ==> {
                let e = #[trigger] nonempty_trimmed(lines)[i];
                &&& e.len() > 0
                &&& !is_white_space(e[0])
                &&& !is_white_space(e.last())
            },
    decreases lines.len(),
{
    if lines.len() > 0 {
        lemma_nonempty_trimmed_shape(lines.drop_first());
        let t = trim(lines[0]);
        lemma_trim_start_shape(lines[0]);
        lemma_trim_end_shape(trim_start(lines[0]));
        if t.len() > 0 {
            assert(t[0] == trim_start(lines[0])[0]);
        }
        let head: Seq<Seq<char>> = if t.len() > 0 {
            seq![t]
        } else {
            Seq::empty()
        };
        let tail = nonempty_trimmed(lines.drop_first());
        assert forall|i: int| 0 <= i < (head + tail).len() implies {
            let e = #[trigger] (head + tail)[i];
            &&& e.len() > 0
            &&& !is_white_space(e[0])
            &&& !is_white_space(e.last())
        } by {
            if i >= head.len() {
                assert((head + tail)[i] == tail[i - head.len()]);
            }
        }
    }
}

/// The characters of a string, one by one.
fn chars_of(s: &str) -> (r: Vec<char>)
    ensures
        r@ == s@,
{
    let n = s.unicode_len();
    let mut out: Vec<char> = Vec::new();
    let mut i: usize = 0;
    while i < n
        invariant
            n == s@.len(),
            i <= n,
            out@ == s@.take(i as int),
        decreases n - i,
    {
        out.push(s.get_char(i));
        proof {
            assert(s@.take(i + 1) =~= s@.take(i as int).push(s@[i as int]));
        }
        i = i + 1;
    }
    assert(s@.take(n as int) =~= s@);
    out
}

impl Flatpak {
    /// The application ids in the output of `flatpak list`: one per line, each
    /// trimmed, empty lines left out.
    pub fn parse_list(output: &str) -> (r: Vec<String>)
        ensures
            texts(r@) == list_entries(output@),
    {
        let ghost s = output@;
        let chars = chars_of(output);
        let n = chars.len();
        let mut out: Vec<String> = Vec::new();
        let mut start: usize = 0;
        assert(s.skip(0) =~= s);
        loop
            invariant_except_break
                chars@ == s,
                s == output@,
                n == s.len(),
                start <= n,
                list_entries(s) == texts(out@) + nonempty_trimmed(split_lines(s.skip(start as int))),
            ensures
                texts(out@) == list_entries(s),
            decreases n - start,
        {
            let ghost rest = s.skip(start as int);
            // the end of this line
            let mut k: usize = start;
            while k < n && chars[k] != '\n'
                invariant
                    chars@ == s,
                    n == s.len(),
                    start <= k <= n,
                    forall|i: int| start <= i < k ==> s[i] != '\n',
                decreases n - k,
            {
                k = k + 1;
            }
            // the trimmed bounds inside [start, k)
            let mut a: usize = start;
            while a < k && char_is_white_space(chars[a])
                invariant
                    chars@ == s,
                    n == s.len(),
                    start <= a <= k <= n,
                    forall|i: int| start <= i < a ==> is_white_space(#[trigger] s[i]),
                decreases k - a,
            {
                a = a + 1;
            }
            let mut b: usize = k;
            while b > a && char_is_white_space(chars[b - 1])
                invariant
                    chars@ == s,
                    n == s.len(),
                    start <= a <= b <= k <= n,
                    forall|i: int| b <= i < k ==> is_white_space(#[trigger] s[i]),
                decreases b - a,
            {
                b = b - 1;
            }
            let ghost line = s.subrange(start as int, k as int);
            proof {
                assert forall|i: int| 0 <= i < k - start implies rest[i] != '\n' by {
                    assert(rest[i] == s[start + i]);
                }
                if k < n {
                    assert(rest[k - start] == s[k as int]);
                }
                lemma_first_newline(rest, k - start);
                assert(rest.take(k - start) =~= line);
                // trimming the line
                assert forall|i: int| 0 <= i < a - start implies is_white_space(#[trigger] line[i]) by {
                    assert(line[i] == s[start + i]);
                }
                if a < k {
                    assert(line[a - start] == s[a as int]);
                }
                lemma_trim_start(line, a - start);
                let ts = line.skip(a - start);
                assert(ts =~= s.subrange(a as int, k as int));
                assert forall|i: int| b - a <= i < ts.len() implies is_white_space(#[trigger] ts[i]) by {
                    assert(ts[i] == s[a + i]);
                }
                if b > a {
                    assert(ts[b - a - 1] == s[b - 1]);
                }
                lemma_trim_end(ts, b - a);
                assert(trim(line) =~= s.subrange(a as int, b as int));
            }
            let ghost prev = out@;
            if b > a {
                let piece = output.substring_char(a, b);
                out.push(String::from_str(piece));
            }
            proof {
                let t = trim(line);
                assert(texts(out@) =~= texts(prev) + (if t.len() > 0 {
                    seq![t]
                } else {
                    Seq::empty()
                }));
            }
            if k == n {
                proof {
                    assert(line =~= rest);
                    assert(split_lines(rest) == seq![rest]);
                    assert(seq![rest].drop_first() =~= Seq::<Seq<char>>::empty());
                    assert(seq![rest][0] == rest);
                    assert(nonempty_trimmed(Seq::<Seq<char>>::empty()) == Seq::<Seq<char>>::empty());
                    assert(nonempty_trimmed(split_lines(rest)) =~= (if trim(line).len() > 0 {
                        seq![trim(line)]
                    } else {
                        Seq::empty()
                    }));
                }
                break;
            }
            proof {
                let next = s.skip(k + 1);
                assert(rest.skip(k - start + 1) =~= next);
                assert(split_lines(rest) == seq![line] + split_lines(next));
                assert((seq![line] + split_lines(next)).drop_first() =~= split_lines(next));
                assert((seq![line] + split_lines(next))[0] == line);
            }
            start = k + 1;
        }
        out
    }
}

} // verus!
