//! Text helpers shared by the argument renderers.

use vstd::prelude::*;
use vstd::string::StrSliceExecFns;
use vstd::string::StringExecFns;

verus! {

/// The characters of an optional string; nothing when absent.
pub open spec fn opt_text(s: Option<&str>) -> Seq<char> {
    match s {
        Some(t) => t@,
        None => Seq::empty(),
    }
}

/// The number of bytes of the UTF-8 encoding of `s`, as `str::len` counts them.
pub open spec fn byte_len(s: Seq<char>) -> nat {
    vstd::utf8::encode_utf8(s).len()
}

/// The byte length of an optional string; 0 when absent.
pub open spec fn opt_byte_len(s: Option<&str>) -> nat {
    byte_len(opt_text(s))
}

/// Byte lengths add up over concatenation.
pub proof fn lemma_byte_len_concat(a: Seq<char>, b: Seq<char>)
    ensures
        byte_len(a + b) == byte_len(a) + byte_len(b),
    decreases a.len(),
{
    if a.len() > 0 {
        assert((a + b).drop_first() =~= a.drop_first() + b);
        assert((a + b)[0] == a[0]);
        lemma_byte_len_concat(a.drop_first(), b);
    } else {
        assert(a + b =~= b);
    }
}

/// A text has no bytes exactly when it has no characters.
pub proof fn lemma_byte_len_empty(s: Seq<char>)
    ensures
        (byte_len(s) == 0) == (s.len() == 0),
{
    if s.len() > 0 {
        assert(vstd::utf8::encode_scalar(s[0] as u32).len() >= 1);
    }
}

/// A single space is one byte.
pub proof fn lemma_byte_len_space()
    ensures
        byte_len(seq![' ']) == 1,
{
    let c = seq![' '];
    assert(c.drop_first() =~= Seq::<char>::empty());
    assert(c[0] == ' ');
    assert((' ' as u32) == 32);
    assert(vstd::utf8::encode_scalar(32).len() == 1);
    assert(vstd::utf8::encode_utf8(c.drop_first()).len() == 0);
}

/// The byte length of a string.
pub fn str_byte_len(s: &str) -> (r: usize)
    requires
        byte_len(s@) <= usize::MAX,
    ensures
        r == byte_len(s@),
{
    s.len()
}

/// The byte length of an optional string, 0 when absent.
pub fn opt_str_byte_len(s: Option<&str>) -> (r: usize)
    requires
        opt_byte_len(s) <= usize::MAX,
    ensures
        r == opt_byte_len(s),
{
    match s {
        Some(t) => str_byte_len(t),
        None => {
            assert(vstd::utf8::encode_utf8(Seq::<char>::empty()) =~= Seq::<u8>::empty());
            0
        },
    }
}

/// Appends an optional string to `out`.
pub fn push_opt(out: &mut String, s: Option<&str>)
    ensures
        final(out)@ == old(out)@ + opt_text(s),
{
    match s {
        Some(t) => out.append(t),
        None => {
            assert(old(out)@ + Seq::<char>::empty() =~= old(out)@);
        },
    }
}

/// Whether `s` is exactly the one character `c`.
pub fn is_single_char(s: &str, c: char) -> (r: bool)
    ensures
        r == (s@ == seq![c]),
{
    let n = s.unicode_len();
    if n != 1 {
        return false;
    }
    let first = s.get_char(0);
    if first == c {
        assert(s@ =~= seq![c]);
        true
    } else {
        false
    }
}

/// Whether `s` starts with the two characters `c1 c2`.
pub fn starts_with_two(s: &str, c1: char, c2: char) -> (r: bool)
    ensures
        r == (s@.len() >= 2 && s@[0] == c1 && s@[1] == c2),
{
    let n = s.unicode_len();
    if n < 2 {
        return false;
    }
    s.get_char(0) == c1 && s.get_char(1) == c2
}

/// Whether `c` has the Unicode `White_Space` property, as `char::is_whitespace`
/// decides it.
pub open spec fn is_white_space(c: char) -> bool {
    let u = c as u32;
    ||| 0x09 <= u <= 0x0D
    ||| u == 0x20
    ||| u == 0x85
    ||| u == 0xA0
    ||| u == 0x1680
    ||| 0x2000 <= u <= 0x200A
    ||| u == 0x2028
    ||| u == 0x2029
    ||| u == 0x202F
    ||| u == 0x205F
    ||| u == 0x3000
}

/// Whether `c` has the Unicode `White_Space` property.
pub fn char_is_white_space(c: char) -> (r: bool)
    ensures
        r == is_white_space(c),
{
    let u = c as u32;
    (0x09 <= u && u <= 0x0D) || u == 0x20 || u == 0x85 || u == 0xA0 || u == 0x1680 || (0x2000
        <= u && u <= 0x200A) || u == 0x2028 || u == 0x2029 || u == 0x202F || u == 0x205F || u
        == 0x3000
}

/// Whether every character of `s` is white space, that is, whether `s.trim()`
/// is empty.
pub fn is_blank(s: &str) -> (r: bool)
    ensures
        r == (forall|i: int| 0 <= i < s@.len() ==> is_white_space(#[trigger] s@[i])),
{
    let n = s.unicode_len();
    let mut i: usize = 0;
    while i < n
        invariant
            n == s@.len(),
            i <= n,
            forall|k: int| 0 <= k < i ==> is_white_space(#[trigger] s@[k]),
        decreases n - i,
    {
        let c = s.get_char(i);
        if !char_is_white_space(c) {
            return false;
        }
        i = i + 1;
    }
    true
}

} // verus!
