//! What the library asks of a piece of text: whether it is blank, whether
//! it holds another piece, what number it stands for, how wide it is on
//! screen, and how it changes as it is typed.

use vstd::prelude::*;

verus! {

/// What Unicode calls white space: the characters with the property
/// `White_Space`.
pub open spec fn is_white_space(c: char) -> bool {
    let n = c as u32;
    ||| 0x09 <= n <= 0x0D
    ||| n == 0x20
    ||| n == 0x85
    ||| n == 0xA0
    ||| n == 0x1680
    ||| 0x2000 <= n <= 0x200A
    ||| n == 0x2028
    ||| n == 0x2029
    ||| n == 0x202F
    ||| n == 0x205F
    ||| n == 0x3000
}

/// The first index at or after `i` that holds no white space, or the
/// length if there is none.
pub open spec fn leading(s: Seq<char>, i: int) -> int
    decreases s.len() - i,
{
    if i >= s.len() {
        s.len() as int
    } else if !is_white_space(s[i]) {
        i
    } else {
        leading(s, i + 1)
    }
}

/// The end of the last stretch before `j` that ends in no white space:
/// the index behind the last character before `j` that is none, or 0 if
/// there is none.
pub open spec fn trailing(s: Seq<char>, j: int) -> int
    decreases j,
{
    if j <= 0 {
        0
    } else if !is_white_space(s[j - 1]) {
        j
    } else {
        trailing(s, j - 1)
    }
}

/// The text without the white space at its two ends.
pub open spec fn trimmed(s: Seq<char>) -> Seq<char> {
    if leading(s, 0) >= trailing(s, s.len() as int) {
        Seq::empty()
    } else {
        s.subrange(leading(s, 0), trailing(s, s.len() as int))
    }
}

/// Whether nothing is left of a text once it is trimmed.
pub open spec fn blank(s: Seq<char>) -> bool {
    trimmed(s).len() == 0
}

/// Whether `hay` holds `needle` as a run of consecutive characters.
pub open spec fn holds(hay: Seq<char>, needle: Seq<char>) -> bool {
    exists|i: int|
        0 <= i && i + needle.len() <= hay.len() && #[trigger] hay.subrange(i, i + needle.len())
            == needle
}

/// `str::trim`: the text without leading and trailing white space, white
/// space being what the Unicode property `White_Space` says.
#[verifier::external_body]
pub(crate) fn trim(s: &str) -> (r: &str)
    ensures
        r@ == trimmed(s@),
{
    s.trim()
}

/// `str::contains` with a text as the pattern: whether the pattern matches
/// a part of the text.
#[verifier::external_body]
pub(crate) fn contains(hay: &str, needle: &str) -> (r: bool)
    ensures
        r == holds(hay@, needle@),
{
    hay.contains(needle)
}

/// Whether a text is blank: empty, or white space only.
pub fn is_blank(s: &str) -> (b: bool)
    ensures
        b == blank(s@),
{
    trim(s).is_empty()
}

/// The number that `str::parse::<usize>` reads from a text, if it reads
/// one: decimal digits, with or without a plus sign before them, that stand
/// for a number within the machine's range.
pub uninterp spec fn parsed_number(s: Seq<char>) -> Option<usize>;

/// `str::parse::<usize>`: the number that the text stands for, or nothing
/// where it stands for none.
#[verifier::external_body]
pub(crate) fn parse_number(s: &str) -> (r: Option<usize>)
    ensures
        r == parsed_number(s@),
{
    s.parse::<usize>().ok()
}

/// `String::push`: the character is put at the end.
#[verifier::external_body]
pub(crate) fn push_char(s: &mut String, c: char)
    ensures
        final(s)@ == old(s)@.push(c),
{
    s.push(c)
}

/// `String::pop`: the last character is taken off, if there is one.
#[verifier::external_body]
pub(crate) fn pop_char(s: &mut String) -> (r: Option<char>)
    ensures
        old(s)@.len() > 0 ==> r == Some(old(s)@.last()) && final(s)@ == old(s)@.drop_last(),
        old(s)@.len() == 0 ==> r is None && final(s)@ == old(s)@,
{
    s.pop()
}

/// The number of terminal columns that `unicode_width` gives a text.
pub uninterp spec fn display_width(s: Seq<char>) -> usize;

/// `unicode_width::UnicodeWidthStr::width`: the number of columns that the
/// text takes on a terminal.
#[verifier::external_body]
pub(crate) fn width(s: &str) -> (w: usize)
    ensures
        w == display_width(s@),
{
    unicode_width::UnicodeWidthStr::width(s)
}

/// `String::from_iter` on a vector of characters: the string of these
/// characters.
#[verifier::external_body]
pub(crate) fn string_of(chars: Vec<char>) -> (s: String)
    ensures
        s@ == chars@,
{
    String::from_iter(chars)
}

/// What is shown in place of a secret value: one star for each column that
/// the value would take.
pub fn mask(value: &str) -> (stars: String)
    ensures
        stars@ == Seq::new(display_width(value@) as nat, |i: int| '*'),
{
    let n = width(value);
    let mut chars: Vec<char> = Vec::new();
    while chars.len() < n
        invariant
            chars@.len() <= n,
            forall|i: int| 0 <= i < chars@.len() ==> chars@[i] == '*',
        decreases n - chars@.len(),
    {
        chars.push('*');
    }
    assert(chars@ =~= Seq::new(n as nat, |i: int| '*'));
    string_of(chars)
}

} // verus!
