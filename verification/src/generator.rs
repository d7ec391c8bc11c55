//! Random secrets for people to use: letters, and on demand one digit and
//! one symbol among them. This is not the source of the master key.

use vstd::prelude::*;
use vstd::string::StrSliceExecFns;
use crate::text::string_of;

verus! {

/// The symbols that a generated secret may hold.
pub const SYMBOLS: &'static str = "!@#$%^&*-_=+;:,./?";

/// An ASCII letter.
pub open spec fn is_letter(c: char) -> bool {
    ('A' <= c && c <= 'Z') || ('a' <= c && c <= 'z')
}

/// An ASCII digit.
pub open spec fn is_digit(c: char) -> bool {
    '0' <= c && c <= '9'
}

/// One of the symbols.
pub open spec fn is_symbol(c: char) -> bool {
    SYMBOLS@.contains(c)
}

/// What a generated secret is made of before it is shuffled: letters, and
/// in the advanced form a digit and a symbol in the last two places.
pub open spec fn composed(body: Seq<char>, length: int, advance: bool) -> bool {
    &&& body.len() == length
    &&& forall|i: int| 0 <= i < length - (if advance { 2int } else { 0int }) ==> is_letter(body[i])
    &&& advance ==> length >= 2 && is_digit(body[length - 2]) && is_symbol(body[length - 1])
}

/// What a generated secret is: `length` letters; or, in the advanced form,
/// `length - 2` letters, one digit and one symbol in some order.
pub open spec fn generated(s: Seq<char>, length: int, advance: bool) -> bool {
    exists|body: Seq<char>| #[trigger]
        composed(body, length, advance) && s.to_multiset() == body.to_multiset()
}

/// `rand::Rng::gen_range` on `rand::thread_rng()` with the range `0..n`: a
/// number below `n`. An empty range is not asked for. The generator of the
/// thread takes its seed from the operating system when it is first used
/// and ends the program if it gets none.
#[verifier::external_body]
fn random_below(n: usize) -> (r: usize)
    requires
        n > 0,
    ensures
        r < n,
{
    rand::Rng::gen_range(&mut rand::thread_rng(), 0..n)
}

/// `rand::seq::SliceRandom::shuffle` on `rand::thread_rng()`: the same
/// characters in some order.
#[verifier::external_body]
fn shuffle(chars: &mut Vec<char>)
    ensures
        final(chars)@.to_multiset() == old(chars)@.to_multiset(),
{
    rand::seq::SliceRandom::shuffle(chars.as_mut_slice(), &mut rand::thread_rng());
}

/// The letter with the given number: `A` to `Z`, then `a` to `z`.
pub fn letter(i: usize) -> (c: char)
    requires
        i < 52,
    ensures
        is_letter(c),
        c as int == if i < 26 { 'A' as int + i } else { 'a' as int + i - 26 },
{
    if i < 26 {
        (65u8 + i as u8) as char
    } else {
        (97u8 + (i - 26) as u8) as char
    }
}

/// The digit with the given value.
pub fn digit(i: usize) -> (c: char)
    requires
        i < 10,
    ensures
        is_digit(c),
        c as int == '0' as int + i,
{
    (48u8 + i as u8) as char
}

/// The symbol with the given number.
pub fn symbol(i: usize) -> (c: char)
    requires
        i < 18,
    ensures
        is_symbol(c),
        c == SYMBOLS@[i as int],
{
    proof {
        reveal_strlit("!@#$%^&*-_=+;:,./?");
    }
    SYMBOLS.get_char(i)
}

/// A random secret of `length` characters. In the advanced form it holds
/// exactly one digit and one symbol, at random places among its letters,
/// and so needs a length of two at least.
pub fn generate_random_string(length: usize, advance: bool) -> (s: String)
    requires
        advance ==> length >= 2,
    ensures
        s@.len() == length,
        generated(s@, length as int, advance),
{
    let letters: usize = if advance {
        length - 2
    } else {
        length
    };
    let mut chars: Vec<char> = Vec::new();
    while chars.len() < letters
        invariant
            chars@.len() <= letters,
            forall|i: int| 0 <= i < chars@.len() ==> is_letter(chars@[i]),
        decreases letters - chars@.len(),
    {
        chars.push(letter(random_below(52)));
    }
    if advance {
        chars.push(digit(random_below(10)));
        chars.push(symbol(random_below(18)));
    }
    let ghost body = chars@;
    assert(composed(body, length as int, advance));
    if advance {
        shuffle(&mut chars);
    }
    proof {
        chars@.to_multiset_ensures();
        body.to_multiset_ensures();
    }
    string_of(chars)
}

} // verus!
