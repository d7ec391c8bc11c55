//! The command line of `make`: a name, then options for the value, its
//! length and its form.

use vstd::prelude::*;
use vstd::string::{StrSliceExecFns, StringExecFns};
use crate::generator::{generate_random_string, generated};
use crate::order::name_equal;
use crate::text::{parse_number, parsed_number, trim, trimmed};

verus! {

/// Why a command line is refused.
#[derive(Debug, Clone, Copy, PartialEq, Eq, Structural)]
pub enum ArgError {
    /// The name begins with a dash.
    InvalidName,
    /// The option for the value has no value.
    EmptyValue,
    /// The option for the length holds no number.
    LengthNotNumeric,
    /// The length leaves no room for a digit and a symbol.
    LengthTooShort,
    /// The option is unknown, or lacks its `=`.
    InvalidArgument,
}

impl ArgError {
    /// The characters of the message for each error.
    pub open spec fn spec_message(self) -> Seq<char> {
        match self {
            ArgError::InvalidName => "invalid name"@,
            ArgError::EmptyValue => "secret value is empty"@,
            ArgError::LengthNotNumeric => "length arg is not numeric"@,
            ArgError::LengthTooShort => "length is too short"@,
            ArgError::InvalidArgument => "invalid argument"@,
        }
    }

    /// A short message for the user.
    pub fn message(&self) -> (s: String)
        ensures
            s@ == self.spec_message(),
    {
        match self {
            ArgError::InvalidName => String::from_str("invalid name"),
            ArgError::EmptyValue => String::from_str("secret value is empty"),
            ArgError::LengthNotNumeric => String::from_str("length arg is not numeric"),
            ArgError::LengthTooShort => String::from_str("length is too short"),
            ArgError::InvalidArgument => String::from_str("invalid argument"),
        }
    }
}

/// What `make` is asked for. An empty value asks for a random one.
pub struct MakeArgs {
    pub name: String,
    pub value: String,
    pub length: usize,
    pub advance: bool,
}

/// What `make` is asked for, as a mathematical value.
pub struct MakeArgsView {
    pub name: Seq<char>,
    pub value: Seq<char>,
    pub length: usize,
    pub advance: bool,
}

impl View for MakeArgs {
    type V = MakeArgsView;

    open spec fn view(&self) -> MakeArgsView {
        MakeArgsView { name: self.name@, value: self.value@, length: self.length, advance: self.advance }
    }
}

/// The first index at or after `i` that holds `c`, or the length if there
/// is none.
pub open spec fn find_char(s: Seq<char>, c: char, i: int) -> int
    decreases s.len() - i,
{
    if i >= s.len() {
        s.len() as int
    } else if s[i] == c {
        i
    } else {
        find_char(s, c, i + 1)
    }
}

/// The first index at or after `i` that holds no dash, or the length if
/// there is none.
pub open spec fn skip_dashes(s: Seq<char>, i: int) -> int
    decreases s.len() - i,
{
    if i >= s.len() {
        s.len() as int
    } else if s[i] != '-' {
        i
    } else {
        skip_dashes(s, i + 1)
    }
}

/// An option as it counts: trimmed, and without the dashes before it.
pub open spec fn option_text(arg: Seq<char>) -> Seq<char> {
    trimmed(arg).subrange(skip_dashes(trimmed(arg), 0), trimmed(arg).len() as int)
}

/// The key of an option: what stands before the first `=`.
pub open spec fn option_key(o: Seq<char>) -> Seq<char> {
    o.subrange(0, find_char(o, '=', 0))
}

/// The value of an option: what stands between the first `=` and the next,
/// if there is a first.
pub open spec fn option_value(o: Seq<char>) -> Option<Seq<char>> {
    let cut = find_char(o, '=', 0);
    if cut >= o.len() {
        None
    } else {
        Some(o.subrange(cut + 1, find_char(o, '=', cut + 1)))
    }
}

/// What one option makes of what was asked for so far.
pub open spec fn with_option(so_far: MakeArgsView, arg: Seq<char>) -> Result<MakeArgsView, ArgError> {
    let o = option_text(arg);
    let key = option_key(o);
    if key == "v"@ || key == "value"@ {
        match option_value(o) {
            None => Err(ArgError::InvalidArgument),
            Some(v) => if v.len() == 0 {
                Err(ArgError::EmptyValue)
            } else {
                Ok(MakeArgsView { value: v, ..so_far })
            },
        }
    } else if key == "l"@ || key == "length"@ {
        match option_value(o) {
            None => Err(ArgError::InvalidArgument),
            Some(v) => match parsed_number(v) {
                None => Err(ArgError::LengthNotNumeric),
                Some(n) => Ok(MakeArgsView { length: n, ..so_far }),
            },
        }
    } else if key == "a"@ || key == "advance"@ {
        Ok(MakeArgsView { advance: true, ..so_far })
    } else {
        Err(ArgError::InvalidArgument)
    }
}

/// What a name alone asks for: a random value of 10 letters in the plain
/// form. A name that begins with a dash is refused.
pub open spec fn named_args(name: Seq<char>) -> Result<MakeArgsView, ArgError> {
    if name.len() > 0 && name[0] == '-' {
        Err(ArgError::InvalidName)
    } else {
        Ok(MakeArgsView { name, value: Seq::empty(), length: 10, advance: false })
    }
}

/// What the first `n` words of a command line ask for: the first word,
/// trimmed, is the name, and the options follow in turn, until one of them
/// is refused.
pub open spec fn make_args(words: Seq<Seq<char>>, n: int) -> Result<MakeArgsView, ArgError>
    decreases n,
{
    if n <= 1 {
        named_args(trimmed(words[0]))
    } else {
        match make_args(words, n - 1) {
            Err(e) => Err(e),
            Ok(so_far) => with_option(so_far, words[n - 1]),
        }
    }
}

/// The texts of a list of words.
pub open spec fn words_view(words: Seq<String>) -> Seq<Seq<char>> {
    words.map_values(|w: String| w@)
}

/// The first index at or after `start` that holds `c`, or the length.
fn find_char_in(s: &str, c: char, start: usize) -> (at: usize)
    requires
        start <= s@.len(),
    ensures
        at == find_char(s@, c, start as int),
        start <= at <= s@.len(),
{
    let n = s.unicode_len();
    let mut i: usize = start;
    while i < n && s.get_char(i) != c
        invariant
            start <= i <= n,
            n == s@.len(),
            find_char(s@, c, start as int) == find_char(s@, c, i as int),
        decreases n - i,
    {
        i += 1;
    }
    i
}

/// An option as it counts: trimmed, and without the dashes before it.
fn option_of(arg: &str) -> (o: &str)
    ensures
        o@ == option_text(arg@),
{
    let t = trim(arg);
    let n = t.unicode_len();
    let mut i: usize = 0;
    while i < n && t.get_char(i) == '-'
        invariant
            0 <= i <= n,
            n == t@.len(),
            skip_dashes(t@, 0) == skip_dashes(t@, i as int),
        decreases n - i,
    {
        i += 1;
    }
    t.substring_char(i, n)
}

/// Takes one option into what was asked for so far.
pub fn apply_option(so_far: MakeArgs, arg: &str) -> (r: Result<MakeArgs, ArgError>)
    ensures
        match r {
            Ok(a) => with_option(so_far@, arg@) == Ok::<MakeArgsView, ArgError>(a@),
            Err(e) => with_option(so_far@, arg@) == Err::<MakeArgsView, ArgError>(e),
        },
{
    let o = option_of(arg);
    let n = o.unicode_len();
    let cut = find_char_in(o, '=', 0);
    let key = o.substring_char(0, cut);
    let is_value = name_equal(key, "v") || name_equal(key, "value");
    let is_length = name_equal(key, "l") || name_equal(key, "length");
    let is_advance = name_equal(key, "a") || name_equal(key, "advance");
    if is_value || is_length {
        if cut >= n {
            return Err(ArgError::InvalidArgument);
        }
        let end = find_char_in(o, '=', cut + 1);
        let v = o.substring_char(cut + 1, end);
        if is_value {
            if v.unicode_len() == 0 {
                Err(ArgError::EmptyValue)
            } else {
                Ok(MakeArgs { value: String::from_str(v), ..so_far })
            }
        } else {
            match parse_number(v) {
                None => Err(ArgError::LengthNotNumeric),
                Some(length) => Ok(MakeArgs { length, ..so_far }),
            }
        }
    } else if is_advance {
        Ok(MakeArgs { advance: true, ..so_far })
    } else {
        Err(ArgError::InvalidArgument)
    }
}

/// What a name alone asks for, the name being trimmed already.
pub fn start_args(name: &str) -> (r: Result<MakeArgs, ArgError>)
    ensures
        match r {
            Ok(a) => named_args(name@) == Ok::<MakeArgsView, ArgError>(a@),
            Err(e) => named_args(name@) == Err::<MakeArgsView, ArgError>(e),
        },
{
    if name.unicode_len() > 0 && name.get_char(0) == '-' {
        Err(ArgError::InvalidName)
    } else {
        Ok(MakeArgs { name: String::from_str(name), value: String::new(), length: 10, advance: false })
    }
}

/// Reads the command line of `make`: the name, then the options.
pub fn parse_make_args(args: &Vec<String>) -> (r: Result<MakeArgs, ArgError>)
    requires
        args@.len() > 0,
    ensures
        match r {
            Ok(a) => make_args(words_view(args@), args@.len() as int) == Ok::<
                MakeArgsView,
                ArgError,
            >(a@),
            Err(e) => make_args(words_view(args@), args@.len() as int) == Err::<
                MakeArgsView,
                ArgError,
            >(e),
        },
{
    let mut so_far = match start_args(trim(args[0].as_str())) {
        Ok(a) => a,
        Err(e) => {
            proof {
                lemma_make_args_refused(words_view(args@), 1, args@.len() as int);
            }
            return Err(e);
        },
    };
    let mut i: usize = 1;
    while i < args.len()
        invariant
            1 <= i <= args@.len(),
            make_args(words_view(args@), i as int) == Ok::<MakeArgsView, ArgError>(so_far@),
        decreases args@.len() - i,
    {
        match apply_option(so_far, args[i].as_str()) {
            Err(e) => {
                proof {
                    lemma_make_args_refused(words_view(args@), i + 1, args@.len() as int);
                }
                return Err(e);
            },
            Ok(next) => {
                so_far = next;
            },
        }
        i += 1;
    }
    Ok(so_far)
}

/// A command line that is refused after some of its words stays refused
/// when more words follow.
proof fn lemma_make_args_refused(words: Seq<Seq<char>>, n: int, m: int)
    requires
        1 <= n <= m,
        make_args(words, n) is Err,
    ensures
        make_args(words, m) == make_args(words, n),
    decreases m - n,
{
    if n < m {
        lemma_make_args_refused(words, n, m - 1);
    }
}

/// What `make` puts on the clipboard: the value that was given, or a random
/// one of the length and form that were asked for. The advanced form needs
/// a length of two at least.
pub fn cmd_make(args: &Vec<String>) -> (r: Result<(String, String), ArgError>)
    requires
        args@.len() > 0,
    ensures
        match make_args(words_view(args@), args@.len() as int) {
            Err(e) => r == Err::<(String, String), ArgError>(e),
            Ok(a) => if a.value.len() > 0 {
                r matches Ok(made) && made.0@ == a.name && made.1@ == a.value
            } else if a.advance && a.length < 2 {
                r == Err::<(String, String), ArgError>(ArgError::LengthTooShort)
            } else {
                r matches Ok(made) && made.0@ == a.name && generated(
                    made.1@,
                    a.length as int,
                    a.advance,
                )
            },
        },
{
    match parse_make_args(args) {
        Err(e) => Err(e),
        Ok(a) => {
            if a.value.as_str().unicode_len() > 0 {
                Ok((a.name, a.value))
            } else if a.advance && a.length < 2 {
                Err(ArgError::LengthTooShort)
            } else {
                let value = generate_random_string(a.length, a.advance);
                Ok((a.name, value))
            }
        },
    }
}

} // verus!
