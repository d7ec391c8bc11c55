use secm::cmds::{apply_option, cmd_make, parse_make_args, ArgError, MakeArgs};
use secm::text::mask;

fn words(list: &[&str]) -> Vec<String> {
    list.iter().map(|w| w.to_string()).collect()
}

fn parsed(list: &[&str]) -> Result<(String, String, usize, bool), ArgError> {
    parse_make_args(&words(list)).map(|a| (a.name, a.value, a.length, a.advance))
}

fn ok(name: &str, value: &str, length: usize, advance: bool) -> Result<(String, String, usize, bool), ArgError> {
    Ok((name.to_string(), value.to_string(), length, advance))
}

#[test]
fn a_name_alone_takes_the_defaults() {
    assert_eq!(parsed(&["api"]), ok("api", "", 10, false));
    assert_eq!(parsed(&["  api "]), ok("api", "", 10, false));
    assert_eq!(parsed(&[""]), ok("", "", 10, false));
}

#[test]
fn a_name_must_not_begin_with_a_dash() {
    assert_eq!(parsed(&["-api"]), Err(ArgError::InvalidName));
    assert_eq!(parsed(&[" --l=3"]), Err(ArgError::InvalidName));
    assert_eq!(parsed(&["-api", "bogus"]), Err(ArgError::InvalidName));
    assert_eq!(parsed(&["a-b"]), ok("a-b", "", 10, false));
}

#[test]
fn options_are_read_in_turn() {
    assert_eq!(parsed(&["api", "-l=20"]), ok("api", "", 20, false));
    assert_eq!(parsed(&["api", "--length=7", "-a"]), ok("api", "", 7, true));
    assert_eq!(parsed(&["api", "advance", "l=3", "length=4"]), ok("api", "", 4, true));
    assert_eq!(parsed(&["api", "-v=abc", " --value=def "]), ok("api", "def", 10, false));
    assert_eq!(parsed(&["api", "-v=abc=def"]), ok("api", "abc", 10, false));
    assert_eq!(parsed(&["api", "-a=whatever"]), ok("api", "", 10, true));
    assert_eq!(parsed(&["api", "---l=+5"]), ok("api", "", 5, false));
}

#[test]
fn bad_options_are_refused() {
    assert_eq!(parsed(&["api", "-x"]), Err(ArgError::InvalidArgument));
    assert_eq!(parsed(&["api", ""]), Err(ArgError::InvalidArgument));
    assert_eq!(parsed(&["api", "-v"]), Err(ArgError::InvalidArgument));
    assert_eq!(parsed(&["api", "-l"]), Err(ArgError::InvalidArgument));
    assert_eq!(parsed(&["api", "-v="]), Err(ArgError::EmptyValue));
    assert_eq!(parsed(&["api", "-v==x"]), Err(ArgError::EmptyValue));
    assert_eq!(parsed(&["api", "-l=ten"]), Err(ArgError::LengthNotNumeric));
    assert_eq!(parsed(&["api", "-l="]), Err(ArgError::LengthNotNumeric));
    assert_eq!(parsed(&["api", "-l=-1"]), Err(ArgError::LengthNotNumeric));
    assert_eq!(parsed(&["api", "-l=ten", "-x"]), Err(ArgError::LengthNotNumeric));
    assert_eq!(parsed(&["api", "-x", "-l=ten"]), Err(ArgError::InvalidArgument));
    assert_eq!(parsed(&["api", "Value=x"]), Err(ArgError::InvalidArgument));
}

#[test]
fn one_option_changes_one_field() {
    let start = || MakeArgs { name: "n".to_string(), value: "v".to_string(), length: 3, advance: false };
    let a = apply_option(start(), "-l=9").unwrap();
    assert_eq!((a.name.as_str(), a.value.as_str(), a.length, a.advance), ("n", "v", 9, false));
    let b = apply_option(start(), "a").unwrap();
    assert_eq!((b.name.as_str(), b.value.as_str(), b.length, b.advance), ("n", "v", 3, true));
    let c = apply_option(start(), "value=w").unwrap();
    assert_eq!((c.name.as_str(), c.value.as_str(), c.length, c.advance), ("n", "w", 3, false));
    assert_eq!(apply_option(start(), "q").err(), Some(ArgError::InvalidArgument));
}

#[test]
fn make_gives_the_value_or_a_random_one() {
    assert_eq!(cmd_make(&words(&["api", "-v=abc123"])), Ok(("api".to_string(), "abc123".to_string())));
    let (name, value) = cmd_make(&words(&["api"])).unwrap();
    assert_eq!(name, "api");
    assert_eq!(value.chars().count(), 10);
    assert!(value.chars().all(|c| c.is_ascii_alphabetic()));
    let (_, strong) = cmd_make(&words(&["api", "-l=16", "-a"])).unwrap();
    assert_eq!(strong.chars().count(), 16);
    assert_eq!(strong.chars().filter(|c| c.is_ascii_digit()).count(), 1);
    assert_eq!(cmd_make(&words(&["api", "-l=1", "-a"])), Err(ArgError::LengthTooShort));
    assert_eq!(cmd_make(&words(&["api", "-l=1", "-a", "-v=x"])), Ok(("api".to_string(), "x".to_string())));
    assert_eq!(cmd_make(&words(&["api", "-l=0"])), Ok(("api".to_string(), "".to_string())));
    assert_eq!(cmd_make(&words(&["-api"])), Err(ArgError::InvalidName));
}

#[test]
fn refusals_have_messages() {
    assert_eq!(ArgError::InvalidName.message(), "invalid name");
    assert_eq!(ArgError::EmptyValue.message(), "secret value is empty");
    assert_eq!(ArgError::LengthNotNumeric.message(), "length arg is not numeric");
    assert_eq!(ArgError::LengthTooShort.message(), "length is too short");
    assert_eq!(ArgError::InvalidArgument.message(), "invalid argument");
}

#[test]
fn a_value_is_shown_as_stars() {
    assert_eq!(mask(""), "");
    assert_eq!(mask("abc"), "***");
    assert_eq!(mask("\u{4e2d}\u{6587}"), "****");
    assert_eq!(mask("e\u{301}"), "*");
}

#[test]
fn a_trimmed_name_starts_the_request() {
    let a = secm::cmds::start_args("api").unwrap();
    assert_eq!((a.name.as_str(), a.value.as_str(), a.length, a.advance), ("api", "", 10, false));
    assert_eq!(secm::cmds::start_args("-api").err(), Some(ArgError::InvalidName));
    assert_eq!(secm::cmds::start_args("-").err(), Some(ArgError::InvalidName));
    let e = secm::cmds::start_args("").unwrap();
    assert_eq!((e.name.as_str(), e.length, e.advance), ("", 10, false));
    let s = secm::cmds::start_args(" -api").unwrap();
    assert_eq!(s.name, " -api");
}
