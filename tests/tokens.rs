use parkour::{StringInput, TokenKind};

fn input(s: &'static str) -> Vec<String> {
    s.split(' ').map(ToString::to_string).collect()
}

#[test]
fn test_no_dash_1() {
    let mut input = StringInput::new(input("ab c def"));
    assert_eq!(input.eat_no_dash("ab"), Some("ab"));
    assert_eq!(input.eat_no_dash("cd"), None);
    assert_eq!(input.eat_no_dash("c"), Some("c"));
    assert_eq!(input.eat_no_dash("de"), None);
    assert_eq!(input.eat_no_dash("def"), Some("def"));
    assert_eq!(input.eat_no_dash(""), None);
    assert!(input.is_empty());
}

#[test]
fn test_no_dash_2() {
    let mut input = StringInput::new(input("ab c-d=e -fg"));
    assert_eq!(input.eat_no_dash("ab"), Some("ab"));
    assert_eq!(input.eat_no_dash("c-d=e"), Some("c-d=e"));
    assert_eq!(input.eat_no_dash("fg"), None);
    assert_eq!(input.eat_no_dash("-fg"), None);
}

#[test]
fn test_no_dash_3() {
    let mut input = StringInput::new(input("ab --cd=e -fg"));
    input.bump(1);
    assert_eq!(input.eat_no_dash("b"), Some("b"));
    assert_eq!(input.eat_two_dashes("cd"), Some("cd"));
    assert_eq!(input.eat_no_dash("e"), None);
    assert_eq!(input.eat_value("e"), Some("e"));
    assert_eq!(input.eat_one_dash("f"), Some("f"));
    assert_eq!(input.eat_no_dash("g"), None);
}

#[test]
fn test_one_dash_1() {
    let mut input = StringInput::new(input("-cde=f -gh= - --"));
    assert_eq!(input.eat_one_dash("c"), Some("c"));
    assert_eq!(input.eat_one_dash("de"), Some("de"));
    assert_eq!(input.eat_value("f"), Some("f"));
    assert_eq!(input.eat_one_dash("gh"), Some("gh"));
    assert_eq!(input.eat_one_dash(""), None);
    assert_eq!(input.eat_value(""), Some(""));
    assert_eq!(input.eat_one_dash(""), Some(""));
    assert_eq!(input.eat_one_dash("-"), None);
    assert_eq!(input.eat_two_dashes(""), Some(""));
    assert_eq!(input.eat_one_dash(""), None);
}

#[test]
fn test_one_dash_2() {
    let mut input = StringInput::new(input("-a-b=c -d=e"));
    assert_eq!(input.eat_one_dash("a"), Some("a"));
    assert_eq!(input.eat_one_dash("-b"), Some("-b"));
    assert_eq!(input.eat_one_dash("="), None);
    assert_eq!(input.eat_value("c"), Some("c"));
    assert_eq!(input.eat_one_dash("d=e"), Some("d=e"));
    assert!(input.is_empty());
}

#[test]
fn test_one_dash_3() {
    let mut input = StringInput::new(input("--abc=-def -g=h i"));
    assert_eq!(input.eat_one_dash("-"), None);
    assert_eq!(input.eat_one_dash("a"), None);
    assert_eq!(input.eat_two_dashes("abc"), Some("abc"));
    assert_eq!(input.eat_one_dash("d"), None);
    assert_eq!(input.eat_one_dash("-def"), None);
    assert_eq!(input.eat_value("-def"), Some("-def"));
    assert_eq!(input.eat_one_dash("g"), Some("g"));
    assert_eq!(input.eat_one_dash("=h"), None);
    assert_eq!(input.eat_one_dash("h"), None);
    assert_eq!(input.eat_value("h"), Some("h"));
    assert_eq!(input.eat_one_dash("i"), None);
}

#[test]
fn test_two_dashes_1() {
    let mut input = StringInput::new(input("-- --abc --d=e --f=g"));
    assert_eq!(input.eat_two_dashes(""), Some(""));
    assert_eq!(input.eat_two_dashes("ab"), None);
    assert_eq!(input.eat_two_dashes("abc"), Some("abc"));
    assert_eq!(input.eat_two_dashes("d=e"), Some("d=e"));
    assert_eq!(input.eat_two_dashes("f"), Some("f"));
    assert_eq!(input.eat_value("g"), Some("g"));
    assert_eq!(input.eat_two_dashes(""), None);
    assert!(input.is_empty());
}

#[test]
fn test_two_dashes_2() {
    let mut input = StringInput::new(input("--a=b c--d -e--f"));
    assert_eq!(input.eat_two_dashes("a"), Some("a"));
    assert_eq!(input.eat_two_dashes("b"), None);
    assert_eq!(input.eat_value("b"), Some("b"));
    input.bump(1);
    assert_eq!(input.eat_two_dashes("d"), None);
    assert_eq!(input.eat_value("--d"), Some("--d"));
    assert_eq!(input.eat_one_dash("e"), Some("e"));
    assert_eq!(input.eat_two_dashes("f"), None);
}

#[test]
fn test_value() {
    let mut input = StringInput::new(input("ab -cde fg -hi --jk --l=-m -n=--o"));
    assert_eq!(input.eat_value("ab"), Some("ab"));
    assert_eq!(input.eat_one_dash("c"), Some("c"));
    assert_eq!(input.eat_value("de"), Some("de"));
    assert_eq!(input.eat_value("fg"), Some("fg"));
    assert_eq!(input.eat_value("-hi"), None);
    assert_eq!(input.eat_one_dash("hi"), Some("hi"));
    assert_eq!(input.eat_value("--jk"), None);
    assert_eq!(input.eat_two_dashes("jk"), Some("jk"));
    assert_eq!(input.eat_two_dashes("l"), Some("l"));
    assert_eq!(input.eat_value("-m"), Some("-m"));
    assert_eq!(input.eat_one_dash("n"), Some("n"));
    assert_eq!(input.eat_value("--o"), Some("--o"));
    assert!(input.is_empty());
}

#[test]
fn test_value_allows_leading_dashes() {
    let mut input = StringInput::new(input("ab -cde fg -hi --jk --l=-m -n=--o"));
    assert_eq!(input.eat_value_allows_leading_dashes("ab"), Some("ab"));
    assert_eq!(input.eat_value_allows_leading_dashes("-c"), None);
    assert_eq!(input.eat_value_allows_leading_dashes("-cde"), Some("-cde"));
    assert_eq!(input.eat_value_allows_leading_dashes("fg"), Some("fg"));
    assert_eq!(input.eat_value_allows_leading_dashes("-hi"), Some("-hi"));
    assert_eq!(input.eat_value_allows_leading_dashes("--jk"), Some("--jk"));
    assert_eq!(input.eat_two_dashes("l"), Some("l"));
    assert_eq!(input.eat_value_allows_leading_dashes("-m"), Some("-m"));
    assert_eq!(input.eat_one_dash("n"), Some("n"));
    assert_eq!(input.eat_value_allows_leading_dashes("--o"), Some("--o"));
    assert!(input.is_empty());
}

#[test]
fn scenario_no_dash_trace() {
    let mut input = StringInput::new(input("ab c def"));
    assert_eq!(input.eat_no_dash("ab"), Some("ab"));
    assert_eq!(input.eat_no_dash("cd"), None);
    assert_eq!(input.eat_no_dash("c"), Some("c"));
    assert_eq!(input.eat_no_dash("def"), Some("def"));
    assert!(input.is_empty());
}

#[test]
fn scenario_one_dash_trace() {
    let mut input = StringInput::new(input("-cde=f -gh="));
    assert_eq!(input.eat_one_dash("c"), Some("c"));
    assert_eq!(input.eat_one_dash("de"), Some("de"));
    assert_eq!(input.eat_value("f"), Some("f"));
    assert_eq!(input.eat_one_dash("gh"), Some("gh"));
    assert_eq!(input.eat_value(""), Some(""));
    assert!(input.is_empty());
}

#[test]
fn scenario_two_dashes_trace() {
    let mut input = StringInput::new(input("-- --abc --d=e"));
    assert_eq!(input.eat_two_dashes(""), Some(""));
    assert_eq!(input.eat_two_dashes("ab"), None);
    assert_eq!(input.eat_two_dashes("abc"), Some("abc"));
    assert_eq!(input.eat_two_dashes("d=e"), Some("d=e"));
    assert!(input.is_empty());
}

#[test]
fn scenario_ignore_dashes_mid_stream() {
    let mut input = StringInput::new(input("a -x"));
    input.set_ignore_dashes(true);
    assert!(input.ignore_dashes());
    assert_eq!(input.eat_no_dash("a"), Some("a"));
    assert_eq!(input.current(), Some(("-x", TokenKind::NoDash)));
    assert_eq!(input.eat_one_dash("x"), None);
    assert_eq!(input.eat_two_dashes("x"), None);
    assert_eq!(input.eat_no_dash("-x"), Some("-x"));
    assert!(input.is_empty());
}

#[test]
fn ignore_dashes_off_classifies_again() {
    let mut input = StringInput::new(input("--ab"));
    input.set_ignore_dashes(true);
    assert_eq!(input.current(), Some(("--ab", TokenKind::NoDash)));
    input.set_ignore_dashes(false);
    assert_eq!(input.current(), Some(("ab", TokenKind::TwoDashes)));
    assert_eq!(input.current_str_with_leading_dashes(), Some("--ab"));
}

#[test]
fn exhausted_input_matches_nothing() {
    let mut input = StringInput::new(Vec::new());
    assert!(input.is_empty());
    assert!(!input.is_not_empty());
    assert_eq!(input.current(), None);
    assert_eq!(input.current_str_with_leading_dashes(), None);
    assert_eq!(input.eat_no_dash(""), None);
    assert_eq!(input.eat_one_dash(""), None);
    assert_eq!(input.eat_two_dashes(""), None);
    assert_eq!(input.eat_value(""), None);
    assert_eq!(input.eat_value_allows_leading_dashes(""), None);
    assert!(input.no_dash().is_none());
    assert!(input.value().is_none());
    assert!(input.value_allows_leading_dashes().is_none());
    assert_eq!(input.bump_argument(), None);
}

#[test]
fn failed_match_leaves_state() {
    let mut input = StringInput::new(input("-ab c"));
    let before = (input.current().map(|(s, k)| (s.to_string(), k)),
        input.current_str_with_leading_dashes().map(|s| s.to_string()));
    assert_eq!(input.eat_two_dashes("ab"), None);
    assert_eq!(input.eat_no_dash("-ab"), None);
    assert_eq!(input.eat_value("ab"), None);
    let after = (input.current().map(|(s, k)| (s.to_string(), k)),
        input.current_str_with_leading_dashes().map(|s| s.to_string()));
    assert_eq!(before, after);
}

#[test]
fn dash_count_classes() {
    let mut input = StringInput::new(input("-a --a ---a a"));
    assert_eq!(input.current(), Some(("a", TokenKind::OneDash)));
    assert_eq!(input.eat_two_dashes("a"), None);
    input.bump_argument();
    assert_eq!(input.current(), Some(("a", TokenKind::TwoDashes)));
    assert_eq!(input.eat_one_dash("a"), None);
    input.bump_argument();
    assert_eq!(input.current(), Some(("-a", TokenKind::TwoDashes)));
    input.bump_argument();
    assert_eq!(input.current(), Some(("a", TokenKind::NoDash)));
}

#[test]
fn commits_reconstruct_the_arguments() {
    let mut input = StringInput::new(input("ab -cd=e --f"));
    let mut out = String::new();
    while let Some(part) = input.value_allows_leading_dashes() {
        out.push_str(part.eat());
        out.push('|');
    }
    assert_eq!(out, "ab|-cd=e|--f|");
}

#[test]
fn parts_measure_and_shorten() {
    let mut input = StringInput::new(input("-héllo=x"));
    let part = input.one_dash().unwrap();
    assert_eq!(part.as_str(), "héllo=x");
    assert_eq!(part.len(), 8);
    assert!(!part.is_empty());
    let first = part.take_char().unwrap();
    assert_eq!(first.as_str(), "h");
    assert_eq!(first.eat(), "h");
    assert_eq!(input.current(), Some(("éllo=x", TokenKind::AfterOneDash)));
    let e = input.value().unwrap().take_char().unwrap();
    assert_eq!(e.len(), 2);
    assert_eq!(e.eat(), "é");
    let rest = input.value().unwrap().take(3);
    assert_eq!(rest.eat(), "llo");
    assert_eq!(input.current(), Some(("x", TokenKind::AfterEquals)));
    let ld = input.value_allows_leading_dashes().unwrap();
    assert_eq!(ld.as_str(), "x");
    assert_eq!(ld.eat(), "x");
    assert!(input.is_empty());
}

#[test]
fn bump_with_leading_dashes_counts_dashes() {
    let mut input = StringInput::new(input("--ab c"));
    assert_eq!(input.bump_with_leading_dashes(3), "--a");
    assert_eq!(input.current(), Some(("b", TokenKind::TwoDashes)));
    assert_eq!(input.bump_argument(), Some("b"));
    assert_eq!(input.current(), Some(("c", TokenKind::NoDash)));
}

#[test]
fn can_parse_predicates() {
    let mut input = StringInput::new(input("-ab"));
    assert!(input.can_parse_dash_argument());
    assert!(!input.can_parse_value_no_whitespace());
    assert_eq!(input.eat_one_dash("a"), Some("a"));
    assert!(input.can_parse_dash_argument());
    assert!(input.can_parse_value_no_whitespace());
}

#[test]
fn take_until_stops_before_the_delimiter() {
    let mut input = StringInput::new(input("--key=value héllo"));
    let name = input.two_dashes().unwrap().take_until('=');
    assert_eq!(name.as_str(), "key");
    assert_eq!(name.eat(), "key");
    assert_eq!(input.current(), Some(("value", TokenKind::AfterEquals)));
    let whole = input.value().unwrap().take_until('x');
    assert_eq!(whole.len(), 5);
    assert_eq!(whole.eat(), "value");
    let part = input.value().unwrap().take_until('l');
    assert_eq!(part.len(), 3);
    assert_eq!(part.as_str(), "hé");
    let part = part.take_until('é');
    assert_eq!(part.eat(), "h");
    let ld = input.value_allows_leading_dashes().unwrap().take_until('o');
    assert_eq!(ld.eat(), "éll");
    assert_eq!(input.current(), Some(("o", TokenKind::NoDash)));
}

#[test]
fn take_char_on_an_empty_claim_is_none() {
    let mut input = StringInput::new(input("ab"));
    let part = input.value().unwrap().take(0);
    assert!(part.is_empty());
    assert!(part.take_char().is_none());
    let ld = input.value_allows_leading_dashes().unwrap().take(0);
    assert!(ld.take_char().is_none());
}
