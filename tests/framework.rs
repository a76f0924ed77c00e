use parkour::actions::{Reset, SetLast, SetOnce, SetPositional, Unset};
use parkour::from_input::from_input;
use parkour::fmt::concat_strings_human_readable;
use parkour::help::PossibleValues;
use parkour::impls::{parse_bool, parse_string, ArrayCtx, StringCtx, TupleCtx};
use parkour::offset_string::OffsetString;
use parkour::util::{ArgCtx, Flag, PosCtx};
use parkour::{Error, ErrorInner, StringInput};

fn args(s: &str) -> Vec<String> {
    s.split(' ').map(ToString::to_string).collect()
}

fn full_message(e: &Error) -> String {
    let mut buf = e.to_string();
    let mut source = e.source();
    while let Some(s) = source {
        buf.push_str(": ");
        buf.push_str(&s.to_string());
        source = s.source();
    }
    buf
}

#[test]
fn error_messages() {
    assert_eq!(Error::no_value().to_string(), "no value");
    assert_eq!(Error::missing_value().to_string(), "missing value");
    assert_eq!(Error::early_exit().to_string(), "early exit");
    assert_eq!(Error::from_inner(ErrorInner::IncompleteValue(3)).to_string(), "missing part 3 of value");
    assert_eq!(Error::in_argument(&Flag::LongShort("color", "c")).to_string(), "in `--color`");
    assert_eq!(Error::in_subcommand("show").to_string(), "in subcommand show");
    assert_eq!(Error::unexpected_value("a", None).to_string(), "unexpected value `a`");
    let expected = PossibleValues::OneOf(vec![
        PossibleValues::String("always".into()),
        PossibleValues::String("auto".into()),
        PossibleValues::String("never".into()),
    ]);
    assert_eq!(
        Error::unexpected_value("a", Some(expected)).to_string(),
        "unexpected value `a`, expected `always`, `auto` or `never`"
    );
    assert_eq!(
        Error::from_inner(ErrorInner::TooManyValues { max: 2, count: 10 }).to_string(),
        "too many values, expected at most 2, got 10"
    );
    assert_eq!(
        Error::from_inner(ErrorInner::WrongNumberOfValues { expected: 3, got: 120 }).to_string(),
        "wrong number of values, expected 3, got 120"
    );
    assert_eq!(Error::missing_argument("--size").to_string(), "required --size was not provided");
    assert_eq!(
        Error::from_inner(ErrorInner::UnexpectedArgument { arg: "x".into() }).to_string(),
        "unexpected argument `x`"
    );
    assert_eq!(
        Error::too_many_arg_occurrences("--a", Some(1)).to_string(),
        "--a was used too often, it can be used at most 1 times"
    );
    assert_eq!(Error::too_many_arg_occurrences("--a", None).to_string(), "--a was used too often");
    assert_eq!(Error::unexpected_value("a\tb", None).to_string(), "unexpected value `a\\tb`");
}

#[test]
fn error_kinds_and_sources() {
    assert!(Error::no_value().is_no_value());
    assert!(!Error::missing_value().is_no_value());
    assert!(Error::early_exit().is_early_exit());
    assert!(matches!(Error::missing_value().inner(), ErrorInner::MissingValue));
    let e = Error::missing_value().with_source(Error::in_subcommand("test"));
    assert_eq!(full_message(&e), "missing value: in subcommand test");
    let e = Error::missing_value()
        .chain(ErrorInner::InArgument("--color".into()))
        .chain(ErrorInner::InSubcommand("show".into()));
    assert_eq!(full_message(&e), "missing value: in subcommand show: in `--color`");
}

#[test]
fn flags_first_alias_and_matching() {
    assert_eq!(Flag::Short("h").first_to_string(), "-h");
    assert_eq!(Flag::Long("help").first_to_string(), "--help");
    assert_eq!(Flag::LongShort("help", "h").first_to_string(), "--help");
    assert_eq!(Flag::Many(vec![Flag::Short("v"), Flag::Long("verbose")]).first_to_string(), "-v");

    let mut input = StringInput::new(args("--verbose -qv x"));
    let many = Flag::Many(vec![Flag::Short("v"), Flag::Long("verbose")]);
    assert!(Flag::from_input(&mut input, &many).unwrap());
    assert!(!Flag::from_input(&mut input, &many).unwrap());
    assert!(Flag::from_input(&mut input, &Flag::Short("q")).unwrap());
    assert!(Flag::from_input(&mut input, &many).unwrap());
    assert!(!Flag::from_input(&mut input, &Flag::LongShort("x", "x")).unwrap());
    assert!(input.parse_command("x"));
    assert!(input.is_empty());
}

#[test]
fn bool_actions() {
    let mut input = StringInput::new(args("-a -b -a -b"));
    let mut on = false;
    assert!(SetLast(&mut on).apply(&mut input, &Flag::Short("a")).unwrap());
    assert!(on);
    assert!(!SetLast(&mut on).apply(&mut input, &Flag::Short("a")).unwrap());
    assert!(Reset(&mut on).apply(&mut input, &Flag::Short("b")).unwrap());
    assert!(!on);
    let mut set = true;
    assert!(Unset(&mut set).apply(&mut input, &Flag::Short("a")).unwrap());
    assert!(!set);
    let e = Unset(&mut set).apply(&mut input, &Flag::Short("b")).unwrap_err();
    assert_eq!(e.to_string(), "-b was used too often");
    assert!(input.is_empty());
}

#[test]
fn parse_helpers() {
    let mut input = StringInput::new(args("run -x=1 --y"));
    assert!(!input.parse_command("ru"));
    assert!(input.parse_command("run"));
    assert!(!input.parse_long_flag("x"));
    assert!(input.parse_short_flag("x"));
    let e = input.expect_end_of_argument().unwrap_err();
    assert_eq!(e.to_string(), "unexpected value `1`");
    assert!(input.expect_end_of_argument().is_ok());
    assert!(input.parse_long_flag("y"));
    assert!(input.expect_empty().is_ok());
}

#[test]
fn offset_string_slices_from_start() {
    let mut s = OffsetString::new("hello world!".to_string(), 0);
    assert_eq!(s.as_str(), "hello world!");
    s.inc_offset(2);
    assert_eq!(s.as_str(), "llo world!");
    s.inc_offset(4);
    assert_eq!(s.as_str(), "world!");
    assert_eq!(s.original(), "hello world!");
}

#[test]
fn names_joined_for_humans() {
    let names = |v: &[&str]| v.iter().map(|s| s.to_string()).collect::<Vec<_>>();
    assert_eq!(concat_strings_human_readable(&names(&[])), "");
    assert_eq!(concat_strings_human_readable(&names(&["a"])), "a");
    assert_eq!(concat_strings_human_readable(&names(&["a", "b"])), "a or b");
    assert_eq!(concat_strings_human_readable(&names(&["a", "b", "c"])), "a, b or c");
}

#[test]
fn contexts_keep_their_fields() {
    let s = StringCtx::new(1, 5);
    assert_eq!((s.min_length, s.max_length, s.allow_leading_dashes), (1, 5, false));
    let s = s.allow_leading_dashes();
    assert!(s.allow_leading_dashes);
    let d = StringCtx::default();
    assert_eq!((d.min_length, d.max_length), (0, usize::MAX));
    assert_eq!(ArrayCtx::new(Some(','), ()).delimiter, Some(','));
    assert_eq!(TupleCtx::new(';', 7).inner, 7);
    let a = ArgCtx::new(Flag::Long("size"), 3);
    assert_eq!(a.flag.first_to_string(), "--size");
    assert_eq!(PosCtx::new("file", ()).name, "file");
}

#[test]
fn bool_and_string_values() {
    assert_eq!(parse_bool("1").unwrap(), true);
    assert_eq!(parse_bool("0").unwrap(), false);
    assert_eq!(parse_bool("YeS").unwrap(), true);
    assert_eq!(parse_bool("N").unwrap(), false);
    assert_eq!(parse_bool("False").unwrap(), false);
    assert_eq!(parse_bool("TRUE").unwrap(), true);
    assert_eq!(
        parse_bool("maybe").unwrap_err().to_string(),
        "unexpected value `maybe`, expected `yes` or `no`"
    );
    assert_eq!(parse_string("abc", &StringCtx::default()).unwrap(), "abc");
    assert_eq!(
        parse_string("abc", &StringCtx::new(0, 2)).unwrap_err().to_string(),
        "unexpected value `string with length 3`, expected string with at most 2 bytes"
    );
    assert_eq!(
        parse_string("", &StringCtx::new(1, usize::MAX)).unwrap_err().to_string(),
        "unexpected value `string with length 0`, expected non-empty string"
    );
    assert_eq!(
        parse_string("a", &StringCtx::new(2, 4)).unwrap_err().to_string(),
        "unexpected value `string with length 1`, expected string with 2 to 4 bytes"
    );
}

#[test]
fn values_and_named_arguments() {
    let mut input = StringInput::new(args("--color=no --size 12 -x file"));
    let mut color: Option<bool> = None;
    assert!(SetOnce(&mut color).apply(&mut input, &ArgCtx::new(Flag::Long("color"), ())).unwrap());
    assert_eq!(color, Some(false));
    let size: String = from_input(&mut input, &ArgCtx::new(Flag::Long("size"), StringCtx::default())).unwrap();
    assert_eq!(size, "12");
    let e = from_input::<bool>(&mut input, &ArgCtx::new(Flag::Long("size"), ())).unwrap_err();
    assert!(e.is_no_value());
    assert!(input.parse_short_flag("x"));
    let mut file: Option<String> = None;
    assert!(SetPositional(&mut file).apply(&mut input, &PosCtx::new("file", StringCtx::default())).unwrap());
    assert_eq!(file.as_deref(), Some("file"));
    assert!(input.is_empty());
    assert!(input.try_parse_value::<bool>(&()).unwrap().is_none());
    let mut input = StringInput::new(args("-n -5"));
    assert!(input.parse_value::<String>(&StringCtx::default()).unwrap_err().is_no_value());
    assert!(input.parse_short_flag("n"));
    let negative: String = input.parse_value(&StringCtx::new(0, 9).allow_leading_dashes()).unwrap();
    assert_eq!(negative, "-5");
}
