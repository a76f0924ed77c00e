use parkour::actions::SetOnce;
use parkour::help::PossibleValues;
use parkour::util::{ArgCtx, Flag};
use parkour::{ArgsInput, Error, FromInputValue, StringInput};

#[derive(Debug, PartialEq)]
struct Command {
    mode: Option<ColorMode>,
}

#[derive(Debug, PartialEq)]
enum ColorMode {
    Always,
    Auto,
    Never,
}

/// What `#[derive(FromInputValue)]` produces for `ColorMode`.
impl FromInputValue for ColorMode {
    type Context = ();

    fn from_input_value(value: &str, context: &()) -> Result<Self, Error> {
        match value {
            v if v.eq_ignore_ascii_case("always") => Ok(ColorMode::Always),
            v if v.eq_ignore_ascii_case("auto") => Ok(ColorMode::Auto),
            v if v.eq_ignore_ascii_case("never") => Ok(ColorMode::Never),
            v => Err(Error::unexpected_value(v, Self::possible_values(context))),
        }
    }

    fn allow_leading_dashes(_: &()) -> bool {
        false
    }

    fn possible_values(_: &()) -> Option<PossibleValues> {
        Some(PossibleValues::OneOf(vec![
            PossibleValues::String("always".to_string()),
            PossibleValues::String("auto".to_string()),
            PossibleValues::String("never".to_string()),
        ]))
    }
}

/// What `#[derive(FromInput)]` with `#[parkour(main)]` produces for
/// `Command`.
fn from_input(input: &mut ArgsInput) -> Result<Command, Error> {
    if input.bump_argument().is_some() {
        let mut mode = None;
        while input.is_not_empty() {
            if input.parse_long_flag("") {
                input.set_ignore_dashes(true);
            }
            let color = Flag::Many(vec![Flag::Long("color"), Flag::Long("colour"), Flag::Short("c")]);
            if SetOnce(&mut mode).apply(input, &ArgCtx::new(color, ()))? {
                input.expect_end_of_argument()?;
                continue;
            }
            if SetOnce(&mut mode).apply(input, &ArgCtx::new(Flag::LongShort("alias", "a"), ()))? {
                input.expect_end_of_argument()?;
                continue;
            }
            input.expect_empty()?;
        }
        Ok(Command { mode: mode })
    } else {
        Err(Error::no_value())
    }
}

fn parse(s: &str) -> Result<Command, Error> {
    let mut input = StringInput::new(s.split(' ').map(ToString::to_string).collect());
    from_input(&mut input)
}

fn ok(s: &str, v: Command) {
    match parse(s) {
        Ok(f) => assert_eq!(f, v),
        Err(e) => panic!("error parsing command {}: {}", s, e.to_string()),
    }
}

fn err(s: &str, expected: &str) {
    match parse(s) {
        Ok(f) => panic!("Expected error `{:?}`, got {:?}", expected, f),
        Err(e) => {
            let mut buf = e.to_string();
            let mut source = e.source();
            while let Some(s) = source {
                buf.push_str(": ");
                buf.push_str(&s.to_string());
                source = s.source();
            }
            assert_eq!(buf, expected);
        }
    }
}

#[test]
fn optional_argument_successes() {
    ok("$", Command { mode: None });
    ok("$ -c always", Command { mode: Some(ColorMode::Always) });
    ok("$ -c=always", Command { mode: Some(ColorMode::Always) });
    ok("$ -cALwAyS", Command { mode: Some(ColorMode::Always) });
    ok("$ -a always", Command { mode: Some(ColorMode::Always) });
    ok("$ --color always", Command { mode: Some(ColorMode::Always) });
    ok("$ --color=always", Command { mode: Some(ColorMode::Always) });
    ok("$ --colour=always", Command { mode: Some(ColorMode::Always) });
    ok("$ --alias always", Command { mode: Some(ColorMode::Always) });
}

#[test]
fn optional_argument_failures() {
    err("$ --color", "missing value: in `--color`: in `--color`");
    err(
        "$ --color=",
        "unexpected value ``, expected `always`, `auto` or `never`: in `--color`",
    );
    err(
        "$ --color a",
        "unexpected value `a`, expected `always`, `auto` or `never`: in `--color`",
    );
    err(
        "$ -ca",
        "unexpected value `a`, expected `always`, `auto` or `never`: in `--color`",
    );
    err("$ -bca", "unexpected argument `bca`");
    err("$ --colorALWAYS", "unexpected argument `colorALWAYS`");
    err("$ -cALWAYS d", "unexpected argument `d`");
    err(
        "$ -cALWAYS=d",
        "unexpected value `ALWAYS=d`, expected `always`, `auto` or `never`: in `--color`",
    );
    err(
        "$ -cALWAYS -aNEVER",
        "--alias was used too often, it can be used at most 1 times",
    );
}
