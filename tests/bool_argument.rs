use parkour::actions::SetOnce;
use parkour::util::Flag;
use parkour::{ArgsInput, Error, StringInput};

#[derive(Debug, PartialEq)]
struct Command {
    dry_run: bool,
}

/// What `#[derive(FromInput)]` with `#[parkour(main)]` produces for a struct
/// with one `#[arg(long, short)] dry_run: bool` field.
fn from_input(input: &mut ArgsInput) -> Result<Command, Error> {
    if input.bump_argument().is_some() {
        let mut dry_run = false;
        while input.is_not_empty() {
            if input.parse_long_flag("") {
                input.set_ignore_dashes(true);
            }
            if SetOnce(&mut dry_run).apply(input, &Flag::LongShort("dry-run", "d"))? {
                input.expect_end_of_argument()?;
                continue;
            }
            input.expect_empty()?;
        }
        Ok(Command { dry_run })
    } else {
        Err(Error::no_value())
    }
}

fn parse(s: &str) -> Result<Command, Error> {
    let mut input = StringInput::new(s.split(' ').map(ToString::to_string).collect());
    from_input(&mut input)
}

fn ok(s: &str, v: Command) {
    match parse(s) {
        Ok(f) => assert_eq!(f, v),
        Err(e) => panic!("error parsing command {}: {}", s, e.to_string()),
    }
}

fn err(s: &str, expected: &str) {
    match parse(s) {
        Ok(f) => panic!("Expected error `{:?}`, got {:?}", expected, f),
        Err(e) => {
            let mut buf = e.to_string();
            let mut source = e.source();
            while let Some(s) = source {
                buf.push_str(": ");
                buf.push_str(&s.to_string());
                source = s.source();
            }
            assert_eq!(buf, expected);
        }
    }
}

#[test]
fn bool_argument_successes() {
    ok("$", Command { dry_run: false });
    ok("$ --dry-run", Command { dry_run: true });
    ok("$ -d", Command { dry_run: true });
}

#[test]
fn bool_argument_failures() {
    err("$ -dYES", "unexpected value `YES`");
    err("$ -d=yes", "unexpected value `yes`");
    err("$ --dry-run=", "unexpected value ``");
    err("$ --dry-run yes", "unexpected argument `yes`");
    err("$ dry-run", "unexpected argument `dry-run`");
    err("$ --dry-run -d", "--dry-run was used too often, it can be used at most 1 times");
}
