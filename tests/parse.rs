use std::cell::RefCell;
use std::rc::Rc;

use parson::helpers::{parse_opt, ErrorType};
use parson::{Action, Argument, Command, Halt, Matches, Opt, Parsed};

fn tokens(v: &[&str]) -> Vec<String> {
    v.iter().map(|s| s.to_string()).collect()
}

fn namesay() -> Command {
    Command::new("namesay")
        .version("1.0.0")
        .description("Say someone's name")
        .argument(Argument::new("name"))
        .option(Opt::new("shout"))
        .option(Opt::new("last-name").expects_value())
}

fn resolved(p: Parsed) -> Command {
    match p {
        Parsed::Resolved(c) => c,
        Parsed::Help(_) => panic!("help"),
        Parsed::Version(_) => panic!("version"),
        Parsed::Failed(e) => panic!("{}", e.message()),
    }
}

fn failure(p: Parsed) -> ErrorType {
    match p {
        Parsed::Failed(e) => e,
        _ => panic!("expected a failure"),
    }
}

fn value(c: &Command, name: &str) -> Option<String> {
    c.get_matches().get(name)
}

#[test]
fn it_works() {
    let c = resolved(namesay().parse(&tokens(&["john", "--shout"])));
    assert_eq!(c.get_argument().value, "john");
    assert_eq!(value(&c, "shout"), Some(String::new()));
}

#[test]
fn opt_new_sets_forms() {
    let o = Opt::new("shout");
    let c = Command::new("x").option(o);
    let r = resolved(c.parse(&tokens(&["-s"])));
    assert_eq!(value(&r, "shout"), Some(String::new()));
    let c = Command::new("x").option(Opt::new("q"));
    let r = failure(c.parse(&tokens(&["--q"])));
    assert!(matches!(r, ErrorType::InvalidOption(ref s) if s == "q"));
}

#[test]
fn opt_short_and_long_overrides() {
    let c = Command::new("x").option(Opt::new("shout").short('S').long(String::from("loud")));
    let r = resolved(c.parse(&tokens(&["--loud"])));
    assert_eq!(value(&r, "shout"), Some(String::new()));
    let c = Command::new("x").option(Opt::new("shout").short('S').long(String::from("loud")));
    let r = resolved(c.parse(&tokens(&["-S"])));
    assert_eq!(value(&r, "shout"), Some(String::new()));
}

#[test]
fn parse_opt_splits_name_and_value() {
    assert_eq!(parse_opt(String::from("--name=John")), (String::from("name"), String::from("John")));
    assert_eq!(parse_opt(String::from("-n")), (String::from("n"), String::new()));
    assert_eq!(parse_opt(String::from("--a=b=c")), (String::from("a"), String::from("b=c")));
    assert_eq!(parse_opt(String::from("plain")), (String::from("plain"), String::new()));
    assert_eq!(parse_opt(String::new()), (String::new(), String::new()));
}

#[test]
fn long_flag_is_recorded_empty() {
    let c = resolved(namesay().parse(&tokens(&["--shout"])));
    assert_eq!(value(&c, "shout"), Some(String::new()));
}

#[test]
fn chained_short_flags_are_recorded() {
    let c = Command::new("x").option(Opt::new("all")).option(Opt::new("brief"));
    let r = resolved(c.parse(&tokens(&["-ab"])));
    assert_eq!(value(&r, "all"), Some(String::new()));
    assert_eq!(value(&r, "brief"), Some(String::new()));
}

#[test]
fn absent_flag_has_no_key() {
    let c = resolved(namesay().parse(&tokens(&["john"])));
    assert!(!c.get_matches().contains_key("shout"));
    assert_eq!(value(&c, "last-name"), None);
}

#[test]
fn inline_long_value_is_recorded() {
    let c = resolved(namesay().parse(&tokens(&["--last-name=Doe"])));
    assert_eq!(value(&c, "last-name"), Some(String::from("Doe")));
}

#[test]
fn separate_short_value_is_recorded() {
    let c = resolved(namesay().parse(&tokens(&["john", "-l", "Doe"])));
    assert_eq!(value(&c, "last-name"), Some(String::from("Doe")));
    assert_eq!(c.get_argument().value, "john");
}

#[test]
fn separate_long_value_is_recorded() {
    let c = resolved(namesay().parse(&tokens(&["--last-name", "Doe"])));
    assert_eq!(value(&c, "last-name"), Some(String::from("Doe")));
}

#[test]
fn missing_value_at_end_fails() {
    let e = failure(namesay().parse(&tokens(&["--last-name"])));
    assert!(matches!(e, ErrorType::ExpectingValue(ref s) if s == "last-name"));
}

#[test]
fn option_in_place_of_value_fails() {
    let e = failure(namesay().parse(&tokens(&["--last-name", "--shout"])));
    assert!(matches!(e, ErrorType::ExpectingValue(ref s) if s == "last-name"));
}

#[test]
fn value_for_flag_fails() {
    let e = failure(namesay().parse(&tokens(&["--shout=yes"])));
    assert!(matches!(e, ErrorType::UnexpectedValue(ref s) if s == "shout"));
}

#[test]
fn valued_option_in_chain_fails() {
    let c = Command::new("x").option(Opt::new("name").expects_value()).option(Opt::new("xtra"));
    let e = failure(c.parse(&tokens(&["-nx"])));
    assert!(matches!(e, ErrorType::ShortExpectingValue(ref s) if s == "name"));
}

#[test]
fn first_positional_is_kept() {
    let c = Command::new("x").argument(Argument::new("file")).option(Opt::new("all"));
    let r = resolved(c.parse(&tokens(&["first", "a"])));
    assert_eq!(r.get_argument().value, "first");
    assert_eq!(r.get_argument().get_name(), "file");
    assert_eq!(value(&r, "all"), Some(String::new()));
}

#[test]
fn subcommand_takes_the_rest() {
    let build = Command::new("build").option(Opt::new("flag"));
    let top = Command::new("top").option(Opt::new("other")).subcommand(build);
    let r = resolved(top.parse(&tokens(&["build", "--flag"])));
    assert_eq!(r.get_name(), "build");
    assert_eq!(value(&r, "flag"), Some(String::new()));
}

#[test]
fn subcommand_of_same_name_replaces() {
    let top = Command::new("top")
        .subcommand(Command::new("build").description("one"))
        .subcommand(Command::new("build").description("two"));
    let rows = top.subcommand_rows();
    assert_eq!(rows.len(), 2);
    assert_eq!(rows[0], (String::from("help"), String::new()));
    assert_eq!(rows[1], (String::from("build"), String::from("two")));
}

#[test]
fn long_help_halts_with_help() {
    match namesay().parse(&tokens(&["john", "--shout", "--help"])) {
        Parsed::Help(c) => assert_eq!(c.get_name(), "namesay"),
        _ => panic!("expected help"),
    }
}

#[test]
fn short_help_in_subcommand() {
    let top = Command::new("top").subcommand(Command::new("build"));
    match top.parse(&tokens(&["build", "-h"])) {
        Parsed::Help(c) => assert_eq!(c.get_name(), "build"),
        _ => panic!("expected help"),
    }
}

#[test]
fn version_flag_halts() {
    match namesay().parse(&tokens(&["-v"])) {
        Parsed::Version(c) => assert_eq!(c.get_version(), "1.0.0"),
        _ => panic!("expected version"),
    }
}

#[test]
fn help_command_has_no_version() {
    let h = Command::new("help");
    assert_eq!(h.option_count(), 1);
    assert_eq!(h.subcommand_rows().len(), 0);
    let e = failure(Command::new("help").parse(&tokens(&["--version"])));
    assert!(matches!(e, ErrorType::InvalidOption(ref s) if s == "version"));
    let c = Command::new("c");
    assert_eq!(c.option_count(), 2);
    assert_eq!(c.subcommand_rows().len(), 1);
}

#[test]
fn help_subcommand_is_dispatched() {
    match namesay().parse(&tokens(&["help", "--help"])) {
        Parsed::Help(c) => assert_eq!(c.get_name(), "help"),
        _ => panic!("expected help"),
    }
}

#[test]
fn unknown_long_option_fails() {
    let e = failure(namesay().parse(&tokens(&["--bogus"])));
    assert!(matches!(e, ErrorType::InvalidOption(ref s) if s == "bogus"));
    assert_eq!(e.message(), "Invalid option `bogus`");
}

#[test]
fn unknown_short_in_chain_names_chain() {
    let e = failure(namesay().parse(&tokens(&["-sq"])));
    assert!(matches!(e, ErrorType::InvalidOption(ref s) if s == "sq"));
}

#[test]
fn parsing_twice_agrees() {
    let t = tokens(&["john", "--last-name=Doe", "-s"]);
    let a = resolved(namesay().parse(&t));
    let b = resolved(namesay().parse(&t));
    assert_eq!(a.get_argument().value, b.get_argument().value);
    assert_eq!(value(&a, "last-name"), value(&b, "last-name"));
    assert_eq!(value(&a, "shout"), value(&b, "shout"));
}

#[test]
fn error_messages() {
    assert_eq!(ErrorType::ExpectingValue(String::from("n")).message(), "Option `n` expects a value");
    assert_eq!(
        ErrorType::UnexpectedValue(String::from("s")).message(),
        "Option `s` does not expect a value, but one was provided"
    );
    assert_eq!(
        ErrorType::ShortExpectingValue(String::from("n")).message(),
        "Short option `n` expects a value and must be passed separately"
    );
}

#[test]
fn matches_insert_replaces() {
    let mut m = Matches::new();
    m.insert(String::from("a"), String::from("1"));
    m.insert(String::from("b"), String::new());
    m.insert(String::from("a"), String::from("2"));
    assert_eq!(m.get("a"), Some(String::from("2")));
    assert_eq!(m.get("b"), Some(String::new()));
    assert!(!m.contains_key("c"));
}

struct Record(Rc<RefCell<Vec<(String, Option<String>)>>>);

impl Action for Record {
    fn call(&self, argument: Argument, matches: Matches) {
        self.0.borrow_mut().push((argument.value, matches.get("last-name")));
    }
}

#[test]
fn run_calls_action_once() {
    let seen = Rc::new(RefCell::new(Vec::new()));
    let c = namesay().action(Box::new(Record(seen.clone())));
    assert!(c.run(&tokens(&["john", "--last-name", "Doe"])).is_ok());
    assert_eq!(*seen.borrow(), vec![(String::from("john"), Some(String::from("Doe")))]);
}

#[test]
fn run_returns_failure() {
    let seen = Rc::new(RefCell::new(Vec::new()));
    let c = namesay().action(Box::new(Record(seen.clone())));
    match c.run(&tokens(&["--bogus"])) {
        Err(Halt::Failed(e)) => assert!(matches!(e, ErrorType::InvalidOption(_))),
        _ => panic!("expected a failure"),
    }
    assert!(seen.borrow().is_empty());
}
