use vstd::prelude::*;

pub mod help;
pub mod helpers;
pub mod laws;
pub mod matches;

pub use helpers::{parse_opt, ErrorKind, ErrorType};
pub use matches::Matches;

use helpers::{
    first_where, lemma_first_where, opt_name_of, opt_value_of, starts_with_dash,
    starts_with_dash_exec, starts_with_two_dashes, starts_with_two_dashes_exec,
};
use helpers::text_eq;

verus! {

/// What an option declaration says.
pub struct OptView {
    pub name: Seq<char>,
    pub short: char,
    pub long: Seq<char>,
    pub expects_value: bool,
}

/// The declaration of one recognised option.
#[derive(Debug)]
pub struct Opt {
    name: String,
    short: char,
    long: String,
    expects_value: bool,
}

impl View for Opt {
    type V = OptView;

    closed spec fn view(&self) -> OptView {
        OptView {
            name: self.name@,
            short: self.short,
            long: self.long@,
            expects_value: self.expects_value,
        }
    }
}

/// The declaration that `Opt::new(name)` makes.
pub open spec fn opt_for(name: Seq<char>) -> OptView {
    OptView {
        name,
        short: name[0],
        long: if name.len() > 1 { name } else { Seq::empty() },
        expects_value: false,
    }
}

impl Opt {
    /// A flag named `name`: its short form is the first character, its long form the
    /// whole name when that is longer than one character.
    pub fn new(name: &str) -> (r: Opt)
        requires
            name@.len() > 0,
        ensures
            r@ == opt_for(name@),
    {
        let short = name.get_char(0);
        let mut long = String::new();
        if name.unicode_len() > 1 {
            long = name.to_string();
        }
        Opt { name: name.to_string(), short, long, expects_value: false }
    }

    pub fn short(self, value: char) -> (r: Self)
        ensures
            r@ == (OptView { short: value, ..self@ }),
    {
        let mut o = self;
        o.short = value;
        o
    }

    pub fn long(self, value: String) -> (r: Self)
        ensures
            r@ == (OptView { long: value@, ..self@ }),
    {
        let mut o = self;
        o.long = value;
        o
    }

    pub fn expects_value(self) -> (r: Self)
        ensures
            r@ == (OptView { expects_value: true, ..self@ }),
    {
        let mut o = self;
        o.expects_value = true;
        o
    }
}

/// The positional slot of a command.
#[derive(Debug)]
pub struct Argument {
    name: String,
    pub value: String,
}

impl Argument {
    pub closed spec fn spec_name(&self) -> Seq<char> {
        self.name@
    }

    pub closed spec fn spec_value(&self) -> Seq<char> {
        self.value@
    }

    pub fn new(name: &str) -> (r: Argument)
        ensures
            r.spec_name() == name@,
            r.spec_value() == Seq::<char>::empty(),
    {
        Argument { name: name.to_string(), value: String::new() }
    }
}

/// What a command does once its tokens are resolved.
pub trait Action {
    fn call(&self, argument: Argument, matches: Matches);
}

/// The declaration of one command level.
pub struct Command {
    name: String,
    version: String,
    description: String,
    example: String,
    action: Option<Box<dyn Action>>,
    argument: Argument,
    subcommands: Vec<Command>,
    options: Vec<Opt>,
    matches: Matches,
}


impl Command {
    pub closed spec fn spec_name(&self) -> Seq<char> {
        self.name@
    }

    pub closed spec fn spec_version(&self) -> Seq<char> {
        self.version@
    }

    pub closed spec fn spec_description(&self) -> Seq<char> {
        self.description@
    }

    pub closed spec fn spec_example(&self) -> Seq<char> {
        self.example@
    }

    pub closed spec fn has_action(&self) -> bool {
        self.action is Some
    }

    pub closed spec fn spec_argument(&self) -> Argument {
        self.argument
    }

    pub closed spec fn spec_subcommands(&self) -> Seq<Command> {
        self.subcommands@
    }

    pub closed spec fn spec_options(&self) -> Seq<OptView> {
        self.options@.map_values(|o: Opt| o@)
    }

    pub closed spec fn spec_matches(&self) -> Map<Seq<char>, Seq<char>> {
        self.matches@
    }

    /// Both commands declare the same thing; only what parsing fills may differ.
    pub open spec fn same_declaration(&self, other: &Command) -> bool {
        &&& self.spec_name() == other.spec_name()
        &&& self.spec_version() == other.spec_version()
        &&& self.spec_description() == other.spec_description()
        &&& self.spec_example() == other.spec_example()
        &&& self.has_action() == other.has_action()
        &&& self.spec_argument().spec_name() == other.spec_argument().spec_name()
        &&& self.spec_subcommands() == other.spec_subcommands()
        &&& self.spec_options() == other.spec_options()
    }
}

pub open spec fn help_opt() -> OptView {
    opt_for("help"@)
}

pub open spec fn version_opt() -> OptView {
    opt_for("version"@)
}

/// A command as `Command::new(name)` leaves it, apart from its subcommands.
pub open spec fn fresh_level(c: Command, name: Seq<char>) -> bool {
    &&& c.spec_name() == name
    &&& c.spec_version() == Seq::<char>::empty()
    &&& c.spec_description() == Seq::<char>::empty()
    &&& c.spec_example() == Seq::<char>::empty()
    &&& !c.has_action()
    &&& c.spec_argument().spec_name() == Seq::<char>::empty()
    &&& c.spec_argument().spec_value() == Seq::<char>::empty()
    &&& c.spec_matches() == Map::<Seq<char>, Seq<char>>::empty()
    &&& c.spec_options() == if name == "help"@ {
        seq![help_opt()]
    } else {
        seq![help_opt(), version_opt()]
    }
}

/// A command as `Command::new(name)` builds it: every command but one named `help`
/// holds a fresh `help` subcommand.
pub open spec fn fresh_command(c: Command, name: Seq<char>) -> bool {
    &&& fresh_level(c, name)
    &&& if name == "help"@ {
        c.spec_subcommands().len() == 0
    } else {
        &&& c.spec_subcommands().len() == 1
        &&& fresh_level(c.spec_subcommands()[0], "help"@)
        &&& c.spec_subcommands()[0].spec_subcommands().len() == 0
    }
}

/// The built-in options, recognised by name.
pub open spec fn is_help(o: OptView) -> bool {
    o.name == "help"@
}

pub open spec fn is_version(o: OptView) -> bool {
    o.name == "version"@
}

/// An option matched by a long token: only a non-empty long form matches.
pub open spec fn long_matches(o: OptView, name: Seq<char>) -> bool {
    o.long.len() > 0 && o.long == name
}

/// An option matched by a short token with an inline value.
pub open spec fn short_matches(o: OptView, name: Seq<char>) -> bool {
    name == seq![o.short]
}

/// Index of the first option whose long form is `name`.
pub open spec fn long_index(opts: Seq<OptView>, name: Seq<char>) -> nat {
    first_where(opts, |o: OptView| long_matches(o, name))
}

/// Index of the first option whose short form is the one-character `name`.
pub open spec fn short_index(opts: Seq<OptView>, name: Seq<char>) -> nat {
    first_where(opts, |o: OptView| short_matches(o, name))
}

/// Index of the first option whose short form is `ch`.
pub open spec fn char_index(opts: Seq<OptView>, ch: char) -> nat {
    first_where(opts, |o: OptView| o.short == ch)
}

/// Index of the first subcommand named `t`.
pub open spec fn sub_index(subs: Seq<Command>, t: Seq<char>) -> nat {
    first_where(subs, |c: Command| c.spec_name() == t)
}

/// What one token does at one command level.
pub enum Step {
    Next { arg: Seq<char>, matches: Map<Seq<char>, Seq<char>>, pending: Option<Seq<char>> },
    Help,
    Version,
    Failed { kind: ErrorKind, subject: Seq<char> },
}

/// A chain of short flags `cs`, taken from the token whose option name is `whole`.
pub open spec fn chain_step(
    opts: Seq<OptView>,
    cs: Seq<char>,
    whole: Seq<char>,
    arg: Seq<char>,
    m: Map<Seq<char>, Seq<char>>,
) -> Step
    decreases cs.len(),
{
    if cs.len() == 0 {
        Step::Next { arg, matches: m, pending: None }
    } else {
        let i = char_index(opts, cs[0]);
        if i >= opts.len() {
            Step::Failed { kind: ErrorKind::InvalidOption, subject: whole }
        } else {
            let o = opts[i as int];
            if is_help(o) {
                Step::Help
            } else if is_version(o) {
                Step::Version
            } else if o.expects_value {
                Step::Failed { kind: ErrorKind::ShortExpectingValue, subject: o.name }
            } else {
                chain_step(opts, cs.drop_first(), whole, arg, m.insert(o.name, Seq::empty()))
            }
        }
    }
}

/// The short form `ch`, standing alone, selects a value-bearing option that is not built in.
pub open spec fn standalone_valued(opts: Seq<OptView>, ch: char) -> bool {
    let i = char_index(opts, ch);
    &&& i < opts.len()
    &&& opts[i as int].expects_value
    &&& !is_help(opts[i as int])
    &&& !is_version(opts[i as int])
}

/// A token that is not a subcommand name, read at a level with options `opts`, positional
/// value `arg`, matches `m` and the name of the option awaiting a value, if any.
pub open spec fn token_step(
    opts: Seq<OptView>,
    arg: Seq<char>,
    m: Map<Seq<char>, Seq<char>>,
    pending: Option<Seq<char>>,
    t: Seq<char>,
) -> Step {
    if pending is Some {
        if starts_with_dash(t) {
            Step::Failed { kind: ErrorKind::ExpectingValue, subject: pending->0 }
        } else {
            Step::Next { arg, matches: m.insert(pending->0, t), pending: None }
        }
    } else if arg.len() == 0 && !starts_with_dash(t) {
        Step::Next { arg: t, matches: m, pending: None }
    } else {
        let name = opt_name_of(t);
        let value = opt_value_of(t);
        if starts_with_two_dashes(t) || (starts_with_dash(t) && value.len() > 0) {
            let i = if starts_with_two_dashes(t) {
                long_index(opts, name)
            } else {
                short_index(opts, name)
            };
            if i >= opts.len() {
                Step::Failed { kind: ErrorKind::InvalidOption, subject: name }
            } else {
                let o = opts[i as int];
                if is_help(o) {
                    Step::Help
                } else if is_version(o) {
                    Step::Version
                } else if o.expects_value && value.len() == 0 {
                    Step::Next { arg, matches: m, pending: Some(o.name) }
                } else if !o.expects_value && value.len() > 0 {
                    Step::Failed { kind: ErrorKind::UnexpectedValue, subject: o.name }
                } else {
                    Step::Next { arg, matches: m.insert(o.name, value), pending: None }
                }
            }
        } else if name.len() == 1 && standalone_valued(opts, name[0]) {
            Step::Next { arg, matches: m, pending: Some(opts[char_index(opts, name[0]) as int].name) }
        } else {
            chain_step(opts, name, name, arg, m)
        }
    }
}

/// How a parse ends.
pub enum Resolution {
    /// The tokens resolved at the level `cmd`, with this positional value and these matches.
    Done { cmd: Command, arg: Seq<char>, matches: Map<Seq<char>, Seq<char>> },
    /// Help was asked for at the level `cmd`.
    Help { cmd: Command },
    /// The version was asked for at the level `cmd`.
    Version { cmd: Command },
    Failed { kind: ErrorKind, subject: Seq<char> },
}

/// Parsing `toks` at level `c`, in the given state.
pub open spec fn run_level(
    c: Command,
    arg: Seq<char>,
    m: Map<Seq<char>, Seq<char>>,
    pending: Option<Seq<char>>,
    toks: Seq<Seq<char>>,
) -> Resolution
    decreases toks.len(),
{
    if toks.len() == 0 {
        if pending is Some {
            Resolution::Failed { kind: ErrorKind::ExpectingValue, subject: pending->0 }
        } else {
            Resolution::Done { cmd: c, arg, matches: m }
        }
    } else {
        let t = toks[0];
        let subs = c.spec_subcommands();
        let k = sub_index(subs, t);
        if k < subs.len() {
            let s = subs[k as int];
            run_level(s, s.spec_argument().spec_value(), s.spec_matches(), None, toks.drop_first())
        } else {
            match token_step(c.spec_options(), arg, m, pending, t) {
                Step::Next { arg, matches, pending } => run_level(
                    c,
                    arg,
                    matches,
                    pending,
                    toks.drop_first(),
                ),
                Step::Help => Resolution::Help { cmd: c },
                Step::Version => Resolution::Version { cmd: c },
                Step::Failed { kind, subject } => Resolution::Failed { kind, subject },
            }
        }
    }
}

/// The outcome of parsing `toks` against `c` from its declared state.
pub open spec fn parse_spec(c: Command, toks: Seq<Seq<char>>) -> Resolution {
    run_level(c, c.spec_argument().spec_value(), c.spec_matches(), None, toks)
}

pub open spec fn token_views(v: Seq<String>) -> Seq<Seq<char>> {
    v.map_values(|s: String| s@)
}

/// The result of a parse.
pub enum Parsed {
    Resolved(Command),
    Help(Command),
    Version(Command),
    Failed(ErrorType),
}

/// `r` is the executable form of `s`.
pub open spec fn resolves(r: Parsed, s: Resolution) -> bool {
    match (r, s) {
        (Parsed::Resolved(c), Resolution::Done { cmd, arg, matches }) => {
            &&& c.same_declaration(&cmd)
            &&& c.spec_argument().spec_value() == arg
            &&& c.spec_matches() == matches
        },
        (Parsed::Help(c), Resolution::Help { cmd }) => c.same_declaration(&cmd),
        (Parsed::Version(c), Resolution::Version { cmd }) => c.same_declaration(&cmd),
        (Parsed::Failed(e), Resolution::Failed { kind, subject }) => {
            e.kind() == kind && e.subject() == subject
        },
        _ => false,
    }
}


/// The builder kept everything that parsing reads.
pub open spec fn keeps_structure(r: Command, c: Command) -> bool {
    &&& r.spec_argument() == c.spec_argument()
    &&& r.spec_subcommands() == c.spec_subcommands()
    &&& r.spec_options() == c.spec_options()
    &&& r.spec_matches() == c.spec_matches()
    &&& r.has_action() == c.has_action()
}

pub open spec fn keeps_presentation(r: Command, c: Command) -> bool {
    &&& r.spec_name() == c.spec_name()
    &&& r.spec_version() == c.spec_version()
    &&& r.spec_description() == c.spec_description()
    &&& r.spec_example() == c.spec_example()
}

pub open spec fn pending_view(p: Option<String>) -> Option<Seq<char>> {
    match p {
        Some(s) => Some(s@),
        None => None,
    }
}

/// Why the reading of a token stopped the parse.
enum Stop {
    Help,
    Version,
    Failed(ErrorType),
}

spec fn stop_matches(r: Stop, s: Step) -> bool {
    match (r, s) {
        (Stop::Help, Step::Help) => true,
        (Stop::Version, Step::Version) => true,
        (Stop::Failed(e), Step::Failed { kind, subject }) => e.kind() == kind && e.subject()
            == subject,
        _ => false,
    }
}

/// The result of reading a token is the step of the model, and `c` is the level after it.
spec fn step_matches(r: Result<Option<String>, Stop>, s: Step, c: Command) -> bool {
    match r {
        Ok(p) => match s {
            Step::Next { arg, matches, pending } => {
                &&& c.spec_argument().spec_value() == arg
                &&& c.spec_matches() == matches
                &&& pending_view(p) == pending
            },
            _ => false,
        },
        Err(e) => stop_matches(e, s),
    }
}

impl Command {
    fn bare(name: &str) -> (r: Command)
        ensures
            fresh_level(r, name@),
            r.spec_subcommands().len() == 0,
    {
        proof {
            reveal_strlit("help");
            reveal_strlit("version");
            reveal_strlit("");
            assert(""@ =~= Seq::<char>::empty());
        }
        let named_help = text_eq(name, "help");
        let mut options: Vec<Opt> = Vec::new();
        options.push(Opt::new("help"));
        if !named_help {
            options.push(Opt::new("version"));
        }
        let r = Command {
            name: name.to_string(),
            version: String::new(),
            description: String::new(),
            example: String::new(),
            action: None,
            argument: Argument::new(""),
            subcommands: Vec::new(),
            options,
            matches: Matches::new(),
        };
        proof {
            if named_help {
                assert(r.spec_options() =~= seq![help_opt()]);
            } else {
                assert(r.spec_options() =~= seq![help_opt(), version_opt()]);
            }
        }
        r
    }

    /// A command with the built-in `help` option and, unless it is itself named `help`,
    /// the built-in `version` option and a `help` subcommand.
    pub fn new(name: &str) -> (r: Command)
        ensures
            fresh_command(r, name@),
    {
        let mut r = Command::bare(name);
        if !text_eq(name, "help") {
            r.subcommands.push(Command::bare("help"));
        }
        r
    }

    pub fn name(self, name: &str) -> (r: Command)
        ensures
            keeps_structure(r, self),
            r.spec_name() == name@,
            r.spec_version() == self.spec_version(),
            r.spec_description() == self.spec_description(),
            r.spec_example() == self.spec_example(),
    {
        let mut c = self;
        c.name = name.to_string();
        c
    }

    pub fn version(self, version: &str) -> (r: Command)
        ensures
            keeps_structure(r, self),
            r.spec_name() == self.spec_name(),
            r.spec_version() == version@,
            r.spec_description() == self.spec_description(),
            r.spec_example() == self.spec_example(),
    {
        let mut c = self;
        c.version = version.to_string();
        c
    }

    pub fn description(self, description: &str) -> (r: Command)
        ensures
            keeps_structure(r, self),
            r.spec_name() == self.spec_name(),
            r.spec_version() == self.spec_version(),
            r.spec_description() == description@,
            r.spec_example() == self.spec_example(),
    {
        let mut c = self;
        c.description = description.to_string();
        c
    }

    pub fn example(self, example: &str) -> (r: Command)
        ensures
            keeps_structure(r, self),
            r.spec_name() == self.spec_name(),
            r.spec_version() == self.spec_version(),
            r.spec_description() == self.spec_description(),
            r.spec_example() == example@,
    {
        let mut c = self;
        c.example = example.to_string();
        c
    }

    pub fn argument(self, argument: Argument) -> (r: Command)
        ensures
            keeps_presentation(r, self),
            r.spec_argument() == argument,
            r.spec_subcommands() == self.spec_subcommands(),
            r.spec_options() == self.spec_options(),
            r.spec_matches() == self.spec_matches(),
            r.has_action() == self.has_action(),
    {
        let mut c = self;
        c.argument = argument;
        c
    }

    pub fn action(self, action: Box<dyn Action>) -> (r: Command)
        ensures
            keeps_presentation(r, self),
            r.spec_argument() == self.spec_argument(),
            r.spec_subcommands() == self.spec_subcommands(),
            r.spec_options() == self.spec_options(),
            r.spec_matches() == self.spec_matches(),
            r.has_action(),
    {
        let mut c = self;
        c.action = Some(action);
        c
    }

    /// Adds `subcommand`, in place of the first one of the same name if there is one.
    pub fn subcommand(self, subcommand: Command) -> (r: Command)
        ensures
            keeps_presentation(r, self),
            r.spec_argument() == self.spec_argument(),
            r.spec_options() == self.spec_options(),
            r.spec_matches() == self.spec_matches(),
            r.has_action() == self.has_action(),
            ({
                let subs = self.spec_subcommands();
                let k = sub_index(subs, subcommand.spec_name());
                r.spec_subcommands() == if k < subs.len() {
                    subs.update(k as int, subcommand)
                } else {
                    subs.push(subcommand)
                }
            }),
    {
        let mut c = self;
        let k = c.find_sub(subcommand.name.as_str());
        let ghost subs = c.subcommands@;
        if k < c.subcommands.len() {
            c.subcommands.remove(k);
            c.subcommands.insert(k, subcommand);
            assert(c.subcommands@ =~= subs.update(k as int, subcommand));
        } else {
            c.subcommands.push(subcommand);
        }
        c
    }

    pub fn option(self, option: Opt) -> (r: Command)
        ensures
            keeps_presentation(r, self),
            r.spec_argument() == self.spec_argument(),
            r.spec_subcommands() == self.spec_subcommands(),
            r.spec_options() == self.spec_options().push(option@),
            r.spec_matches() == self.spec_matches(),
            r.has_action() == self.has_action(),
    {
        let mut c = self;
        c.options.push(option);
        proof {
            assert(c.spec_options() =~= self.spec_options().push(option@));
        }
        c
    }

    fn find_sub(&self, t: &str) -> (k: usize)
        ensures
            k == sub_index(self.spec_subcommands(), t@),
    {
        let mut k: usize = 0;
        while k < self.subcommands.len() && !text_eq(self.subcommands[k].name.as_str(), t)
            invariant
                k <= self.subcommands@.len(),
                forall|j: int| 0 <= j < k ==> self.subcommands@[j].spec_name() != t@,
            decreases self.subcommands@.len() - k,
        {
            k = k + 1;
        }
        proof {
            lemma_first_where(self.subcommands@, |c: Command| c.spec_name() == t@, k as int);
        }
        k
    }

    fn find_long(&self, name: &str) -> (k: usize)
        ensures
            k == long_index(self.spec_options(), name@),
    {
        let ghost opts = self.spec_options();
        let mut k: usize = 0;
        while k < self.options.len() && !(self.options[k].long.unicode_len() > 0 && text_eq(
            self.options[k].long.as_str(),
            name,
        ))
            invariant
                k <= self.options@.len(),
                opts == self.spec_options(),
                forall|j: int| 0 <= j < k ==> !long_matches(opts[j], name@),
            decreases self.options@.len() - k,
        {
            k = k + 1;
        }
        proof {
            lemma_first_where(opts, |o: OptView| long_matches(o, name@), k as int);
        }
        k
    }

    fn find_short(&self, name: &str) -> (k: usize)
        ensures
            k == short_index(self.spec_options(), name@),
    {
        let ghost opts = self.spec_options();
        let one = name.unicode_len() == 1;
        let mut k: usize = 0;
        while k < self.options.len() && !(one && name.get_char(0) == self.options[k].short)
            invariant
                k <= self.options@.len(),
                opts == self.spec_options(),
                one == (name@.len() == 1),
                forall|j: int| 0 <= j < k ==> !short_matches(opts[j], name@),
            decreases self.options@.len() - k,
        {
            proof {
                if one {
                    assert(name@ != seq![self.options@[k as int].short]) by {
                        assert(seq![self.options@[k as int].short][0] != name@[0]);
                    }
                }
            }
            k = k + 1;
        }
        proof {
            if k < opts.len() {
                assert(name@ =~= seq![self.options@[k as int].short]);
            }
            lemma_first_where(opts, |o: OptView| short_matches(o, name@), k as int);
        }
        k
    }

    fn find_char(&self, ch: char) -> (k: usize)
        ensures
            k == char_index(self.spec_options(), ch),
    {
        let ghost opts = self.spec_options();
        let mut k: usize = 0;
        while k < self.options.len() && self.options[k].short != ch
            invariant
                k <= self.options@.len(),
                opts == self.spec_options(),
                forall|j: int| 0 <= j < k ==> opts[j].short != ch,
            decreases self.options@.len() - k,
        {
            k = k + 1;
        }
        proof {
            lemma_first_where(opts, |o: OptView| o.short == ch, k as int);
        }
        k
    }
}


/// The ways a parse can halt before its tokens resolve.
pub enum Halt {
    Help(Command),
    Version(Command),
    Failed(ErrorType),
}

/// `h` is the executable form of the halting outcome `s`.
pub open spec fn halts_as(h: Halt, s: Resolution) -> bool {
    match h {
        Halt::Help(c) => resolves(Parsed::Help(c), s),
        Halt::Version(c) => resolves(Parsed::Version(c), s),
        Halt::Failed(e) => resolves(Parsed::Failed(e), s),
    }
}

impl Command {
    fn take_chain(&mut self, name: &String) -> (r: Result<(), Stop>)
        ensures
            final(self).same_declaration(old(self)),
            final(self).spec_argument() == old(self).spec_argument(),
            step_matches(
                match r {
                    Ok(_) => Ok(None),
                    Err(e) => Err(e),
                },
                chain_step(
                    old(self).spec_options(),
                    name@,
                    name@,
                    old(self).spec_argument().spec_value(),
                    old(self).spec_matches(),
                ),
                *final(self),
            ),
    {
        let ghost opts = self.spec_options();
        let ghost arg = self.spec_argument().spec_value();
        let ghost goal = chain_step(opts, name@, name@, arg, self.spec_matches());
        let s = name.as_str();
        let n = s.unicode_len();
        let mut i: usize = 0;
        assert(name@.subrange(0, n as int) =~= name@);
        while i < n
            invariant
                n == name@.len(),
                s@ == name@,
                i <= n,
                self.same_declaration(old(self)),
                self.spec_argument() == old(self).spec_argument(),
                opts == self.spec_options(),
                opts == old(self).spec_options(),
                arg == self.spec_argument().spec_value(),
                goal == chain_step(
                    opts,
                    name@,
                    name@,
                    arg,
                    old(self).spec_matches(),
                ),
                goal == chain_step(
                    opts,
                    name@.subrange(i as int, n as int),
                    name@,
                    arg,
                    self.spec_matches(),
                ),
            decreases n - i,
        {
            let ghost cs = name@.subrange(i as int, n as int);
            assert(cs[0] == name@[i as int]);
            assert(cs.drop_first() =~= name@.subrange(i + 1, n as int));
            let ch = s.get_char(i);
            let k = self.find_char(ch);
            proof {
                if k < self.options.len() {
                    assert(opts[k as int] == self.options@[k as int]@);
                }
            }
            if k >= self.options.len() {
                return Err(Stop::Failed(ErrorType::InvalidOption(name.clone())));
            }
            if text_eq(self.options[k].name.as_str(), "help") {
                return Err(Stop::Help);
            }
            if text_eq(self.options[k].name.as_str(), "version") {
                return Err(Stop::Version);
            }
            if self.options[k].expects_value {
                return Err(Stop::Failed(ErrorType::ShortExpectingValue(self.options[k].name.clone())));
            }
            let key = self.options[k].name.clone();
            self.matches.insert(key, String::new());
            i = i + 1;
        }
        assert(name@.subrange(n as int, n as int) =~= Seq::<char>::empty());
        Ok(())
    }

    fn take_token(&mut self, pending: Option<String>, t: &String) -> (r: Result<
        Option<String>,
        Stop,
    >)
        ensures
            final(self).same_declaration(old(self)),
            final(self).spec_argument().spec_name() == old(self).spec_argument().spec_name(),
            step_matches(
                r,
                token_step(
                    old(self).spec_options(),
                    old(self).spec_argument().spec_value(),
                    old(self).spec_matches(),
                    pending_view(pending),
                    t@,
                ),
                *final(self),
            ),
    {
        let dash = starts_with_dash_exec(t.as_str());
        if let Some(p) = pending {
            if dash {
                return Err(Stop::Failed(ErrorType::ExpectingValue(p)));
            }
            self.matches.insert(p, t.clone());
            return Ok(None);
        }
        if self.argument.value.unicode_len() == 0 && !dash {
            self.argument.value = t.clone();
            return Ok(None);
        }
        let (name, value) = parse_opt(t.clone());
        let long = starts_with_two_dashes_exec(t.as_str());
        if long || (dash && value.unicode_len() > 0) {
            let k = if long {
                self.find_long(name.as_str())
            } else {
                self.find_short(name.as_str())
            };
            if k >= self.options.len() {
                return Err(Stop::Failed(ErrorType::InvalidOption(name)));
            }
            if text_eq(self.options[k].name.as_str(), "help") {
                return Err(Stop::Help);
            }
            if text_eq(self.options[k].name.as_str(), "version") {
                return Err(Stop::Version);
            }
            let expects = self.options[k].expects_value;
            let has_value = value.unicode_len() > 0;
            if expects && !has_value {
                return Ok(Some(self.options[k].name.clone()));
            }
            if !expects && has_value {
                return Err(Stop::Failed(ErrorType::UnexpectedValue(self.options[k].name.clone())));
            }
            let key = self.options[k].name.clone();
            self.matches.insert(key, value);
            Ok(None)
        } else {
            if name.unicode_len() == 1 {
                let k = self.find_char(name.get_char(0));
                proof {
                    if k < self.options.len() {
                        assert(self.spec_options()[k as int] == self.options@[k as int]@);
                    }
                }
                if k < self.options.len() && self.options[k].expects_value && !text_eq(
                    self.options[k].name.as_str(),
                    "help",
                ) && !text_eq(self.options[k].name.as_str(), "version") {
                    return Ok(Some(self.options[k].name.clone()));
                }
            }
            match self.take_chain(&name) {
                Ok(()) => Ok(None),
                Err(e) => Err(e),
            }
        }
    }

    #[verifier::rlimit(30)]
    fn parse_from(self, tokens: &Vec<String>, start: usize) -> (r: Parsed)
        requires
            start <= tokens@.len(),
        ensures
            resolves(
                r,
                run_level(
                    self,
                    self.spec_argument().spec_value(),
                    self.spec_matches(),
                    None,
                    token_views(tokens@).subrange(start as int, tokens@.len() as int),
                ),
            ),
        decreases tokens@.len() - start,
    {
        let ghost c0 = self;
        let ghost toks = token_views(tokens@);
        let ghost goal = run_level(
            c0,
            c0.spec_argument().spec_value(),
            c0.spec_matches(),
            None,
            toks.subrange(start as int, tokens@.len() as int),
        );
        let mut c = self;
        let mut pending: Option<String> = None;
        let mut i: usize = start;
        while i < tokens.len()
            invariant
                start <= i <= tokens@.len(),
                toks == token_views(tokens@),
                c0 == self,
                c.same_declaration(&c0),
                goal == run_level(
                    c0,
                    c0.spec_argument().spec_value(),
                    c0.spec_matches(),
                    None,
                    toks.subrange(start as int, tokens@.len() as int),
                ),
                goal == run_level(
                    c0,
                    c.spec_argument().spec_value(),
                    c.spec_matches(),
                    pending_view(pending),
                    toks.subrange(i as int, tokens@.len() as int),
                ),
            decreases tokens@.len() - i,
        {
            let ghost rest = toks.subrange(i as int, tokens@.len() as int);
            assert(rest[0] == tokens@[i as int]@);
            assert(rest.drop_first() =~= toks.subrange(i + 1, tokens@.len() as int));
            let t = &tokens[i];
            let k = c.find_sub(t.as_str());
            if k < c.subcommands.len() {
                let ghost s = c.subcommands@[k as int];
                let sub = c.subcommands.remove(k);
                assert(goal == run_level(
                    s,
                    s.spec_argument().spec_value(),
                    s.spec_matches(),
                    None,
                    rest.drop_first(),
                ));
                let r = sub.parse_from(tokens, i + 1);
                return r;
            }
            match c.take_token(pending, t) {
                Ok(p) => {
                    pending = p;
                },
                Err(Stop::Help) => {
                    return Parsed::Help(c);
                },
                Err(Stop::Version) => {
                    return Parsed::Version(c);
                },
                Err(Stop::Failed(e)) => {
                    return Parsed::Failed(e);
                },
            }
            i = i + 1;
        }
        match pending {
            Some(n) => Parsed::Failed(ErrorType::ExpectingValue(n)),
            None => Parsed::Resolved(c),
        }
    }

    /// Resolves `tokens` (the program's arguments, without the program's name) against
    /// this command, descending into a subcommand whose name a token spells.
    pub fn parse(self, tokens: &Vec<String>) -> (r: Parsed)
        ensures
            resolves(r, parse_spec(self, token_views(tokens@))),
    {
        proof {
            assert(token_views(tokens@).subrange(0, tokens@.len() as int) =~= token_views(
                tokens@,
            ));
        }
        self.parse_from(tokens, 0)
    }

    /// Parses `tokens` and hands the resolved positional value and matches to the action
    /// of the level they resolved at; a parse that halts is returned instead.
    pub fn run(self, tokens: &Vec<String>) -> (r: Result<(), Halt>)
        ensures
            r is Ok <==> parse_spec(self, token_views(tokens@)) is Done,
            r is Err ==> halts_as(r->Err_0, parse_spec(self, token_views(tokens@))),
    {
        match self.parse(tokens) {
            Parsed::Resolved(c) => {
                let Command { action, argument, matches, .. } = c;
                if let Some(a) = action {
                    a.call(argument, matches);
                }
                Ok(())
            },
            Parsed::Help(c) => Err(Halt::Help(c)),
            Parsed::Version(c) => Err(Halt::Version(c)),
            Parsed::Failed(e) => Err(Halt::Failed(e)),
        }
    }
}

impl Argument {
    pub fn get_name(&self) -> (r: &String)
        ensures
            r@ == self.spec_name(),
    {
        &self.name
    }
}

impl Command {
    pub fn get_name(&self) -> (r: &String)
        ensures
            r@ == self.spec_name(),
    {
        &self.name
    }

    pub fn get_version(&self) -> (r: &String)
        ensures
            r@ == self.spec_version(),
    {
        &self.version
    }

    pub fn get_description(&self) -> (r: &String)
        ensures
            r@ == self.spec_description(),
    {
        &self.description
    }

    pub fn get_example(&self) -> (r: &String)
        ensures
            r@ == self.spec_example(),
    {
        &self.example
    }

    pub fn get_argument(&self) -> (r: &Argument)
        ensures
            *r == self.spec_argument(),
    {
        &self.argument
    }

    pub fn get_matches(&self) -> (r: &Matches)
        ensures
            r@ == self.spec_matches(),
    {
        &self.matches
    }

    pub fn option_count(&self) -> (r: usize)
        ensures
            r == self.spec_options().len(),
    {
        self.options.len()
    }

    /// The name and description of each subcommand, in the order they are held.
    pub fn subcommand_rows(&self) -> (r: Vec<(String, String)>)
        ensures
            r@.len() == self.spec_subcommands().len(),
            forall|i: int|
                0 <= i < r@.len() ==> r@[i].0@ == self.spec_subcommands()[i].spec_name()
                    && r@[i].1@ == self.spec_subcommands()[i].spec_description(),
    {
        let mut r: Vec<(String, String)> = Vec::new();
        let mut i: usize = 0;
        while i < self.subcommands.len()
            invariant
                i <= self.subcommands@.len(),
                r@.len() == i,
                forall|j: int|
                    0 <= j < i ==> r@[j].0@ == self.subcommands@[j].spec_name() && r@[j].1@
                        == self.subcommands@[j].spec_description(),
            decreases self.subcommands@.len() - i,
        {
            let s = &self.subcommands[i];
            r.push((s.name.clone(), s.description.clone()));
            i = i + 1;
        }
        r
    }
}

} // verus!
