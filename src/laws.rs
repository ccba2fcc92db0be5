use vstd::prelude::*;

use crate::helpers::{
    opt_name_of, opt_value_of, lemma_long_flag_token, lemma_long_value_token, lemma_short_token, plain_name,
    starts_with_dash,
};
use crate::{
    help_opt, chain_step, char_index, is_help, is_version, long_index, parse_spec, run_level, sub_index,
    token_step, Command, ErrorKind, OptView, Resolution, Step,
};

verus! {

/// No subcommand of `c` is named `t`.
pub open spec fn not_a_subcommand(c: Command, t: Seq<char>) -> bool {
    sub_index(c.spec_subcommands(), t) >= c.spec_subcommands().len()
}

/// The long form `x` selects `o` at `c`, and `o` is not built in.
pub open spec fn selects_long(c: Command, x: Seq<char>, o: OptView) -> bool {
    let opts = c.spec_options();
    &&& long_index(opts, x) < opts.len()
    &&& opts[long_index(opts, x) as int] == o
    &&& !is_help(o)
    &&& !is_version(o)
}

/// The short form `ch` selects `o` at `c`, and `o` is not built in.
pub open spec fn selects_char(c: Command, ch: char, o: OptView) -> bool {
    let opts = c.spec_options();
    &&& char_index(opts, ch) < opts.len()
    &&& opts[char_index(opts, ch) as int] == o
    &&& !is_help(o)
    &&& !is_version(o)
}

pub open spec fn long_token(x: Seq<char>) -> Seq<char> {
    seq!['-', '-'] + x
}

pub open spec fn long_value_token(x: Seq<char>, v: Seq<char>) -> Seq<char> {
    seq!['-', '-'] + x + seq!['='] + v
}

pub open spec fn short_token(ch: char) -> Seq<char> {
    seq!['-', ch]
}

proof fn lemma_first_token(
    c: Command,
    arg: Seq<char>,
    m: Map<Seq<char>, Seq<char>>,
    p: Option<Seq<char>>,
    t: Seq<char>,
    rest: Seq<Seq<char>>,
)
    requires
        not_a_subcommand(c, t),
    ensures
        run_level(c, arg, m, p, seq![t] + rest) == match token_step(
            c.spec_options(),
            arg,
            m,
            p,
            t,
        ) {
            Step::Next { arg, matches, pending } => run_level(c, arg, matches, pending, rest),
            Step::Help => Resolution::Help { cmd: c },
            Step::Version => Resolution::Version { cmd: c },
            Step::Failed { kind, subject } => Resolution::Failed { kind, subject },
        },
{
    let toks = seq![t] + rest;
    assert(toks[0] == t);
    assert(toks.drop_first() =~= rest);
}

/// A flag given by its long form, `--x`, is recorded with an empty value.
pub proof fn lemma_long_flag(
    c: Command,
    arg: Seq<char>,
    m: Map<Seq<char>, Seq<char>>,
    o: OptView,
    rest: Seq<Seq<char>>,
)
    requires
        plain_name(o.long),
        selects_long(c, o.long, o),
        !o.expects_value,
        not_a_subcommand(c, long_token(o.long)),
    ensures
        run_level(c, arg, m, None, seq![long_token(o.long)] + rest) == run_level(
            c,
            arg,
            m.insert(o.name, Seq::empty()),
            None,
            rest,
        ),
{
    lemma_long_flag_token(o.long);
    lemma_first_token(c, arg, m, None, long_token(o.long), rest);
}

/// A flag given by its short form alone, `-n`, is recorded with an empty value.
pub proof fn lemma_short_flag(
    c: Command,
    arg: Seq<char>,
    m: Map<Seq<char>, Seq<char>>,
    o: OptView,
    rest: Seq<Seq<char>>,
)
    requires
        plain_name(seq![o.short]),
        selects_char(c, o.short, o),
        !o.expects_value,
        not_a_subcommand(c, short_token(o.short)),
    ensures
        run_level(c, arg, m, None, seq![short_token(o.short)] + rest) == run_level(
            c,
            arg,
            m.insert(o.name, Seq::empty()),
            None,
            rest,
        ),
{
    let t = short_token(o.short);
    assert(t =~= seq!['-'] + seq![o.short]);
    lemma_short_token(seq![o.short]);
    let cs = seq![o.short];
    assert(cs[0] == o.short);
    assert(cs.drop_first() =~= Seq::<char>::empty());
    let opts = c.spec_options();
    assert(chain_step(opts, Seq::empty(), cs, arg, m.insert(o.name, Seq::empty())) == (Step::Next {
        arg,
        matches: m.insert(o.name, Seq::empty()),
        pending: None,
    }));
    assert(chain_step(opts, cs, cs, arg, m) == chain_step(
        opts,
        Seq::empty(),
        cs,
        arg,
        m.insert(o.name, Seq::empty()),
    ));
    lemma_first_token(c, arg, m, None, t, rest);
}

/// A value given inline, `--x=v`, is recorded under the option's name.
pub proof fn lemma_long_value(
    c: Command,
    arg: Seq<char>,
    m: Map<Seq<char>, Seq<char>>,
    o: OptView,
    v: Seq<char>,
    rest: Seq<Seq<char>>,
)
    requires
        plain_name(o.long),
        selects_long(c, o.long, o),
        o.expects_value,
        v.len() > 0,
        not_a_subcommand(c, long_value_token(o.long, v)),
    ensures
        run_level(c, arg, m, None, seq![long_value_token(o.long, v)] + rest) == run_level(
            c,
            arg,
            m.insert(o.name, v),
            None,
            rest,
        ),
{
    lemma_long_value_token(o.long, v);
    lemma_first_token(c, arg, m, None, long_value_token(o.long, v), rest);
}

/// A value given as the token after `-n` is recorded under the option's name.
pub proof fn lemma_short_then_value(
    c: Command,
    arg: Seq<char>,
    m: Map<Seq<char>, Seq<char>>,
    o: OptView,
    v: Seq<char>,
    rest: Seq<Seq<char>>,
)
    requires
        plain_name(seq![o.short]),
        selects_char(c, o.short, o),
        o.expects_value,
        !starts_with_dash(v),
        not_a_subcommand(c, short_token(o.short)),
        not_a_subcommand(c, v),
    ensures
        run_level(c, arg, m, None, seq![short_token(o.short), v] + rest) == run_level(
            c,
            arg,
            m.insert(o.name, v),
            None,
            rest,
        ),
{
    let t = short_token(o.short);
    assert(t =~= seq!['-'] + seq![o.short]);
    lemma_short_token(seq![o.short]);
    assert(seq![o.short][0] == o.short);
    assert(seq![t, v] + rest =~= seq![t] + (seq![v] + rest));
    lemma_first_token(c, arg, m, None, t, seq![v] + rest);
    lemma_first_token(c, arg, m, Some(o.name), v, rest);
}

/// A value-bearing `--x` with nothing after it fails.
pub proof fn lemma_long_missing_value(
    c: Command,
    arg: Seq<char>,
    m: Map<Seq<char>, Seq<char>>,
    o: OptView,
)
    requires
        plain_name(o.long),
        selects_long(c, o.long, o),
        o.expects_value,
        not_a_subcommand(c, long_token(o.long)),
    ensures
        run_level(c, arg, m, None, seq![long_token(o.long)]) == (Resolution::Failed {
            kind: ErrorKind::ExpectingValue,
            subject: o.name,
        }),
{
    lemma_long_flag_token(o.long);
    assert(seq![long_token(o.long)] =~= seq![long_token(o.long)] + Seq::<Seq<char>>::empty());
    lemma_first_token(c, arg, m, None, long_token(o.long), Seq::empty());
}

/// A value-bearing `--x` followed by an option-like token fails.
pub proof fn lemma_long_value_is_option(
    c: Command,
    arg: Seq<char>,
    m: Map<Seq<char>, Seq<char>>,
    o: OptView,
    t: Seq<char>,
    rest: Seq<Seq<char>>,
)
    requires
        plain_name(o.long),
        selects_long(c, o.long, o),
        o.expects_value,
        starts_with_dash(t),
        not_a_subcommand(c, long_token(o.long)),
        not_a_subcommand(c, t),
    ensures
        run_level(c, arg, m, None, seq![long_token(o.long), t] + rest) == (Resolution::Failed {
            kind: ErrorKind::ExpectingValue,
            subject: o.name,
        }),
{
    lemma_long_flag_token(o.long);
    assert(seq![long_token(o.long), t] + rest =~= seq![long_token(o.long)] + (seq![t] + rest));
    lemma_first_token(c, arg, m, None, long_token(o.long), seq![t] + rest);
    lemma_first_token(c, arg, m, Some(o.name), t, rest);
}

/// An inline value for an option that takes none fails.
pub proof fn lemma_unexpected_value(
    c: Command,
    arg: Seq<char>,
    m: Map<Seq<char>, Seq<char>>,
    o: OptView,
    v: Seq<char>,
    rest: Seq<Seq<char>>,
)
    requires
        plain_name(o.long),
        selects_long(c, o.long, o),
        !o.expects_value,
        v.len() > 0,
        not_a_subcommand(c, long_value_token(o.long, v)),
    ensures
        run_level(c, arg, m, None, seq![long_value_token(o.long, v)] + rest) == (
        Resolution::Failed { kind: ErrorKind::UnexpectedValue, subject: o.name }),
{
    lemma_long_value_token(o.long, v);
    lemma_first_token(c, arg, m, None, long_value_token(o.long, v), rest);
}

/// A value-bearing option at the head of a chain of short flags fails.
pub proof fn lemma_valued_in_chain(
    c: Command,
    arg: Seq<char>,
    m: Map<Seq<char>, Seq<char>>,
    o: OptView,
    cs: Seq<char>,
    rest: Seq<Seq<char>>,
)
    requires
        cs.len() > 0,
        plain_name(seq![o.short] + cs),
        selects_char(c, o.short, o),
        o.expects_value,
        not_a_subcommand(c, seq!['-', o.short] + cs),
    ensures
        run_level(c, arg, m, None, seq![seq!['-', o.short] + cs] + rest) == (
        Resolution::Failed { kind: ErrorKind::ShortExpectingValue, subject: o.name }),
{
    let name = seq![o.short] + cs;
    let t = seq!['-', o.short] + cs;
    assert(t =~= seq!['-'] + name);
    lemma_short_token(name);
    assert(name[0] == o.short);
    lemma_first_token(c, arg, m, None, t, rest);
}

/// The built-in `help` option comes first among the options of `c`, as `Command::new`
/// and the builders leave it.
pub open spec fn help_first(c: Command) -> bool {
    c.spec_options().len() > 0 && c.spec_options()[0] == help_opt()
}

/// `--help` asks for help at the level it is read at, whatever came before it there,
/// unless an option before it is still waiting for its value.
pub proof fn lemma_long_help(
    c: Command,
    arg: Seq<char>,
    m: Map<Seq<char>, Seq<char>>,
    rest: Seq<Seq<char>>,
)
    requires
        help_first(c),
        not_a_subcommand(c, long_token("help"@)),
    ensures
        run_level(c, arg, m, None, seq![long_token("help"@)] + rest) == (Resolution::Help {
            cmd: c,
        }),
{
    reveal_strlit("help");
    assert(plain_name("help"@));
    lemma_long_flag_token("help"@);
    assert(long_index(c.spec_options(), "help"@) == 0);
    lemma_first_token(c, arg, m, None, long_token("help"@), rest);
}

/// `-h` asks for help at the level it is read at, whatever came before it there, unless
/// an option before it is still waiting for its value.
pub proof fn lemma_short_help(
    c: Command,
    arg: Seq<char>,
    m: Map<Seq<char>, Seq<char>>,
    rest: Seq<Seq<char>>,
)
    requires
        help_first(c),
        not_a_subcommand(c, short_token('h')),
    ensures
        run_level(c, arg, m, None, seq![short_token('h')] + rest) == (Resolution::Help {
            cmd: c,
        }),
{
    reveal_strlit("help");
    let t = short_token('h');
    assert(t =~= seq!['-'] + seq!['h']);
    lemma_short_token(seq!['h']);
    assert(seq!['h'][0] == 'h');
    assert(char_index(c.spec_options(), 'h') == 0);
    lemma_first_token(c, arg, m, None, t, rest);
}

/// `--x` where no option has the long form `x` fails and names `x`.
pub proof fn lemma_unknown_long(
    c: Command,
    arg: Seq<char>,
    m: Map<Seq<char>, Seq<char>>,
    x: Seq<char>,
    rest: Seq<Seq<char>>,
)
    requires
        plain_name(x),
        long_index(c.spec_options(), x) >= c.spec_options().len(),
        not_a_subcommand(c, long_token(x)),
    ensures
        run_level(c, arg, m, None, seq![long_token(x)] + rest) == (Resolution::Failed {
            kind: ErrorKind::InvalidOption,
            subject: x,
        }),
{
    lemma_long_flag_token(x);
    lemma_first_token(c, arg, m, None, long_token(x), rest);
}

/// The first token that is neither an option nor a subcommand fills the empty positional
/// slot.
pub proof fn lemma_first_positional(
    c: Command,
    m: Map<Seq<char>, Seq<char>>,
    t: Seq<char>,
    rest: Seq<Seq<char>>,
)
    requires
        !starts_with_dash(t),
        not_a_subcommand(c, t),
    ensures
        run_level(c, Seq::empty(), m, None, seq![t] + rest) == run_level(c, t, m, None, rest),
{
    lemma_first_token(c, Seq::empty(), m, None, t, rest);
}

proof fn lemma_chain_keeps_positional(
    opts: Seq<OptView>,
    cs: Seq<char>,
    whole: Seq<char>,
    arg: Seq<char>,
    m: Map<Seq<char>, Seq<char>>,
)
    ensures
        chain_step(opts, cs, whole, arg, m) is Next ==> chain_step(
            opts,
            cs,
            whole,
            arg,
            m,
        )->Next_arg == arg,
    decreases cs.len(),
{
    if cs.len() > 0 {
        let i = char_index(opts, cs[0]);
        if i < opts.len() {
            let o = opts[i as int];
            lemma_chain_keeps_positional(opts, cs.drop_first(), whole, arg, m.insert(o.name, Seq::empty()));
        }
    }
}

/// Once the positional slot holds a value, no token changes it.
pub proof fn lemma_positional_kept(
    opts: Seq<OptView>,
    arg: Seq<char>,
    m: Map<Seq<char>, Seq<char>>,
    p: Option<Seq<char>>,
    t: Seq<char>,
)
    requires
        arg.len() > 0,
    ensures
        token_step(opts, arg, m, p, t) is Next ==> token_step(opts, arg, m, p, t)->Next_arg == arg,
{
    let name = crate::helpers::opt_name_of(t);
    lemma_chain_keeps_positional(opts, name, name, arg, m);
}

/// A token that names a subcommand hands the rest of the tokens to that subcommand,
/// which parses them from its own declared state.
pub proof fn lemma_dispatch(
    c: Command,
    arg: Seq<char>,
    m: Map<Seq<char>, Seq<char>>,
    p: Option<Seq<char>>,
    s: Command,
    rest: Seq<Seq<char>>,
)
    requires
        sub_index(c.spec_subcommands(), s.spec_name()) < c.spec_subcommands().len(),
        c.spec_subcommands()[sub_index(c.spec_subcommands(), s.spec_name()) as int] == s,
    ensures
        run_level(c, arg, m, p, seq![s.spec_name()] + rest) == parse_spec(s, rest),
{
    let toks = seq![s.spec_name()] + rest;
    assert(toks[0] == s.spec_name());
    assert(toks.drop_first() =~= rest);
}

/// Two outcomes that are the same up to the values of presentation-only fields.
pub open spec fn outcomes_agree(a: Resolution, b: Resolution) -> bool {
    match (a, b) {
        (
            Resolution::Done { cmd: c1, arg: a1, matches: m1 },
            Resolution::Done { cmd: c2, arg: a2, matches: m2 },
        ) => c1.same_declaration(&c2) && a1 == a2 && m1 == m2,
        (Resolution::Help { cmd: c1 }, Resolution::Help { cmd: c2 }) => c1.same_declaration(&c2),
        (Resolution::Version { cmd: c1 }, Resolution::Version { cmd: c2 }) => c1.same_declaration(
            &c2,
        ),
        (
            Resolution::Failed { kind: k1, subject: s1 },
            Resolution::Failed { kind: k2, subject: s2 },
        ) => k1 == k2 && s1 == s2,
        _ => false,
    }
}

proof fn lemma_levels_agree(
    c1: Command,
    c2: Command,
    arg: Seq<char>,
    m: Map<Seq<char>, Seq<char>>,
    p: Option<Seq<char>>,
    toks: Seq<Seq<char>>,
)
    requires
        c1.same_declaration(&c2),
    ensures
        outcomes_agree(run_level(c1, arg, m, p, toks), run_level(c2, arg, m, p, toks)),
    decreases toks.len(),
{
    if toks.len() > 0 {
        let subs = c1.spec_subcommands();
        let k = sub_index(subs, toks[0]);
        if k < subs.len() {
            let s = subs[k as int];
            lemma_levels_agree(
                s,
                s,
                s.spec_argument().spec_value(),
                s.spec_matches(),
                None,
                toks.drop_first(),
            );
        } else {
            match token_step(c1.spec_options(), arg, m, p, toks[0]) {
                Step::Next { arg, matches, pending } => {
                    lemma_levels_agree(c1, c2, arg, matches, pending, toks.drop_first());
                },
                _ => {},
            }
        }
    }
}

/// Two commands declared alike, from the same positional value and matches, parse the
/// same tokens to the same positional value and matches, or fail alike.
pub proof fn lemma_parse_deterministic(c1: Command, c2: Command, toks: Seq<Seq<char>>)
    requires
        c1.same_declaration(&c2),
        c1.spec_argument().spec_value() == c2.spec_argument().spec_value(),
        c1.spec_matches() == c2.spec_matches(),
    ensures
        outcomes_agree(parse_spec(c1, toks), parse_spec(c2, toks)),
{
    lemma_levels_agree(c1, c2, c1.spec_argument().spec_value(), c1.spec_matches(), None, toks);
}

/// Some option of `opts` is named `k`.
pub open spec fn declared_name(opts: Seq<OptView>, k: Seq<char>) -> bool {
    exists|i: int| 0 <= i < opts.len() && opts[i].name == k
}

/// Every key of `m` was in `base` or names an option of `opts`.
pub open spec fn keys_declared(
    m: Map<Seq<char>, Seq<char>>,
    base: Map<Seq<char>, Seq<char>>,
    opts: Seq<OptView>,
) -> bool {
    forall|k: Seq<char>| #[trigger] m.contains_key(k) ==> base.contains_key(k) || declared_name(opts, k)
}

proof fn lemma_chain_keys(
    opts: Seq<OptView>,
    cs: Seq<char>,
    whole: Seq<char>,
    arg: Seq<char>,
    m: Map<Seq<char>, Seq<char>>,
    base: Map<Seq<char>, Seq<char>>,
)
    requires
        keys_declared(m, base, opts),
    ensures
        chain_step(opts, cs, whole, arg, m) is Next ==> keys_declared(
            chain_step(opts, cs, whole, arg, m)->Next_matches,
            base,
            opts,
        ),
        chain_step(opts, cs, whole, arg, m) is Next ==> chain_step(
            opts,
            cs,
            whole,
            arg,
            m,
        )->Next_pending is None,
    decreases cs.len(),
{
    if cs.len() > 0 {
        let i = char_index(opts, cs[0]);
        if i < opts.len() {
            let o = opts[i as int];
            assert(declared_name(opts, o.name));
            lemma_chain_keys(opts, cs.drop_first(), whole, arg, m.insert(o.name, Seq::empty()), base);
        }
    }
}

proof fn lemma_step_keys(
    opts: Seq<OptView>,
    arg: Seq<char>,
    m: Map<Seq<char>, Seq<char>>,
    p: Option<Seq<char>>,
    t: Seq<char>,
    base: Map<Seq<char>, Seq<char>>,
)
    requires
        keys_declared(m, base, opts),
        p is Some ==> declared_name(opts, p->0),
    ensures
        token_step(opts, arg, m, p, t) is Next ==> {
            let r = token_step(opts, arg, m, p, t);
            &&& keys_declared(r->Next_matches, base, opts)
            &&& r->Next_pending is Some ==> declared_name(opts, r->Next_pending->0)
        },
{
    let name = opt_name_of(t);
    lemma_chain_keys(opts, name, name, arg, m, base);
    if p is Some {
        let n = p->0;
        assert forall|k: Seq<char>| #[trigger] m.insert(n, t).contains_key(k) implies base.contains_key(k)
            || declared_name(opts, k) by {
            if k != n {
                assert(m.contains_key(k));
            }
        }
    } else {
        let i = if crate::helpers::starts_with_two_dashes(t) {
            long_index(opts, name)
        } else {
            crate::short_index(opts, name)
        };
        if i < opts.len() {
            let n = opts[i as int].name;
            assert(declared_name(opts, n));
            let v = opt_value_of(t);
            assert forall|k: Seq<char>| #[trigger] m.insert(n, v).contains_key(k) implies base.contains_key(k)
                || declared_name(opts, k) by {
                if k != n {
                    assert(m.contains_key(k));
                }
            }
        }
        if name.len() == 1 {
            let j = char_index(opts, name[0]);
            if j < opts.len() {
                assert(declared_name(opts, opts[j as int].name));
            }
        }
    }
}

proof fn lemma_run_keys(
    c: Command,
    arg: Seq<char>,
    m: Map<Seq<char>, Seq<char>>,
    p: Option<Seq<char>>,
    toks: Seq<Seq<char>>,
)
    requires
        keys_declared(m, c.spec_matches(), c.spec_options()),
        p is Some ==> declared_name(c.spec_options(), p->0),
    ensures
        run_level(c, arg, m, p, toks) is Done ==> {
            let r = run_level(c, arg, m, p, toks);
            keys_declared(r->Done_matches, r->Done_cmd.spec_matches(), r->Done_cmd.spec_options())
        },
    decreases toks.len(),
{
    if toks.len() > 0 {
        let subs = c.spec_subcommands();
        let k = sub_index(subs, toks[0]);
        if k < subs.len() {
            let s = subs[k as int];
            lemma_run_keys(s, s.spec_argument().spec_value(), s.spec_matches(), None, toks.drop_first());
        } else {
            lemma_step_keys(c.spec_options(), arg, m, p, toks[0], c.spec_matches());
            match token_step(c.spec_options(), arg, m, p, toks[0]) {
                Step::Next { arg, matches, pending } => {
                    lemma_run_keys(c, arg, matches, pending, toks.drop_first());
                },
                _ => {},
            }
        }
    }
}

/// An option that is never supplied leaves no key: every key of the resulting matches
/// was there before the parse or names an option declared at the level that resolved.
pub proof fn lemma_keys_declared(c: Command, toks: Seq<Seq<char>>)
    ensures
        parse_spec(c, toks) is Done ==> {
            let r = parse_spec(c, toks);
            keys_declared(r->Done_matches, r->Done_cmd.spec_matches(), r->Done_cmd.spec_options())
        },
{
    lemma_run_keys(c, c.spec_argument().spec_value(), c.spec_matches(), None, toks);
}

} // verus!
