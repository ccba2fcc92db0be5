use vstd::prelude::*;
use vstd::string::*;

verus! {

/// Position of the first element of `s` that satisfies `p`, or `s.len()` when none does.
pub open spec fn first_where<A>(s: Seq<A>, p: spec_fn(A) -> bool) -> nat
    decreases s.len(),
{
    if s.len() == 0 {
        0
    } else if p(s[0]) {
        0
    } else {
        1 + first_where(s.drop_first(), p)
    }
}

/// A scan that stopped at `k` found the first element satisfying `p`.
pub proof fn lemma_first_where<A>(s: Seq<A>, p: spec_fn(A) -> bool, k: int)
    requires
        0 <= k <= s.len(),
        forall|j: int| 0 <= j < k ==> !p(s[j]),
        k == s.len() || p(s[k]),
    ensures
        first_where(s, p) == k,
    decreases k,
{
    if k > 0 {
        let t = s.drop_first();
        assert forall|j: int| 0 <= j < k - 1 implies !p(t[j]) by {
            assert(t[j] == s[j + 1]);
        }
        if k < s.len() {
            assert(t[k - 1] == s[k]);
        }
        lemma_first_where(t, p, k - 1);
    }
}


pub open spec fn is_dash(c: char) -> bool {
    c == '-'
}

pub open spec fn is_eq_sign(c: char) -> bool {
    c == '='
}

/// The token with its leading dashes removed.
pub open spec fn undashed(t: Seq<char>) -> Seq<char> {
    t.subrange(first_where(t, |c: char| !is_dash(c)) as int, t.len() as int)
}

/// The option name of a token: the undashed token up to its first `=`.
pub open spec fn opt_name_of(t: Seq<char>) -> Seq<char> {
    let r = undashed(t);
    r.take(first_where(r, |c: char| is_eq_sign(c)) as int)
}

/// The inline value of a token: what follows its first `=`, empty when there is none.
pub open spec fn opt_value_of(t: Seq<char>) -> Seq<char> {
    let r = undashed(t);
    let k = first_where(r, |c: char| is_eq_sign(c));
    if k < r.len() {
        r.subrange(k as int + 1, r.len() as int)
    } else {
        Seq::empty()
    }
}

pub open spec fn starts_with_dash(t: Seq<char>) -> bool {
    t.len() > 0 && t[0] == '-'
}

pub open spec fn starts_with_two_dashes(t: Seq<char>) -> bool {
    t.len() > 1 && t[0] == '-' && t[1] == '-'
}

pub fn starts_with_dash_exec(t: &str) -> (r: bool)
    ensures
        r == starts_with_dash(t@),
{
    t.unicode_len() > 0 && t.get_char(0) == '-'
}

pub fn starts_with_two_dashes_exec(t: &str) -> (r: bool)
    ensures
        r == starts_with_two_dashes(t@),
{
    t.unicode_len() > 1 && t.get_char(0) == '-' && t.get_char(1) == '-'
}

/// Splits an option token into its name and its inline value: leading dashes are
/// stripped and the rest is cut at the first `=`.
pub fn parse_opt(opt: String) -> (r: (String, String))
    ensures
        r.0@ == opt_name_of(opt@),
        r.1@ == opt_value_of(opt@),
{
    let s = opt.as_str();
    let n = s.unicode_len();
    let mut i: usize = 0;
    while i < n && s.get_char(i) == '-'
        invariant
            i <= n,
            n == s@.len(),
            forall|j: int| 0 <= j < i ==> s@[j] == '-',
        decreases n - i,
    {
        i = i + 1;
    }
    proof {
        lemma_first_where(s@, |c: char| !is_dash(c), i as int);
    }
    let rest = s.substring_char(i, n);
    let m = n - i;
    let mut k: usize = 0;
    while k < m && rest.get_char(k) != '='
        invariant
            k <= m,
            m == rest@.len(),
            forall|j: int| 0 <= j < k ==> rest@[j] != '=',
        decreases m - k,
    {
        k = k + 1;
    }
    proof {
        lemma_first_where(rest@, |c: char| is_eq_sign(c), k as int);
    }
    let name = rest.substring_char(0, k).to_string();
    let value = if k < m {
        rest.substring_char(k + 1, m).to_string()
    } else {
        String::new()
    };
    (name, value)
}


/// A parse failure, with the option name that caused it.
#[derive(Debug)]
pub enum ErrorType {
    /// A token names no declared option.
    InvalidOption(String),
    /// A value-bearing option was followed by an option-like token, or by nothing.
    ExpectingValue(String),
    /// An option that takes no value received an inline `=value`.
    UnexpectedValue(String),
    /// A value-bearing option stood inside a chain of short flags.
    ShortExpectingValue(String),
}

/// The kinds of failure, without their payload.
pub enum ErrorKind {
    InvalidOption,
    ExpectingValue,
    UnexpectedValue,
    ShortExpectingValue,
}

impl ErrorType {
    pub open spec fn kind(&self) -> ErrorKind {
        match self {
            ErrorType::InvalidOption(_) => ErrorKind::InvalidOption,
            ErrorType::ExpectingValue(_) => ErrorKind::ExpectingValue,
            ErrorType::UnexpectedValue(_) => ErrorKind::UnexpectedValue,
            ErrorType::ShortExpectingValue(_) => ErrorKind::ShortExpectingValue,
        }
    }

    pub open spec fn subject(&self) -> Seq<char> {
        match self {
            ErrorType::InvalidOption(s) => s@,
            ErrorType::ExpectingValue(s) => s@,
            ErrorType::UnexpectedValue(s) => s@,
            ErrorType::ShortExpectingValue(s) => s@,
        }
    }

    pub open spec fn message_spec(&self) -> Seq<char> {
        match self {
            ErrorType::InvalidOption(s) => "Invalid option `"@ + s@ + "`"@,
            ErrorType::ExpectingValue(s) => "Option `"@ + s@ + "` expects a value"@,
            ErrorType::UnexpectedValue(s) => "Option `"@ + s@
                + "` does not expect a value, but one was provided"@,
            ErrorType::ShortExpectingValue(s) => "Short option `"@ + s@
                + "` expects a value and must be passed separately"@,
        }
    }

    /// The one-line diagnostic for this failure.
    pub fn message(&self) -> (r: String)
        ensures
            r@ == self.message_spec(),
    {
        let (head, s, tail) = match self {
            ErrorType::InvalidOption(s) => ("Invalid option `", s, "`"),
            ErrorType::ExpectingValue(s) => ("Option `", s, "` expects a value"),
            ErrorType::UnexpectedValue(s) => (
                "Option `",
                s,
                "` does not expect a value, but one was provided",
            ),
            ErrorType::ShortExpectingValue(s) => (
                "Short option `",
                s,
                "` expects a value and must be passed separately",
            ),
        };
        let mut r = head.to_string();
        r.append(s.as_str());
        r.append(tail);
        r
    }
}


pub open spec fn has_no_eq_sign(x: Seq<char>) -> bool {
    forall|j: int| 0 <= j < x.len() ==> x[j] != '='
}

/// `x` can stand after dashes as the name of an option token.
pub open spec fn plain_name(x: Seq<char>) -> bool {
    x.len() > 0 && x[0] != '-' && has_no_eq_sign(x)
}

proof fn lemma_split(t: Seq<char>, d: int, x: Seq<char>, rest: Seq<char>)
    requires
        0 <= d <= t.len(),
        forall|j: int| 0 <= j < d ==> t[j] == '-',
        plain_name(x),
        t.subrange(d, t.len() as int) == x + rest,
        rest.len() == 0 || rest[0] == '=',
    ensures
        opt_name_of(t) == x,
        opt_value_of(t) == if rest.len() == 0 {
            Seq::<char>::empty()
        } else {
            rest.drop_first()
        },
{
    let u = t.subrange(d, t.len() as int);
    assert(u.len() > 0);
    assert(u[0] == t[d]);
    assert((x + rest)[0] == x[0]);
    assert(t[d] == x[0]);
    lemma_first_where(t, |c: char| !is_dash(c), d);
    let r = undashed(t);
    assert(r == x + rest);
    assert forall|j: int| 0 <= j < x.len() implies !is_eq_sign(r[j]) by {
        assert(r[j] == x[j]);
    }
    if rest.len() > 0 {
        assert(r[x.len() as int] == rest[0]);
    }
    lemma_first_where(r, |c: char| is_eq_sign(c), x.len() as int);
    assert(r.take(x.len() as int) =~= x);
    if rest.len() > 0 {
        assert(r.subrange(x.len() as int + 1, r.len() as int) =~= rest.drop_first());
    }
}

/// How `--x` splits.
pub proof fn lemma_long_flag_token(x: Seq<char>)
    requires
        plain_name(x),
    ensures
        opt_name_of(seq!['-', '-'] + x) == x,
        opt_value_of(seq!['-', '-'] + x) == Seq::<char>::empty(),
        starts_with_two_dashes(seq!['-', '-'] + x),
        starts_with_dash(seq!['-', '-'] + x),
{
    let t = seq!['-', '-'] + x;
    assert(t.subrange(2, t.len() as int) =~= x + Seq::<char>::empty());
    lemma_split(t, 2, x, Seq::<char>::empty());
}

/// How `--x=v` splits.
pub proof fn lemma_long_value_token(x: Seq<char>, v: Seq<char>)
    requires
        plain_name(x),
    ensures
        opt_name_of(seq!['-', '-'] + x + seq!['='] + v) == x,
        opt_value_of(seq!['-', '-'] + x + seq!['='] + v) == v,
        starts_with_two_dashes(seq!['-', '-'] + x + seq!['='] + v),
        starts_with_dash(seq!['-', '-'] + x + seq!['='] + v),
{
    let t = seq!['-', '-'] + x + seq!['='] + v;
    let rest = seq!['='] + v;
    assert(t.subrange(2, t.len() as int) =~= x + rest);
    assert(rest.drop_first() =~= v);
    lemma_split(t, 2, x, rest);
}

/// How `-cs` splits.
pub proof fn lemma_short_token(cs: Seq<char>)
    requires
        plain_name(cs),
    ensures
        opt_name_of(seq!['-'] + cs) == cs,
        opt_value_of(seq!['-'] + cs) == Seq::<char>::empty(),
        !starts_with_two_dashes(seq!['-'] + cs),
        starts_with_dash(seq!['-'] + cs),
{
    let t = seq!['-'] + cs;
    assert(t.subrange(1, t.len() as int) =~= cs + Seq::<char>::empty());
    assert(t[1] == cs[0]);
    lemma_split(t, 1, cs, Seq::<char>::empty());
}


/// Whether two strings hold the same characters.
pub fn text_eq(a: &str, b: &str) -> (r: bool)
    ensures
        r == (a@ == b@),
{
    let n = a.unicode_len();
    if n != b.unicode_len() {
        return false;
    }
    let mut i: usize = 0;
    while i < n
        invariant
            n == a@.len(),
            n == b@.len(),
            i <= n,
            forall|j: int| 0 <= j < i ==> a@[j] == b@[j],
        decreases n - i,
    {
        if a.get_char(i) != b.get_char(i) {
            return false;
        }
        i = i + 1;
    }
    assert(a@ =~= b@);
    true
}

} // verus!
