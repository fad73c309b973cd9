//! The persistence document: a plain-text encoding of the store with
//! length-prefixed tokens, so that any store can be written out and
//! read back to exactly the same value.
//!
//! A count is written as decimal digits closed by a colon; a string as
//! a count followed by exactly that many characters.  The document is
//! the global property pairs, then the projects, each a name, its
//! plugin names, and its property pairs, every list preceded by its
//! length.

use vstd::prelude::*;
use crate::config::{Config, ConfigView, Project, ProjectView};
use crate::props::PropsV;
use crate::strutil::{chars_to_string, str_chars};

verus! {

/// The digit character of `d`.
pub open spec fn digit_char(d: nat) -> char {
    if d == 0 {
        '0'
    } else if d == 1 {
        '1'
    } else if d == 2 {
        '2'
    } else if d == 3 {
        '3'
    } else if d == 4 {
        '4'
    } else if d == 5 {
        '5'
    } else if d == 6 {
        '6'
    } else if d == 7 {
        '7'
    } else if d == 8 {
        '8'
    } else {
        '9'
    }
}

/// Whether `c` is a decimal digit.
pub open spec fn is_digit(c: char) -> bool {
    c == '0' || c == '1' || c == '2' || c == '3' || c == '4' || c == '5' || c == '6' || c == '7'
        || c == '8' || c == '9'
}

/// The value of the digit `c`.
pub open spec fn digit_val(c: char) -> nat {
    if c == '0' {
        0
    } else if c == '1' {
        1
    } else if c == '2' {
        2
    } else if c == '3' {
        3
    } else if c == '4' {
        4
    } else if c == '5' {
        5
    } else if c == '6' {
        6
    } else if c == '7' {
        7
    } else if c == '8' {
        8
    } else {
        9
    }
}

/// The decimal digits of `n`, most significant first.
pub open spec fn spec_digits(n: nat) -> Seq<char>
    decreases n,
{
    if n < 10 {
        seq![digit_char(n)]
    } else {
        spec_digits(n / 10).push(digit_char(n % 10))
    }
}

/// A count token: the digits of `n` closed by a colon.
pub open spec fn enc_nat(n: nat) -> Seq<char> {
    spec_digits(n) + seq![':']
}

/// A string token: the length of `s` and then `s` itself.
pub open spec fn enc_str(s: Seq<char>) -> Seq<char> {
    enc_nat(s.len()) + s
}

/// Reading digits into `acc`: more digits extend it by one decimal
/// place, a colon closes the token, and anything else, the end of the
/// text, or a value beyond `u64::MAX` is malformed.
pub open spec fn p_nat_rec(s: Seq<char>, acc: nat) -> Option<(nat, Seq<char>)>
    decreases s.len(),
{
    if s.len() == 0 {
        None
    } else if is_digit(s[0]) {
        let a2 = acc * 10 + digit_val(s[0]);
        if a2 > u64::MAX {
            None
        } else {
            p_nat_rec(s.drop_first(), a2)
        }
    } else if s[0] == ':' {
        Some((acc, s.drop_first()))
    } else {
        None
    }
}

/// What a count token at the front of `s` denotes, and the rest.
pub open spec fn p_nat(s: Seq<char>) -> Option<(nat, Seq<char>)> {
    if s.len() > 0 && is_digit(s[0]) {
        p_nat_rec(s, 0)
    } else {
        None
    }
}

/// What a string token at the front of `s` denotes, and the rest.
pub open spec fn p_str(s: Seq<char>) -> Option<(Seq<char>, Seq<char>)> {
    match p_nat(s) {
        Some((n, r)) => if r.len() >= n {
            Some((r.take(n as int), r.skip(n as int)))
        } else {
            None
        },
        None => None,
    }
}

/// `acc` extended by the decimal places of `n`.
pub open spec fn shift(acc: nat, n: nat) -> nat
    decreases n,
{
    if n < 10 {
        acc * 10 + n
    } else {
        shift(acc, n / 10) * 10 + n % 10
    }
}

/// Extending an empty accumulator yields the number itself.
pub proof fn lemma_shift_zero(n: nat)
    ensures
        shift(0, n) == n,
    decreases n,
{
    if n >= 10 {
        lemma_shift_zero(n / 10);
    }
}

/// The digit character of `d` is a digit and reads back as `d`.
pub proof fn lemma_digit(d: nat)
    requires
        d < 10,
    ensures
        is_digit(digit_char(d)),
        digit_val(digit_char(d)) == d,
{
}

/// Reading the digits of `n` extends the accumulator by `n`'s decimal
/// places and continues with the rest of the text.
pub proof fn lemma_digits_read(n: nat, acc: nat, t: Seq<char>)
    requires
        shift(acc, n) <= u64::MAX,
    ensures
        p_nat_rec(spec_digits(n) + t, acc) == p_nat_rec(t, shift(acc, n)),
    decreases n,
{
    if n < 10 {
        lemma_digit(n);
        let s = spec_digits(n) + t;
        assert(s[0] == digit_char(n));
        assert(s.drop_first() =~= t);
    } else {
        lemma_digit(n % 10);
        let c = digit_char(n % 10);
        assert(spec_digits(n) + t =~= spec_digits(n / 10) + (seq![c] + t));
        assert(shift(acc, n / 10) <= u64::MAX) by {
            assert(shift(acc, n) == shift(acc, n / 10) * 10 + n % 10);
            assert(shift(acc, n / 10) <= shift(acc, n / 10) * 10) by (nonlinear_arith);
        }
        lemma_digits_read(n / 10, acc, seq![c] + t);
        let s2 = seq![c] + t;
        assert(s2[0] == c);
        assert(s2.drop_first() =~= t);
        assert(p_nat_rec(s2, shift(acc, n / 10)) == p_nat_rec(t, shift(acc, n / 10) * 10 + n % 10));
    }
}

/// A count token reads back as the number it was written from.
pub proof fn lemma_nat_round_trip(n: nat, rest: Seq<char>)
    requires
        n <= u64::MAX,
    ensures
        p_nat(enc_nat(n) + rest) == Some((n, rest)),
{
    let t = seq![':'] + rest;
    assert(enc_nat(n) + rest =~= spec_digits(n) + t);
    lemma_shift_zero(n);
    lemma_digits_read(n, 0, t);
    assert(t[0] == ':');
    assert(!is_digit(':'));
    assert(t.drop_first() =~= rest);
    assert(p_nat_rec(t, n) == Some((n, rest)));
    let s = spec_digits(n) + t;
    assert(s.len() > 0);
    assert(s[0] == spec_digits(n)[0]);
    lemma_digits_first(n);
}

/// The digit text of `n` is not empty and starts with a digit.
pub proof fn lemma_digits_first(n: nat)
    ensures
        spec_digits(n).len() > 0,
        is_digit(spec_digits(n)[0]),
    decreases n,
{
    if n < 10 {
        lemma_digit(n);
    } else {
        lemma_digits_first(n / 10);
        assert(spec_digits(n)[0] == spec_digits(n / 10)[0]);
    }
}

/// A string token reads back as the string it was written from.
pub proof fn lemma_str_round_trip(s: Seq<char>, rest: Seq<char>)
    requires
        s.len() <= u64::MAX,
    ensures
        p_str(enc_str(s) + rest) == Some((s, rest)),
{
    assert(enc_str(s) + rest =~= enc_nat(s.len()) + (s + rest));
    lemma_nat_round_trip(s.len(), s + rest);
    let r = s + rest;
    assert(r.len() >= s.len());
    assert(r.take(s.len() as int) =~= s);
    assert(r.skip(s.len() as int) =~= rest);
}

/// Whether `c` is a decimal digit.
fn exec_is_digit(c: char) -> (r: bool)
    ensures
        r == is_digit(c),
{
    c == '0' || c == '1' || c == '2' || c == '3' || c == '4' || c == '5' || c == '6' || c == '7'
        || c == '8' || c == '9'
}

/// The value of the digit `c`.
fn exec_digit_val(c: char) -> (r: u64)
    requires
        is_digit(c),
    ensures
        r as nat == digit_val(c),
{
    if c == '0' {
        0
    } else if c == '1' {
        1
    } else if c == '2' {
        2
    } else if c == '3' {
        3
    } else if c == '4' {
        4
    } else if c == '5' {
        5
    } else if c == '6' {
        6
    } else if c == '7' {
        7
    } else if c == '8' {
        8
    } else {
        9
    }
}

/// The text of the digit `d`.
fn digit_text(d: u64) -> (r: &'static str)
    requires
        d < 10,
    ensures
        r@ == seq![digit_char(d as nat)],
{
    let r: &'static str = if d == 0 {
        "0"
    } else if d == 1 {
        "1"
    } else if d == 2 {
        "2"
    } else if d == 3 {
        "3"
    } else if d == 4 {
        "4"
    } else if d == 5 {
        "5"
    } else if d == 6 {
        "6"
    } else if d == 7 {
        "7"
    } else if d == 8 {
        "8"
    } else {
        "9"
    };
    proof {
        reveal_strlit("0");
        reveal_strlit("1");
        reveal_strlit("2");
        reveal_strlit("3");
        reveal_strlit("4");
        reveal_strlit("5");
        reveal_strlit("6");
        reveal_strlit("7");
        reveal_strlit("8");
        reveal_strlit("9");
        assert(r@ =~= seq![digit_char(d as nat)]);
    }
    r
}

/// Appends the digits of `n` to `out`.
fn push_digits(out: &mut String, n: u64)
    ensures
        final(out)@ == old(out)@ + spec_digits(n as nat),
    decreases n,
{
    if n < 10 {
        out.append(digit_text(n));
    } else {
        push_digits(out, n / 10);
        out.append(digit_text(n % 10));
        proof {
            assert(final(out)@ =~= old(out)@ + spec_digits(n as nat));
        }
    }
}

/// Appends a count token to `out`.
fn push_nat(out: &mut String, n: usize)
    ensures
        final(out)@ == old(out)@ + enc_nat(n as nat),
{
    push_digits(out, n as u64);
    out.append(":");
    proof {
        reveal_strlit(":");
        assert(":"@ =~= seq![':']);
        assert(final(out)@ =~= old(out)@ + enc_nat(n as nat));
    }
}

/// Appends a string token to `out`.
fn push_str_token(out: &mut String, s: &str)
    ensures
        final(out)@ == old(out)@ + enc_str(s@),
{
    let n = s.unicode_len();
    push_nat(out, n);
    out.append(s);
    proof {
        assert(final(out)@ =~= old(out)@ + enc_str(s@));
    }
}

/// The characters of `s` between `from` and `to`, as a string.
fn chars_range_string(s: &Vec<char>, from: usize, to: usize) -> (r: String)
    requires
        from <= to <= s@.len(),
    ensures
        r@ == s@.subrange(from as int, to as int),
{
    let mut v: Vec<char> = Vec::new();
    let mut i = from;
    while i < to
        invariant
            from <= i <= to <= s@.len(),
            v@ =~= s@.subrange(from as int, i as int),
        decreases to - i,
    {
        v.push(s[i]);
        proof {
            assert(v@ =~= s@.subrange(from as int, i + 1));
        }
        i = i + 1;
    }
    chars_to_string(&v)
}

/// Reads a count token at position `i`.
fn parse_nat(s: &Vec<char>, i: usize) -> (r: Option<(u64, usize)>)
    requires
        i <= s@.len(),
    ensures
        match r {
            Some(p) => p.1 <= s@.len() && p_nat(s@.skip(i as int)) == Some(
                (p.0 as nat, s@.skip(p.1 as int)),
            ),
            None => p_nat(s@.skip(i as int)) is None,
        },
{
    let n = s.len();
    if i >= n {
        return None;
    }
    proof {
        assert(s@.skip(i as int)[0] == s@[i as int]);
    }
    if !exec_is_digit(s[i]) {
        return None;
    }
    let mut acc: u64 = 0;
    let mut j = i;
    loop
        invariant
            i <= j <= n,
            n == s@.len(),
            p_nat(s@.skip(i as int)) == p_nat_rec(s@.skip(j as int), acc as nat),
        decreases n - j,
    {
        if j >= n {
            proof {
                assert(s@.skip(j as int).len() == 0);
            }
            return None;
        }
        let c = s[j];
        proof {
            assert(s@.skip(j as int)[0] == s@[j as int]);
            assert(s@.skip(j as int).drop_first() =~= s@.skip(j + 1));
        }
        if exec_is_digit(c) {
            let wide: u128 = (acc as u128) * 10 + (exec_digit_val(c) as u128);
            if wide > u64::MAX as u128 {
                return None;
            }
            acc = wide as u64;
            j = j + 1;
        } else if c == ':' {
            return Some((acc, j + 1));
        } else {
            return None;
        }
    }
}

/// Reads a string token at position `i`.
fn parse_str(s: &Vec<char>, i: usize) -> (r: Option<(String, usize)>)
    requires
        i <= s@.len(),
    ensures
        match r {
            Some(p) => p.1 <= s@.len() && p_str(s@.skip(i as int)) == Some(
                (p.0@, s@.skip(p.1 as int)),
            ),
            None => p_str(s@.skip(i as int)) is None,
        },
{
    match parse_nat(s, i) {
        None => None,
        Some((len, j)) => {
            let remaining = s.len() - j;
            if (remaining as u64) < len {
                return None;
            }
            let to = j + (len as usize);
            let content = chars_range_string(s, j, to);
            proof {
                assert(s@.skip(j as int).take(len as int) =~= s@.subrange(j as int, to as int));
                assert(s@.skip(j as int).skip(len as int) =~= s@.skip(to as int));
            }
            Some((content, to))
        },
    }
}

/// The text of a pair list: each key and value as string tokens.
pub open spec fn enc_pairs(ps: PropsV) -> Seq<char>
    decreases ps.len(),
{
    if ps.len() == 0 {
        Seq::empty()
    } else {
        enc_str(ps[0].0) + enc_str(ps[0].1) + enc_pairs(ps.drop_first())
    }
}

/// The text of a string list.
pub open spec fn enc_strs(ss: Seq<Seq<char>>) -> Seq<char>
    decreases ss.len(),
{
    if ss.len() == 0 {
        Seq::empty()
    } else {
        enc_str(ss[0]) + enc_strs(ss.drop_first())
    }
}

/// The text of one project: its name, its plugin names, and its
/// property pairs, the lists preceded by their lengths.
pub open spec fn enc_project(p: ProjectView) -> Seq<char> {
    enc_str(p.name) + enc_nat(p.plugins.len()) + enc_strs(p.plugins) + enc_nat(p.props.len())
        + enc_pairs(p.props)
}

/// The text of a project list.
pub open spec fn enc_projects(ps: Seq<ProjectView>) -> Seq<char>
    decreases ps.len(),
{
    if ps.len() == 0 {
        Seq::empty()
    } else {
        enc_project(ps[0]) + enc_projects(ps.drop_first())
    }
}

/// The document text of a store: the global pairs, then the projects,
/// each list preceded by its length.
pub open spec fn enc_config(c: ConfigView) -> Seq<char> {
    enc_nat(c.globals.len()) + enc_pairs(c.globals) + enc_nat(c.projects.len()) + enc_projects(
        c.projects,
    )
}

/// What `count` pairs at the front of `s` denote, and the rest.
pub open spec fn p_pairs(s: Seq<char>, count: nat) -> Option<(PropsV, Seq<char>)>
    decreases count,
{
    if count == 0 {
        Some((Seq::empty(), s))
    } else {
        match p_str(s) {
            Some((k, r1)) => match p_str(r1) {
                Some((v, r2)) => match p_pairs(r2, (count - 1) as nat) {
                    Some((ps, r3)) => Some((seq![(k, v)] + ps, r3)),
                    None => None,
                },
                None => None,
            },
            None => None,
        }
    }
}

/// What `count` strings at the front of `s` denote, and the rest.
pub open spec fn p_strs(s: Seq<char>, count: nat) -> Option<(Seq<Seq<char>>, Seq<char>)>
    decreases count,
{
    if count == 0 {
        Some((Seq::empty(), s))
    } else {
        match p_str(s) {
            Some((x, r1)) => match p_strs(r1, (count - 1) as nat) {
                Some((xs, r2)) => Some((seq![x] + xs, r2)),
                None => None,
            },
            None => None,
        }
    }
}

/// What one project at the front of `s` denotes, and the rest.
pub open spec fn p_project(s: Seq<char>) -> Option<(ProjectView, Seq<char>)> {
    match p_str(s) {
        Some((name, r1)) => match p_nat(r1) {
            Some((np, r2)) => match p_strs(r2, np) {
                Some((plugins, r3)) => match p_nat(r3) {
                    Some((nk, r4)) => match p_pairs(r4, nk) {
                        Some((props, r5)) => Some((ProjectView { name, plugins, props }, r5)),
                        None => None,
                    },
                    None => None,
                },
                None => None,
            },
            None => None,
        },
        None => None,
    }
}

/// What `count` projects at the front of `s` denote, and the rest.
pub open spec fn p_projects(s: Seq<char>, count: nat) -> Option<(Seq<ProjectView>, Seq<char>)>
    decreases count,
{
    if count == 0 {
        Some((Seq::empty(), s))
    } else {
        match p_project(s) {
            Some((p, r1)) => match p_projects(r1, (count - 1) as nat) {
                Some((ps, r2)) => Some((seq![p] + ps, r2)),
                None => None,
            },
            None => None,
        }
    }
}

/// What a whole document denotes: a store, provided nothing trails it.
pub open spec fn p_config(s: Seq<char>) -> Option<ConfigView> {
    match p_nat(s) {
        Some((g, r1)) => match p_pairs(r1, g) {
            Some((globals, r2)) => match p_nat(r2) {
                Some((np, r3)) => match p_projects(r3, np) {
                    Some((projects, r4)) => if r4.len() == 0 {
                        Some(ConfigView { projects, globals })
                    } else {
                        None
                    },
                    None => None,
                },
                None => None,
            },
            None => None,
        },
        None => None,
    }
}

/// Every count a document of `s` would carry fits in a count token.
pub open spec fn str_fits(s: Seq<char>) -> bool {
    s.len() <= u64::MAX
}

/// Every length in the pair list fits in a count token.
pub open spec fn pairs_fit(ps: PropsV) -> bool {
    &&& ps.len() <= u64::MAX
    &&& forall|i: int|
        0 <= i < ps.len() ==> str_fits((#[trigger] ps[i]).0) && str_fits(ps[i].1)
}

/// Every length in the string list fits in a count token.
pub open spec fn strs_fit(ss: Seq<Seq<char>>) -> bool {
    &&& ss.len() <= u64::MAX
    &&& forall|i: int| 0 <= i < ss.len() ==> str_fits(#[trigger] ss[i])
}

/// Every length in the project fits in a count token.
pub open spec fn project_fits(p: ProjectView) -> bool {
    str_fits(p.name) && strs_fit(p.plugins) && pairs_fit(p.props)
}

/// Every length in the store fits in a count token.  Any store held in
/// memory satisfies this: each length is bounded by an in-memory
/// collection's size.
pub open spec fn config_fits(c: ConfigView) -> bool {
    &&& pairs_fit(c.globals)
    &&& c.projects.len() <= u64::MAX
    &&& forall|i: int| 0 <= i < c.projects.len() ==> project_fits(#[trigger] c.projects[i])
}

/// A written pair list reads back as itself.
pub proof fn lemma_pairs_round_trip(ps: PropsV, rest: Seq<char>)
    requires
        pairs_fit(ps),
    ensures
        p_pairs(enc_pairs(ps) + rest, ps.len()) == Some((ps, rest)),
    decreases ps.len(),
{
    if ps.len() == 0 {
        assert(enc_pairs(ps) + rest =~= rest);
        assert(Seq::<(Seq<char>, Seq<char>)>::empty() =~= ps);
    } else {
        let k = ps[0].0;
        let v = ps[0].1;
        let tail = ps.drop_first();
        assert(pairs_fit(tail)) by {
            assert forall|i: int|
                0 <= i < tail.len() implies str_fits((#[trigger] tail[i]).0) && str_fits(
                tail[i].1,
            ) by {
                assert(tail[i] == ps[i + 1]);
            }
        }
        let after_v = enc_pairs(tail) + rest;
        let after_k = enc_str(v) + after_v;
        assert(enc_pairs(ps) + rest =~= enc_str(k) + after_k);
        lemma_str_round_trip(k, after_k);
        lemma_str_round_trip(v, after_v);
        lemma_pairs_round_trip(tail, rest);
        assert(seq![(k, v)] + tail =~= ps);
    }
}

/// A written string list reads back as itself.
pub proof fn lemma_strs_round_trip(ss: Seq<Seq<char>>, rest: Seq<char>)
    requires
        strs_fit(ss),
    ensures
        p_strs(enc_strs(ss) + rest, ss.len()) == Some((ss, rest)),
    decreases ss.len(),
{
    if ss.len() == 0 {
        assert(enc_strs(ss) + rest =~= rest);
        assert(Seq::<Seq<char>>::empty() =~= ss);
    } else {
        let tail = ss.drop_first();
        assert(strs_fit(tail)) by {
            assert forall|i: int| 0 <= i < tail.len() implies str_fits(#[trigger] tail[i]) by {
                assert(tail[i] == ss[i + 1]);
            }
        }
        let after = enc_strs(tail) + rest;
        assert(enc_strs(ss) + rest =~= enc_str(ss[0]) + after);
        lemma_str_round_trip(ss[0], after);
        lemma_strs_round_trip(tail, rest);
        assert(seq![ss[0]] + tail =~= ss);
    }
}

/// A written project reads back as itself.
pub proof fn lemma_project_round_trip(p: ProjectView, rest: Seq<char>)
    requires
        project_fits(p),
    ensures
        p_project(enc_project(p) + rest) == Some((p, rest)),
{
    let after_props = rest;
    let after_nk = enc_pairs(p.props) + after_props;
    let after_strs = enc_nat(p.props.len()) + after_nk;
    let after_np = enc_strs(p.plugins) + after_strs;
    let after_name = enc_nat(p.plugins.len()) + after_np;
    assert(enc_project(p) + rest =~= enc_str(p.name) + after_name);
    lemma_str_round_trip(p.name, after_name);
    assert(after_name =~= enc_nat(p.plugins.len()) + after_np);
    lemma_nat_round_trip(p.plugins.len(), after_np);
    lemma_strs_round_trip(p.plugins, after_strs);
    lemma_nat_round_trip(p.props.len(), after_nk);
    lemma_pairs_round_trip(p.props, after_props);
}

/// A written project list reads back as itself.
pub proof fn lemma_projects_round_trip(ps: Seq<ProjectView>, rest: Seq<char>)
    requires
        ps.len() <= u64::MAX,
        forall|i: int| 0 <= i < ps.len() ==> project_fits(#[trigger] ps[i]),
    ensures
        p_projects(enc_projects(ps) + rest, ps.len()) == Some((ps, rest)),
    decreases ps.len(),
{
    if ps.len() == 0 {
        assert(enc_projects(ps) + rest =~= rest);
        assert(Seq::<ProjectView>::empty() =~= ps);
    } else {
        let tail = ps.drop_first();
        assert(forall|i: int| 0 <= i < tail.len() ==> project_fits(#[trigger] tail[i])) by {
            assert forall|i: int| 0 <= i < tail.len() implies project_fits(#[trigger] tail[i]) by {
                assert(tail[i] == ps[i + 1]);
            }
        }
        let after = enc_projects(tail) + rest;
        assert(enc_projects(ps) + rest =~= enc_project(ps[0]) + after);
        lemma_project_round_trip(ps[0], after);
        lemma_projects_round_trip(tail, rest);
        assert(seq![ps[0]] + tail =~= ps);
    }
}

/// Round-trip persistence: any store written out as a document is read
/// back as exactly the same store, with the same projects, the same
/// plugin sets and the same properties, in the same order.
pub proof fn lemma_document_round_trip(c: ConfigView)
    requires
        config_fits(c),
    ensures
        p_config(enc_config(c)) == Some(c),
{
    let after_pairs = enc_nat(c.projects.len()) + enc_projects(c.projects);
    let after_g = enc_pairs(c.globals) + after_pairs;
    assert(enc_config(c) =~= enc_nat(c.globals.len()) + after_g);
    lemma_nat_round_trip(c.globals.len(), after_g);
    lemma_pairs_round_trip(c.globals, after_pairs);
    lemma_nat_round_trip(c.projects.len(), enc_projects(c.projects));
    assert(enc_projects(c.projects) =~= enc_projects(c.projects) + Seq::<char>::empty());
    lemma_projects_round_trip(c.projects, Seq::empty());
    assert(p_projects(enc_projects(c.projects), c.projects.len()) == Some(
        (c.projects, Seq::<char>::empty()),
    ));
}

/// Writing one more pair appends its two tokens.
proof fn lemma_enc_pairs_push(ps: PropsV, x: (Seq<char>, Seq<char>))
    ensures
        enc_pairs(ps.push(x)) == enc_pairs(ps) + enc_str(x.0) + enc_str(x.1),
    decreases ps.len(),
{
    if ps.len() == 0 {
        assert(ps.push(x)[0] == x);
        assert(ps.push(x).drop_first() =~= Seq::<(Seq<char>, Seq<char>)>::empty());
        assert(enc_pairs(Seq::<(Seq<char>, Seq<char>)>::empty()) == Seq::<char>::empty());
        assert(enc_pairs(ps.push(x)) =~= enc_pairs(ps) + enc_str(x.0) + enc_str(x.1));
    } else {
        lemma_enc_pairs_push(ps.drop_first(), x);
        assert(ps.push(x).drop_first() =~= ps.drop_first().push(x));
        assert(ps.push(x)[0] == ps[0]);
        assert(enc_str(ps[0].0) + enc_str(ps[0].1) + (enc_pairs(ps.drop_first()) + enc_str(x.0)
            + enc_str(x.1)) =~= (enc_str(ps[0].0) + enc_str(ps[0].1) + enc_pairs(
            ps.drop_first(),
        )) + enc_str(x.0) + enc_str(x.1));
    }
}

/// Writing one more string appends its token.
proof fn lemma_enc_strs_push(ss: Seq<Seq<char>>, x: Seq<char>)
    ensures
        enc_strs(ss.push(x)) == enc_strs(ss) + enc_str(x),
    decreases ss.len(),
{
    if ss.len() == 0 {
        assert(ss.push(x)[0] == x);
        assert(ss.push(x).drop_first() =~= Seq::<Seq<char>>::empty());
        assert(enc_strs(Seq::<Seq<char>>::empty()) == Seq::<char>::empty());
        assert(enc_strs(ss.push(x)) =~= enc_strs(ss) + enc_str(x));
    } else {
        lemma_enc_strs_push(ss.drop_first(), x);
        assert(ss.push(x).drop_first() =~= ss.drop_first().push(x));
        assert(ss.push(x)[0] == ss[0]);
        assert(enc_str(ss[0]) + (enc_strs(ss.drop_first()) + enc_str(x)) =~= (enc_str(ss[0])
            + enc_strs(ss.drop_first())) + enc_str(x));
    }
}

/// Writing one more project appends its text.
proof fn lemma_enc_projects_push(ps: Seq<ProjectView>, x: ProjectView)
    ensures
        enc_projects(ps.push(x)) == enc_projects(ps) + enc_project(x),
    decreases ps.len(),
{
    if ps.len() == 0 {
        assert(ps.push(x)[0] == x);
        assert(ps.push(x).drop_first() =~= Seq::<ProjectView>::empty());
        assert(enc_projects(Seq::<ProjectView>::empty()) == Seq::<char>::empty());
        assert(enc_projects(ps.push(x)) =~= enc_projects(ps) + enc_project(x));
    } else {
        lemma_enc_projects_push(ps.drop_first(), x);
        assert(ps.push(x).drop_first() =~= ps.drop_first().push(x));
        assert(ps.push(x)[0] == ps[0]);
        assert(enc_project(ps[0]) + (enc_projects(ps.drop_first()) + enc_project(x)) =~= (
        enc_project(ps[0]) + enc_projects(ps.drop_first())) + enc_project(x));
    }
}

/// Appends the pair list to `out`.
fn push_pairs(out: &mut String, ps: &Vec<(String, String)>)
    ensures
        final(out)@ == old(out)@ + enc_pairs(ps.deep_view()),
{
    let ghost pv = ps.deep_view();
    let ghost base = out@;
    let n = ps.len();
    let mut i: usize = 0;
    proof {
        assert(pv.take(0) =~= Seq::empty());
        assert(out@ =~= base + enc_pairs(pv.take(0)));
    }
    while i < n
        invariant
            i <= n,
            n == ps@.len(),
            pv == ps.deep_view(),
            out@ == base + enc_pairs(pv.take(i as int)),
        decreases n - i,
    {
        let pair = &ps[i];
        push_str_token(out, pair.0.as_str());
        push_str_token(out, pair.1.as_str());
        proof {
            assert(pv[i as int] == (ps@[i as int].0@, ps@[i as int].1@));
            assert(pv.take(i + 1) =~= pv.take(i as int).push(pv[i as int]));
            lemma_enc_pairs_push(pv.take(i as int), pv[i as int]);
            assert(out@ =~= base + enc_pairs(pv.take(i + 1)));
        }
        i = i + 1;
    }
    proof {
        assert(pv.take(n as int) =~= pv);
    }
}

/// Appends the string list to `out`.
fn push_strs(out: &mut String, ss: &Vec<String>)
    ensures
        final(out)@ == old(out)@ + enc_strs(ss.deep_view()),
{
    let ghost sv = ss.deep_view();
    let ghost base = out@;
    let n = ss.len();
    let mut i: usize = 0;
    proof {
        assert(sv.take(0) =~= Seq::empty());
        assert(out@ =~= base + enc_strs(sv.take(0)));
    }
    while i < n
        invariant
            i <= n,
            n == ss@.len(),
            sv == ss.deep_view(),
            out@ == base + enc_strs(sv.take(i as int)),
        decreases n - i,
    {
        push_str_token(out, ss[i].as_str());
        proof {
            assert(sv[i as int] == ss@[i as int]@);
            assert(sv.take(i + 1) =~= sv.take(i as int).push(sv[i as int]));
            lemma_enc_strs_push(sv.take(i as int), sv[i as int]);
            assert(out@ =~= base + enc_strs(sv.take(i + 1)));
        }
        i = i + 1;
    }
    proof {
        assert(sv.take(n as int) =~= sv);
    }
}

/// Appends one project's text to `out`.
fn push_project(out: &mut String, p: &Project)
    ensures
        final(out)@ == old(out)@ + enc_project(p@),
{
    push_str_token(out, p.name.as_str());
    push_nat(out, p.plugins.len());
    push_strs(out, &p.plugins);
    push_nat(out, p.properties.len());
    push_pairs(out, &p.properties);
    proof {
        assert(final(out)@ =~= old(out)@ + enc_project(p@));
    }
}

/// The document text of the store.
pub fn encode_config(c: &Config) -> (r: String)
    ensures
        r@ == enc_config(c@),
{
    let ghost cv = c@;
    let mut out = String::new();
    push_nat(&mut out, c.properties.len());
    push_pairs(&mut out, &c.properties);
    push_nat(&mut out, c.projects.len());
    let ghost base = out@;
    let ghost ps = cv.projects;
    let n = c.projects.len();
    let mut i: usize = 0;
    proof {
        assert(ps.take(0) =~= Seq::empty());
        assert(out@ =~= base + enc_projects(ps.take(0)));
    }
    while i < n
        invariant
            i <= n,
            n == c.projects@.len(),
            ps == c@.projects,
            out@ == base + enc_projects(ps.take(i as int)),
        decreases n - i,
    {
        push_project(&mut out, &c.projects[i]);
        proof {
            assert(ps[i as int] == c.projects@[i as int]@);
            assert(ps.take(i + 1) =~= ps.take(i as int).push(ps[i as int]));
            lemma_enc_projects_push(ps.take(i as int), ps[i as int]);
            assert(out@ =~= base + enc_projects(ps.take(i + 1)));
        }
        i = i + 1;
    }
    proof {
        assert(ps.take(n as int) =~= ps);
        assert(out@ =~= enc_config(cv));
    }
    out
}

/// Reads `count` pairs at position `i`.
fn parse_pairs(s: &Vec<char>, i: usize, count: u64) -> (r: Option<(Vec<(String, String)>, usize)>)
    requires
        i <= s@.len(),
    ensures
        match r {
            Some(p) => p.1 <= s@.len() && p_pairs(s@.skip(i as int), count as nat) == Some(
                (p.0.deep_view(), s@.skip(p.1 as int)),
            ),
            None => p_pairs(s@.skip(i as int), count as nat) is None,
        },
{
    let ghost s0 = s@.skip(i as int);
    let mut done: Vec<(String, String)> = Vec::new();
    let mut j = i;
    let mut k: u64 = 0;
    proof {
        assert(done.deep_view() =~= Seq::<(Seq<char>, Seq<char>)>::empty());
        assert(done.deep_view() + p_pairs(s@.skip(j as int), (count - k) as nat)->Some_0.0
            =~= p_pairs(s@.skip(j as int), (count - k) as nat)->Some_0.0);
    }
    while k < count
        invariant
            j <= s@.len(),
            k <= count,
            s0 == s@.skip(i as int),
            match p_pairs(s@.skip(j as int), (count - k) as nat) {
                Some(pr) => p_pairs(s0, count as nat) == Some((done.deep_view() + pr.0, pr.1)),
                None => p_pairs(s0, count as nat) is None,
            },
        decreases count - k,
    {
        match parse_str(s, j) {
            None => {
                return None;
            },
            Some((key, j1)) => {
                match parse_str(s, j1) {
                    None => {
                        return None;
                    },
                    Some((val, j2)) => {
                        let ghost prev = done.deep_view();
                        proof {
                            let rem = (count - k) as nat;
                            let rem2 = (count - k - 1) as nat;
                            match p_pairs(s@.skip(j2 as int), rem2) {
                                Some(pr) => {
                                    assert(p_pairs(s@.skip(j as int), rem) == Some(
                                        (seq![(key@, val@)] + pr.0, pr.1),
                                    ));
                                    assert(prev + (seq![(key@, val@)] + pr.0) =~= prev.push(
                                        (key@, val@),
                                    ) + pr.0);
                                },
                                None => {
                                    assert(p_pairs(s@.skip(j as int), rem) is None);
                                },
                            }
                        }
                        done.push((key, val));
                        proof {
                            assert(done.deep_view() =~= prev.push((key@, val@)));
                        }
                        j = j2;
                        k = k + 1;
                    },
                }
            },
        }
    }
    proof {
        assert(p_pairs(s@.skip(j as int), 0) == Some(
            (Seq::<(Seq<char>, Seq<char>)>::empty(), s@.skip(j as int)),
        ));
        assert(done.deep_view() + Seq::<(Seq<char>, Seq<char>)>::empty() =~= done.deep_view());
    }
    Some((done, j))
}

/// Reads `count` strings at position `i`.
fn parse_strs(s: &Vec<char>, i: usize, count: u64) -> (r: Option<(Vec<String>, usize)>)
    requires
        i <= s@.len(),
    ensures
        match r {
            Some(p) => p.1 <= s@.len() && p_strs(s@.skip(i as int), count as nat) == Some(
                (p.0.deep_view(), s@.skip(p.1 as int)),
            ),
            None => p_strs(s@.skip(i as int), count as nat) is None,
        },
{
    let ghost s0 = s@.skip(i as int);
    let mut done: Vec<String> = Vec::new();
    let mut j = i;
    let mut k: u64 = 0;
    proof {
        assert(done.deep_view() =~= Seq::<Seq<char>>::empty());
        assert(done.deep_view() + p_strs(s@.skip(j as int), (count - k) as nat)->Some_0.0
            =~= p_strs(s@.skip(j as int), (count - k) as nat)->Some_0.0);
    }
    while k < count
        invariant
            j <= s@.len(),
            k <= count,
            s0 == s@.skip(i as int),
            match p_strs(s@.skip(j as int), (count - k) as nat) {
                Some(pr) => p_strs(s0, count as nat) == Some((done.deep_view() + pr.0, pr.1)),
                None => p_strs(s0, count as nat) is None,
            },
        decreases count - k,
    {
        match parse_str(s, j) {
            None => {
                return None;
            },
            Some((x, j1)) => {
                let ghost prev = done.deep_view();
                proof {
                    let rem = (count - k) as nat;
                    let rem2 = (count - k - 1) as nat;
                    match p_strs(s@.skip(j1 as int), rem2) {
                        Some(pr) => {
                            assert(p_strs(s@.skip(j as int), rem) == Some(
                                (seq![x@] + pr.0, pr.1),
                            ));
                            assert(prev + (seq![x@] + pr.0) =~= prev.push(x@) + pr.0);
                        },
                        None => {
                            assert(p_strs(s@.skip(j as int), rem) is None);
                        },
                    }
                }
                done.push(x);
                proof {
                    assert(done.deep_view() =~= prev.push(done@[done@.len() - 1]@));
                }
                j = j1;
                k = k + 1;
            },
        }
    }
    proof {
        assert(p_strs(s@.skip(j as int), 0) == Some(
            (Seq::<Seq<char>>::empty(), s@.skip(j as int)),
        ));
        assert(done.deep_view() + Seq::<Seq<char>>::empty() =~= done.deep_view());
    }
    Some((done, j))
}

/// Reads one project at position `i`.
fn parse_project(s: &Vec<char>, i: usize) -> (r: Option<(Project, usize)>)
    requires
        i <= s@.len(),
    ensures
        match r {
            Some(p) => p.1 <= s@.len() && p_project(s@.skip(i as int)) == Some(
                (p.0@, s@.skip(p.1 as int)),
            ),
            None => p_project(s@.skip(i as int)) is None,
        },
{
    match parse_str(s, i) {
        None => None,
        Some((name, j1)) => match parse_nat(s, j1) {
            None => None,
            Some((np, j2)) => match parse_strs(s, j2, np) {
                None => None,
                Some((plugins, j3)) => match parse_nat(s, j3) {
                    None => None,
                    Some((nk, j4)) => match parse_pairs(s, j4, nk) {
                        None => None,
                        Some((properties, j5)) => {
                            let p = Project { name, plugins, properties };
                            Some((p, j5))
                        },
                    },
                },
            },
        },
    }
}

/// Reads `count` projects at position `i`.
fn parse_projects(s: &Vec<char>, i: usize, count: u64) -> (r: Option<(Vec<Project>, usize)>)
    requires
        i <= s@.len(),
    ensures
        match r {
            Some(p) => p.1 <= s@.len() && p_projects(s@.skip(i as int), count as nat) == Some(
                (p.0.deep_view(), s@.skip(p.1 as int)),
            ),
            None => p_projects(s@.skip(i as int), count as nat) is None,
        },
{
    let ghost s0 = s@.skip(i as int);
    let mut done: Vec<Project> = Vec::new();
    let mut j = i;
    let mut k: u64 = 0;
    proof {
        assert(done.deep_view() =~= Seq::<ProjectView>::empty());
        assert(done.deep_view() + p_projects(s@.skip(j as int), (count - k) as nat)->Some_0.0
            =~= p_projects(s@.skip(j as int), (count - k) as nat)->Some_0.0);
    }
    while k < count
        invariant
            j <= s@.len(),
            k <= count,
            s0 == s@.skip(i as int),
            match p_projects(s@.skip(j as int), (count - k) as nat) {
                Some(pr) => p_projects(s0, count as nat) == Some((done.deep_view() + pr.0, pr.1)),
                None => p_projects(s0, count as nat) is None,
            },
        decreases count - k,
    {
        match parse_project(s, j) {
            None => {
                return None;
            },
            Some((p, j1)) => {
                let ghost prev = done.deep_view();
                let ghost pview = p@;
                proof {
                    let rem = (count - k) as nat;
                    let rem2 = (count - k - 1) as nat;
                    match p_projects(s@.skip(j1 as int), rem2) {
                        Some(pr) => {
                            assert(p_projects(s@.skip(j as int), rem) == Some(
                                (seq![pview] + pr.0, pr.1),
                            ));
                            assert(prev + (seq![pview] + pr.0) =~= prev.push(pview) + pr.0);
                        },
                        None => {
                            assert(p_projects(s@.skip(j as int), rem) is None);
                        },
                    }
                }
                done.push(p);
                proof {
                    assert(done.deep_view() =~= prev.push(pview));
                }
                j = j1;
                k = k + 1;
            },
        }
    }
    proof {
        assert(p_projects(s@.skip(j as int), 0) == Some(
            (Seq::<ProjectView>::empty(), s@.skip(j as int)),
        ));
        assert(done.deep_view() + Seq::<ProjectView>::empty() =~= done.deep_view());
    }
    Some((done, j))
}

/// Reads a whole document back as a store.
pub fn parse_config(text: &str) -> (r: Option<Config>)
    ensures
        match r {
            Some(c) => p_config(text@) == Some(c@),
            None => p_config(text@) is None,
        },
{
    let s = str_chars(text);
    proof {
        assert(s@.skip(0) =~= text@);
    }
    match parse_nat(&s, 0) {
        None => None,
        Some((g, j1)) => match parse_pairs(&s, j1, g) {
            None => None,
            Some((properties, j2)) => match parse_nat(&s, j2) {
                None => None,
                Some((np, j3)) => match parse_projects(&s, j3, np) {
                    None => None,
                    Some((projects, j4)) => {
                        if j4 < s.len() {
                            proof {
                                assert(s@.skip(j4 as int).len() > 0);
                            }
                            None
                        } else {
                            let c = Config { projects, properties };
                            proof {
                                assert(s@.skip(j4 as int).len() == 0);
                            }
                            Some((c))
                        }
                    },
                },
            },
        },
    }
}

} // verus!
