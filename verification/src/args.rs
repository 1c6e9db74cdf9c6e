//! The start-up arguments and their token-level grammar. A token of a dash
//! followed only by `v`s raises the verbosity by one per `v` (saturating at
//! the counter's top). `--line-no`, or its short form `-+`, takes the next
//! token as the line number to open the first file at: the value may carry
//! one leading `+`, a value that does not parse leaves no line number, and
//! a flag with no token after it is rejected. Any other token beginning
//! with a dash (beyond a lone dash) is rejected as unrecognized; everything
//! else names a file to open, in order.

use vstd::prelude::*;
use vstd::string::StrSliceExecFns;
use crate::text::str_eq;

verus! {

/// The parsed start-up arguments.
#[derive(Debug)]
pub struct Args {
    pub verbosity: u64,
    pub files: Vec<String>,
    pub open_at_line_no: Option<usize>,
}

/// A start-up token the grammar rejects.
#[derive(PartialEq, Eq, Debug)]
pub enum ArgsError {
    /// A flag the grammar does not know.
    UnrecognizedFlag { token: String },
    /// A line-number flag with no value after it.
    MissingFlagValue { flag: String },
}

/// Whether every character is a decimal digit, and there is at least one.
pub open spec fn spec_is_digits(s: Seq<char>) -> bool {
    s.len() > 0 && (forall|i: int| 0 <= i < s.len() ==> 48 <= #[trigger] s[i] as int <= 57)
}

/// The number the digits spell, most significant first.
pub open spec fn spec_digits_value(s: Seq<char>) -> int
    decreases s.len(),
{
    if s.len() == 0 {
        0
    } else {
        spec_digits_value(s.drop_last()) * 10 + (s.last() as int - 48)
    }
}

/// The value of a digit string is never negative.
proof fn lemma_digits_value_nonneg(s: Seq<char>)
    requires
        forall|i: int| 0 <= i < s.len() ==> 48 <= #[trigger] s[i] as int <= 57,
    ensures
        spec_digits_value(s) >= 0,
    decreases s.len(),
{
    if s.len() > 0 {
        lemma_digits_value_nonneg(s.drop_last());
    }
}

/// Extending a digit string never shrinks its value.
proof fn lemma_digits_value_grows(s: Seq<char>, k: int)
    requires
        0 <= k <= s.len(),
        forall|i: int| 0 <= i < s.len() ==> 48 <= #[trigger] s[i] as int <= 57,
    ensures
        spec_digits_value(s) >= spec_digits_value(s.subrange(0, k)),
    decreases s.len() - k,
{
    if k < s.len() {
        let p = s.subrange(0, k);
        let q = s.subrange(0, k + 1);
        assert(q.drop_last() =~= p);
        assert(q.last() == s[k]);
        lemma_digits_value_nonneg(p);
        assert(spec_digits_value(q) == spec_digits_value(p) * 10 + (s[k] as int - 48));
        assert(spec_digits_value(p) * 10 >= spec_digits_value(p)) by (nonlinear_arith)
            requires
                spec_digits_value(p) >= 0,
        ;
        lemma_digits_value_grows(s, k + 1);
        assert(s.subrange(0, s.len() as int) =~= s);
    } else {
        assert(s.subrange(0, k) =~= s);
    }
}

/// The digits of a line-number token: one leading `+` is allowed and
/// stripped, as the machine's own numeral grammar has it.
pub open spec fn spec_line_digits(s: Seq<char>) -> Seq<char> {
    if s.len() > 0 && s[0] == '+' {
        s.drop_first()
    } else {
        s
    }
}

/// The line number a token parses to: the value of its digits — after one
/// optional leading `+` — when they are all digits and the value fits the
/// machine, nothing otherwise.
pub open spec fn spec_parsed_line_no(s: Seq<char>) -> Option<usize> {
    if spec_is_digits(spec_line_digits(s)) && spec_digits_value(spec_line_digits(s))
        <= usize::MAX {
        Some(spec_digits_value(spec_line_digits(s)) as usize)
    } else {
        None
    }
}

/// Parses a line-number token.
pub fn parse_line_number(s: &str) -> (r: Option<usize>)
    ensures
        r == spec_parsed_line_no(s@),
{
    let n = s.unicode_len();
    if n == 0 {
        return None;
    }
    let start: usize = if s.get_char(0) == '+' {
        1
    } else {
        0
    };
    proof {
        assert(spec_line_digits(s@) =~= s@.subrange(start as int, n as int));
    }
    if start == n {
        return None;
    }
    let ghost digits = spec_line_digits(s@);
    let mut acc: usize = 0;
    let mut i: usize = start;
    while i < n
        invariant
            start <= i <= n,
            start <= 1,
            n == s@.len(),
            n > start,
            digits == spec_line_digits(s@),
            digits == s@.subrange(start as int, n as int),
            forall|j: int| start <= j < i ==> 48 <= #[trigger] s@[j] as int <= 57,
            acc == spec_digits_value(s@.subrange(start as int, i as int)),
        decreases n - i,
    {
        let c = s.get_char(i);
        if !(c >= '0' && c <= '9') {
            proof {
                assert(digits[i - start as int] == s@[i as int]);
            }
            return None;
        }
        let dig: usize = (c as u8 - 48) as usize;
        if acc > (usize::MAX - dig) / 10 {
            proof {
                let p = s@.subrange(start as int, i as int);
                let q = s@.subrange(start as int, i as int + 1);
                assert(q.drop_last() =~= p);
                assert(q.last() == s@[i as int]);
                assert(spec_digits_value(q) == spec_digits_value(p) * 10 + dig);
                assert(spec_digits_value(q) > usize::MAX) by (nonlinear_arith)
                    requires
                        spec_digits_value(q) == spec_digits_value(p) * 10 + dig,
                        spec_digits_value(p) > (usize::MAX - dig) / 10,
                        0 <= dig <= 9,
                ;
                if spec_is_digits(digits) {
                    assert(digits.subrange(0, i - start as int + 1) =~= q);
                    lemma_digits_value_grows(digits, i - start as int + 1);
                }
            }
            return None;
        }
        proof {
            assert(acc * 10 + dig <= usize::MAX) by (nonlinear_arith)
                requires
                    0 <= acc <= (usize::MAX - dig) / 10,
                    0 <= dig <= 9,
            ;
            let p = s@.subrange(start as int, i as int);
            let q = s@.subrange(start as int, i as int + 1);
            assert(q.drop_last() =~= p);
            assert(q.last() == s@[i as int]);
        }
        acc = acc * 10 + dig;
        i = i + 1;
    }
    proof {
        assert(s@.subrange(start as int, n as int) =~= digits);
        assert(spec_is_digits(digits));
    }
    Some(acc)
}

/// A verbosity token: a dash followed by one or more `v`s.
pub open spec fn spec_verbosity_token(t: Seq<char>) -> bool {
    t.len() >= 2 && t[0] == '-' && (forall|i: int| 1 <= i < t.len() ==> #[trigger] t[i] == 'v')
}

/// The two spellings of the line-number flag.
pub open spec fn spec_line_flag(t: Seq<char>) -> bool {
    t == "--line-no"@ || t == "-+"@
}

/// A token that looks like a flag: a dash with anything after it.
pub open spec fn spec_dash_token(t: Seq<char>) -> bool {
    t.len() >= 2 && t[0] == '-'
}

/// Addition capped at the top of the verbosity counter.
pub open spec fn spec_add_saturating(verb: int, k: int) -> int {
    if verb + k > 0xFFFF_FFFF_FFFF_FFFF {
        0xFFFF_FFFF_FFFF_FFFF
    } else {
        verb + k
    }
}

/// The parse of a token list, from an accumulated state: verbosity so far,
/// files so far, line number so far. A rejected token carries its text out.
pub open spec fn spec_parse_args(
    verb: int,
    files: Seq<Seq<char>>,
    line: Option<usize>,
    toks: Seq<Seq<char>>,
) -> Result<(int, Seq<Seq<char>>, Option<usize>), Seq<char>>
    decreases toks.len(),
{
    if toks.len() == 0 {
        Ok((verb, files, line))
    } else if spec_verbosity_token(toks[0]) {
        spec_parse_args(
            spec_add_saturating(verb, toks[0].len() - 1),
            files,
            line,
            toks.drop_first(),
        )
    } else if spec_line_flag(toks[0]) {
        if toks.len() >= 2 {
            spec_parse_args(
                verb,
                files,
                spec_parsed_line_no(toks[1]),
                toks.drop_first().drop_first(),
            )
        } else {
            Err(toks[0])
        }
    } else if spec_dash_token(toks[0]) {
        Err(toks[0])
    } else {
        spec_parse_args(verb, files.push(toks[0]), line, toks.drop_first())
    }
}

/// The views of a list of strings.
pub open spec fn strs_view(v: Seq<String>) -> Seq<Seq<char>> {
    v.map_values(|s: String| s@)
}

/// Decides whether a token is a verbosity token.
fn is_verbosity_token(t: &str) -> (r: bool)
    ensures
        r == spec_verbosity_token(t@),
{
    let n = t.unicode_len();
    if n < 2 {
        return false;
    }
    if t.get_char(0) != '-' {
        return false;
    }
    let mut i: usize = 1;
    while i < n
        invariant
            1 <= i <= n,
            n == t@.len(),
            n >= 2,
            t@[0] == '-',
            forall|j: int| 1 <= j < i ==> #[trigger] t@[j] == 'v',
        decreases n - i,
    {
        if t.get_char(i) != 'v' {
            return false;
        }
        i = i + 1;
    }
    true
}

/// Decides whether a token looks like a flag.
fn is_dash_token(t: &str) -> (r: bool)
    ensures
        r == spec_dash_token(t@),
{
    let n = t.unicode_len();
    if n < 2 {
        false
    } else {
        t.get_char(0) == '-'
    }
}

impl Args {
    /// Parses the tokens after the program name.
    pub fn parse_args(tokens: Vec<String>) -> (r: Result<Args, ArgsError>)
        ensures
            match r {
                Ok(args) => spec_parse_args(
                    0,
                    Seq::<Seq<char>>::empty(),
                    None,
                    strs_view(tokens@),
                ) == Ok::<_, Seq<char>>(
                    (args.verbosity as int, strs_view(args.files@), args.open_at_line_no),
                ),
                Err(e) => match e {
                    ArgsError::UnrecognizedFlag { token } => spec_parse_args(
                        0,
                        Seq::<Seq<char>>::empty(),
                        None,
                        strs_view(tokens@),
                    ) == Err::<(int, Seq<Seq<char>>, Option<usize>), _>(token@) && spec_dash_token(
                        token@,
                    ) && !spec_line_flag(token@) && !spec_verbosity_token(token@),
                    ArgsError::MissingFlagValue { flag } => spec_parse_args(
                        0,
                        Seq::<Seq<char>>::empty(),
                        None,
                        strs_view(tokens@),
                    ) == Err::<(int, Seq<Seq<char>>, Option<usize>), _>(flag@) && spec_line_flag(
                        flag@,
                    ),
                },
            },
    {
        let ghost toks = strs_view(tokens@);
        let mut verbosity: u64 = 0;
        let mut files: Vec<String> = Vec::new();
        let mut line: Option<usize> = None;
        let mut i: usize = 0;
        proof {
            assert(toks.subrange(i as int, toks.len() as int) =~= toks);
            assert(strs_view(files@) =~= Seq::<Seq<char>>::empty());
        }
        while i < tokens.len()
            invariant
                i <= tokens@.len(),
                toks == strs_view(tokens@),
                spec_parse_args(0, Seq::<Seq<char>>::empty(), None, toks) == spec_parse_args(
                    verbosity as int,
                    strs_view(files@),
                    line,
                    toks.subrange(i as int, toks.len() as int),
                ),
            decreases tokens@.len() - i,
        {
            let ghost rest = toks.subrange(i as int, toks.len() as int);
            let ghost verb0 = verbosity as int;
            let ghost fv0 = strs_view(files@);
            let ghost line0 = line;
            proof {
                assert(rest[0] == toks[i as int]);
                assert(toks[i as int] == tokens@[i as int]@);
            }
            let t = &tokens[i];
            if is_verbosity_token(t.as_str()) {
                let n = t.unicode_len();
                let add = (n - 1) as u64;
                if verbosity > 0xFFFF_FFFF_FFFF_FFFF - add {
                    verbosity = 0xFFFF_FFFF_FFFF_FFFF;
                } else {
                    verbosity = verbosity + add;
                }
                proof {
                    assert(rest.drop_first() =~= toks.subrange(i as int + 1, toks.len() as int));
                    assert(verbosity as int == spec_add_saturating(verb0, rest[0].len() - 1));
                    assert(spec_parse_args(verb0, fv0, line0, rest) == spec_parse_args(
                        spec_add_saturating(verb0, rest[0].len() - 1),
                        fv0,
                        line0,
                        rest.drop_first(),
                    ));
                }
                i = i + 1;
            } else if str_eq(t.as_str(), "--line-no") || str_eq(t.as_str(), "-+") {
                if i + 1 < tokens.len() {
                    line = parse_line_number(tokens[i + 1].as_str());
                    proof {
                        assert(rest.len() >= 2);
                        assert(rest[1] == toks[i as int + 1]);
                        assert(toks[i as int + 1] == tokens@[i as int + 1]@);
                        assert(rest.drop_first().drop_first() =~= toks.subrange(
                            i as int + 2,
                            toks.len() as int,
                        ));
                        assert(spec_parse_args(verb0, fv0, line0, rest) == spec_parse_args(
                            verb0,
                            fv0,
                            spec_parsed_line_no(rest[1]),
                            rest.drop_first().drop_first(),
                        ));
                    }
                    i = i + 2;
                } else {
                    proof {
                        assert(rest.len() == 1);
                        assert(spec_parse_args(verb0, fv0, line0, rest)
                            == Err::<(int, Seq<Seq<char>>, Option<usize>), _>(rest[0]));
                    }
                    return Err(ArgsError::MissingFlagValue { flag: t.clone() });
                }
            } else if is_dash_token(t.as_str()) {
                proof {
                    assert(spec_parse_args(verb0, fv0, line0, rest)
                        == Err::<(int, Seq<Seq<char>>, Option<usize>), _>(rest[0]));
                }
                return Err(ArgsError::UnrecognizedFlag { token: t.clone() });
            } else {
                files.push(t.clone());
                proof {
                    assert(strs_view(files@) =~= fv0.push(rest[0]));
                    assert(rest.drop_first() =~= toks.subrange(i as int + 1, toks.len() as int));
                    assert(spec_parse_args(verb0, fv0, line0, rest) == spec_parse_args(
                        verb0,
                        fv0.push(rest[0]),
                        line0,
                        rest.drop_first(),
                    ));
                }
                i = i + 1;
            }
        }
        proof {
            assert(toks.subrange(i as int, toks.len() as int) =~= Seq::<Seq<char>>::empty());
        }
        Ok(Args { verbosity, files, open_at_line_no: line })
    }
}

} // verus!
