//! The command-line surface of the generator: a small argument grammar with
//! `-m`/`--min` and `-x`/`--max` flags, one positional count, and defaults
//! `min = 0`, `max = 100`, `numbers = 1`.

use vstd::prelude::*;

verus! {

/// The ways an argument list can be rejected.
#[derive(Debug, PartialEq, Eq, Structural)]
pub enum ParseError {
    /// The argument list is empty: even the program name is missing.
    MissingProgramName,
    /// A token starts with `-` but is not one of the known flags.
    UnknownOption,
    /// A flag stands last, with no token left to be its value.
    MissingValue,
    /// A value is not a decimal number, or does not fit its field.
    InvalidValue,
}

/// A decimal digit.
pub open spec fn is_digit(c: char) -> bool {
    48 <= c as u32 <= 57
}

/// The value a digit stands for, counted from `'0'`.
pub open spec fn digit_val(c: char) -> int {
    c as u32 - 48
}

/// A non-empty string of decimal digits.
pub open spec fn is_dec(s: Seq<char>) -> bool {
    s.len() > 0 && forall|i: int| 0 <= i < s.len() ==> is_digit(#[trigger] s[i])
}

/// The number a digit string stands for, most significant digit first.
pub open spec fn dec_val(s: Seq<char>) -> int
    decreases s.len(),
{
    if s.len() == 0 {
        0
    } else {
        10 * dec_val(s.drop_last()) + digit_val(s.last())
    }
}

/// What parsing an unsigned 64-bit value returns: the number a string of
/// digits stands for, if there is one and it fits.
pub open spec fn parse_u64_spec(s: Seq<char>) -> Option<u64> {
    if is_dec(s) && dec_val(s) <= u64::MAX {
        Some(dec_val(s) as u64)
    } else {
        None
    }
}

/// The same for a count, which must fit the platform's size type.
pub open spec fn parse_usize_spec(s: Seq<char>) -> Option<usize> {
    if is_dec(s) && dec_val(s) <= usize::MAX {
        Some(dec_val(s) as usize)
    } else {
        None
    }
}

/// Reading one more digit multiplies the value so far by ten and adds it.
proof fn lemma_dec_val_take_succ(s: Seq<char>, i: int)
    requires
        0 <= i < s.len(),
    ensures
        dec_val(s.take(i + 1)) == 10 * dec_val(s.take(i)) + digit_val(s[i]),
{
    assert(s.take(i + 1).drop_last() =~= s.take(i));
    assert(s.take(i + 1).last() == s[i]);
}

/// A digit string stands for a non-negative number.
proof fn lemma_dec_val_nonneg(s: Seq<char>)
    requires
        forall|i: int| 0 <= i < s.len() ==> is_digit(#[trigger] s[i]),
    ensures
        dec_val(s) >= 0,
    decreases s.len(),
{
    if s.len() > 0 {
        assert(forall|i: int|
            0 <= i < s.drop_last().len() ==> is_digit(#[trigger] s.drop_last()[i]));
        lemma_dec_val_nonneg(s.drop_last());
    }
}

/// In a digit string, the value of a prefix never exceeds the whole value.
proof fn lemma_dec_val_prefix_le(s: Seq<char>, i: int)
    requires
        0 <= i <= s.len(),
        forall|j: int| 0 <= j < s.len() ==> is_digit(#[trigger] s[j]),
    ensures
        dec_val(s.take(i)) <= dec_val(s),
    decreases s.len() - i,
{
    if i < s.len() {
        lemma_dec_val_take_succ(s, i);
        assert(forall|j: int| 0 <= j < s.take(i).len() ==> is_digit(#[trigger] s.take(i)[j]));
        lemma_dec_val_nonneg(s.take(i));
        lemma_dec_val_prefix_le(s, i + 1);
    } else {
        assert(s.take(i) =~= s);
    }
}

/// Parse a non-empty string of decimal digits as an unsigned 64-bit value.
pub fn parse_u64(s: &str) -> (r: Option<u64>)
    ensures
        r == parse_u64_spec(s@),
{
    let n = s.unicode_len();
    if n == 0 {
        return None;
    }
    let mut i: usize = 0;
    let mut acc: u64 = 0;
    while i < n
        invariant
            0 < n == s@.len(),
            i <= n,
            forall|j: int| 0 <= j < i ==> is_digit(#[trigger] s@[j]),
            acc == dec_val(s@.take(i as int)),
        decreases n - i,
    {
        let c = s.get_char(i);
        let d = c as u32;
        if d < 48 || d > 57 {
            return None;
        }
        let dv = (d - 48) as u64;
        proof {
            lemma_dec_val_take_succ(s@, i as int);
        }
        if acc > u64::MAX / 10 || (acc == u64::MAX / 10 && dv > u64::MAX % 10) {
            proof {
                if is_dec(s@) {
                    lemma_dec_val_prefix_le(s@, i as int + 1);
                }
            }
            return None;
        }
        acc = acc * 10 + dv;
        i += 1;
    }
    proof {
        assert(s@.take(n as int) =~= s@);
    }
    Some(acc)
}

/// Parse a non-empty string of decimal digits as a count.
pub fn parse_usize(s: &str) -> (r: Option<usize>)
    ensures
        r == parse_usize_spec(s@),
{
    proof {
        assert(usize::MAX <= u64::MAX);
        if is_dec(s@) {
            lemma_dec_val_nonneg(s@);
        }
    }
    match parse_u64(s) {
        Some(v) => {
            if v <= usize::MAX as u64 {
                Some(v as usize)
            } else {
                None
            }
        },
        None => None,
    }
}

/// A token of the shape `-m=VALUE`.
pub open spec fn min_short_inline(t: Seq<char>) -> bool {
    t.len() >= 3 && t[0] == '-' && t[1] == 'm' && t[2] == '='
}

/// A token of the shape `--min=VALUE`.
pub open spec fn min_long_inline(t: Seq<char>) -> bool {
    t.len() >= 6 && t[0] == '-' && t[1] == '-' && t[2] == 'm' && t[3] == 'i' && t[4] == 'n'
        && t[5] == '='
}

/// The token `-m` or `--min` alone: its value is the next token.
pub open spec fn min_flag_word(t: Seq<char>) -> bool {
    (t.len() == 2 && t[0] == '-' && t[1] == 'm') || (t.len() == 5 && t[0] == '-' && t[1] == '-'
        && t[2] == 'm' && t[3] == 'i' && t[4] == 'n')
}

/// A token of the shape `-x=VALUE`.
pub open spec fn max_short_inline(t: Seq<char>) -> bool {
    t.len() >= 3 && t[0] == '-' && t[1] == 'x' && t[2] == '='
}

/// A token of the shape `--max=VALUE`.
pub open spec fn max_long_inline(t: Seq<char>) -> bool {
    t.len() >= 6 && t[0] == '-' && t[1] == '-' && t[2] == 'm' && t[3] == 'a' && t[4] == 'x'
        && t[5] == '='
}

/// The token `-x` or `--max` alone: its value is the next token.
pub open spec fn max_flag_word(t: Seq<char>) -> bool {
    (t.len() == 2 && t[0] == '-' && t[1] == 'x') || (t.len() == 5 && t[0] == '-' && t[1] == '-'
        && t[2] == 'm' && t[3] == 'a' && t[4] == 'x')
}

/// The value part of an inline flag token: what follows the `=`.
pub open spec fn inline_value(t: Seq<char>) -> Seq<char> {
    if t.len() >= 2 && t[1] == '-' {
        t.skip(6)
    } else {
        t.skip(3)
    }
}

/// What parsing the tokens after the program name returns, token by token,
/// with `acc` holding the fields read so far. A flag read twice keeps its
/// last value, and so does the positional count.
pub open spec fn parse_args_rec(toks: Seq<Seq<char>>, acc: crate::rng_generator::RngGenerator)
    -> Result<crate::rng_generator::RngGenerator, ParseError>
    decreases toks.len(),
{
    if toks.len() == 0 {
        Ok(acc)
    } else {
        let t = toks[0];
        if min_short_inline(t) || min_long_inline(t) {
            match parse_u64_spec(inline_value(t)) {
                Some(v) => parse_args_rec(
                    toks.skip(1),
                    (crate::rng_generator::RngGenerator {
                        min: v,
                        max: acc.max,
                        numbers: acc.numbers,
                    }),
                ),
                None => Err(ParseError::InvalidValue),
            }
        } else if max_short_inline(t) || max_long_inline(t) {
            match parse_u64_spec(inline_value(t)) {
                Some(v) => parse_args_rec(
                    toks.skip(1),
                    (crate::rng_generator::RngGenerator {
                        min: acc.min,
                        max: v,
                        numbers: acc.numbers,
                    }),
                ),
                None => Err(ParseError::InvalidValue),
            }
        } else if min_flag_word(t) {
            if toks.len() < 2 {
                Err(ParseError::MissingValue)
            } else {
                match parse_u64_spec(toks[1]) {
                    Some(v) => parse_args_rec(
                        toks.skip(2),
                        (crate::rng_generator::RngGenerator {
                            min: v,
                            max: acc.max,
                            numbers: acc.numbers,
                        }),
                    ),
                    None => Err(ParseError::InvalidValue),
                }
            }
        } else if max_flag_word(t) {
            if toks.len() < 2 {
                Err(ParseError::MissingValue)
            } else {
                match parse_u64_spec(toks[1]) {
                    Some(v) => parse_args_rec(
                        toks.skip(2),
                        (crate::rng_generator::RngGenerator {
                            min: acc.min,
                            max: v,
                            numbers: acc.numbers,
                        }),
                    ),
                    None => Err(ParseError::InvalidValue),
                }
            }
        } else if t.len() >= 1 && t[0] == '-' {
            Err(ParseError::UnknownOption)
        } else {
            match parse_usize_spec(t) {
                Some(v) => parse_args_rec(
                    toks.skip(1),
                    (crate::rng_generator::RngGenerator {
                        min: acc.min,
                        max: acc.max,
                        numbers: v,
                    }),
                ),
                None => Err(ParseError::InvalidValue),
            }
        }
    }
}

/// What parsing a whole argument list returns: the first token is the
/// program name; the rest fill a request that starts from the defaults.
pub open spec fn parse_args_spec(args: Seq<Seq<char>>)
    -> Result<crate::rng_generator::RngGenerator, ParseError> {
    if args.len() == 0 {
        Err(ParseError::MissingProgramName)
    } else {
        parse_args_rec(
            args.skip(1),
            (crate::rng_generator::RngGenerator { min: 0, max: 100, numbers: 1 }),
        )
    }
}

fn tok_min_short_inline(t: &str) -> (b: bool)
    ensures
        b == min_short_inline(t@),
{
    t.unicode_len() >= 3 && t.get_char(0) == '-' && t.get_char(1) == 'm' && t.get_char(2) == '='
}

fn tok_min_long_inline(t: &str) -> (b: bool)
    ensures
        b == min_long_inline(t@),
{
    t.unicode_len() >= 6 && t.get_char(0) == '-' && t.get_char(1) == '-' && t.get_char(2) == 'm'
        && t.get_char(3) == 'i' && t.get_char(4) == 'n' && t.get_char(5) == '='
}

fn tok_min_flag_word(t: &str) -> (b: bool)
    ensures
        b == min_flag_word(t@),
{
    let n = t.unicode_len();
    (n == 2 && t.get_char(0) == '-' && t.get_char(1) == 'm') || (n == 5 && t.get_char(0) == '-'
        && t.get_char(1) == '-' && t.get_char(2) == 'm' && t.get_char(3) == 'i' && t.get_char(4)
        == 'n')
}

fn tok_max_short_inline(t: &str) -> (b: bool)
    ensures
        b == max_short_inline(t@),
{
    t.unicode_len() >= 3 && t.get_char(0) == '-' && t.get_char(1) == 'x' && t.get_char(2) == '='
}

fn tok_max_long_inline(t: &str) -> (b: bool)
    ensures
        b == max_long_inline(t@),
{
    t.unicode_len() >= 6 && t.get_char(0) == '-' && t.get_char(1) == '-' && t.get_char(2) == 'm'
        && t.get_char(3) == 'a' && t.get_char(4) == 'x' && t.get_char(5) == '='
}

fn tok_max_flag_word(t: &str) -> (b: bool)
    ensures
        b == max_flag_word(t@),
{
    let n = t.unicode_len();
    (n == 2 && t.get_char(0) == '-' && t.get_char(1) == 'x') || (n == 5 && t.get_char(0) == '-'
        && t.get_char(1) == '-' && t.get_char(2) == 'm' && t.get_char(3) == 'a' && t.get_char(4)
        == 'x')
}

/// The `VALUE` part of an inline flag token, as a slice of the token.
fn tok_inline_value<'a>(t: &'a str) -> (r: &'a str)
    requires
        min_short_inline(t@) || min_long_inline(t@) || max_short_inline(t@) || max_long_inline(
            t@,
        ),
    ensures
        r@ == inline_value(t@),
{
    let n = t.unicode_len();
    if t.get_char(1) == '-' {
        let r = t.substring_char(6, n);
        proof {
            assert(r@ =~= inline_value(t@));
        }
        r
    } else {
        let r = t.substring_char(3, n);
        proof {
            assert(r@ =~= inline_value(t@));
        }
        r
    }
}

impl crate::rng_generator::RngGenerator {
    /// Parse an argument list, program name first: `-m`/`--min` and
    /// `-x`/`--max` take an unsigned value, inline after `=` or in the next
    /// token; a bare token is the positional count; missing pieces keep
    /// their defaults, `min = 0`, `max = 100`, `numbers = 1`.
    pub fn try_parse_from(args: Vec<String>) -> (r: Result<Self, ParseError>)
        ensures
            r == parse_args_spec(args.deep_view()),
    {
        let ghost toks: Seq<Seq<char>> = args.deep_view();
        if args.len() == 0 {
            return Err(ParseError::MissingProgramName);
        }
        let mut cur = Self { min: 0, max: 100, numbers: 1 };
        let mut i: usize = 1;
        while i < args.len()
            invariant
                1 <= i <= args.len(),
                toks == args.deep_view(),
                toks.len() == args.len(),
                parse_args_rec(toks.skip(i as int), cur) == parse_args_spec(toks),
            decreases args.len() - i,
        {
            proof {
                assert(toks[i as int] == args@[i as int]@);
                assert(toks.skip(i as int)[0] == toks[i as int]);
                assert(toks.skip(i as int).skip(1) =~= toks.skip(i as int + 1));
            }
            let t: &str = args[i].as_str();
            if tok_min_short_inline(t) || tok_min_long_inline(t) {
                match parse_u64(tok_inline_value(t)) {
                    Some(v) => {
                        cur = Self { min: v, max: cur.max, numbers: cur.numbers };
                        i += 1;
                    },
                    None => {
                        return Err(ParseError::InvalidValue);
                    },
                }
            } else if tok_max_short_inline(t) || tok_max_long_inline(t) {
                match parse_u64(tok_inline_value(t)) {
                    Some(v) => {
                        cur = Self { min: cur.min, max: v, numbers: cur.numbers };
                        i += 1;
                    },
                    None => {
                        return Err(ParseError::InvalidValue);
                    },
                }
            } else if tok_min_flag_word(t) {
                if i + 1 >= args.len() {
                    return Err(ParseError::MissingValue);
                }
                proof {
                    assert(toks[i as int + 1] == args@[i as int + 1]@);
                    assert(toks.skip(i as int)[1] == toks[i as int + 1]);
                    assert(toks.skip(i as int).skip(2) =~= toks.skip(i as int + 2));
                }
                match parse_u64(args[i + 1].as_str()) {
                    Some(v) => {
                        cur = Self { min: v, max: cur.max, numbers: cur.numbers };
                        i += 2;
                    },
                    None => {
                        return Err(ParseError::InvalidValue);
                    },
                }
            } else if tok_max_flag_word(t) {
                if i + 1 >= args.len() {
                    return Err(ParseError::MissingValue);
                }
                proof {
                    assert(toks[i as int + 1] == args@[i as int + 1]@);
                    assert(toks.skip(i as int)[1] == toks[i as int + 1]);
                    assert(toks.skip(i as int).skip(2) =~= toks.skip(i as int + 2));
                }
                match parse_u64(args[i + 1].as_str()) {
                    Some(v) => {
                        cur = Self { min: cur.min, max: v, numbers: cur.numbers };
                        i += 2;
                    },
                    None => {
                        return Err(ParseError::InvalidValue);
                    },
                }
            } else if t.unicode_len() >= 1 && t.get_char(0) == '-' {
                return Err(ParseError::UnknownOption);
            } else {
                match parse_usize(t) {
                    Some(v) => {
                        cur = Self { min: cur.min, max: cur.max, numbers: v };
                        i += 1;
                    },
                    None => {
                        return Err(ParseError::InvalidValue);
                    },
                }
            }
        }
        proof {
            assert(toks.skip(i as int) =~= Seq::<Seq<char>>::empty());
        }
        Ok(cur)
    }

    /// Parse an argument list that is known to be well-formed; the one
    /// entry point whose caller must already hold a successful parse.
    pub fn parse_from(args: Vec<String>) -> (r: Self)
        requires
            parse_args_spec(args.deep_view()) is Ok,
        ensures
            Ok::<Self, ParseError>(r) == parse_args_spec(args.deep_view()),
    {
        match Self::try_parse_from(args) {
            Ok(r) => r,
            Err(_) => vstd::pervasive::unreached(),
        }
    }
}

} // verus!

