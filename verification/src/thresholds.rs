//! Threshold vectors: parsing of a comma-separated list of 64-bit signed
//! integers into an ordered sequence, with a single-element default when no
//! list was given. A token that is not an integer, or one outside the 64-bit
//! signed range, is a checked configuration error.

use vstd::prelude::*;
use crate::status::CheckError;

verus! {

/// Whether `c` is a decimal digit.
pub open spec fn is_digit_char(c: char) -> bool {
    '0' as int <= c as int <= '9' as int
}

/// The value of a decimal digit.
pub open spec fn digit_val(c: char) -> nat {
    (c as int - '0' as int) as nat
}

/// The value of a string of decimal digits, most significant first.
pub open spec fn digits_value(s: Seq<char>) -> nat
    decreases s.len(),
{
    if s.len() == 0 {
        0
    } else {
        digits_value(s.drop_last()) * 10 + digit_val(s.last())
    }
}

/// Whether every character of `s` is a decimal digit.
pub open spec fn all_digits(s: Seq<char>) -> bool {
    forall|i: int| 0 <= i < s.len() ==> is_digit_char(#[trigger] s[i])
}

/// Whether `s` is an integer token: a non-empty digit string, optionally
/// preceded by a minus sign.
pub open spec fn valid_int_token(s: Seq<char>) -> bool {
    if s.len() > 0 && s[0] == '-' {
        s.len() > 1 && all_digits(s.skip(1))
    } else {
        s.len() > 0 && all_digits(s)
    }
}

/// The mathematical value of an integer token.
pub open spec fn token_value(s: Seq<char>) -> int {
    if s.len() > 0 && s[0] == '-' {
        -(digits_value(s.skip(1)) as int)
    } else {
        digits_value(s) as int
    }
}

/// Whether `s` is an integer token whose value fits in 64 signed bits.
pub open spec fn token_ok(s: Seq<char>) -> bool {
    valid_int_token(s) && i64::MIN <= token_value(s) <= i64::MAX
}

/// The substrings of `s` between commas, in order. A string without commas is
/// one token; every comma separates two (possibly empty) tokens, so the
/// result always holds at least one token.
pub open spec fn split_commas(s: Seq<char>) -> Seq<Seq<char>>
    decreases s.len(),
{
    if s.len() == 0 {
        seq![Seq::<char>::empty()]
    } else if s.last() == ',' {
        split_commas(s.drop_last()).push(Seq::<char>::empty())
    } else {
        let r = split_commas(s.drop_last());
        r.update(r.len() - 1, r.last().push(s.last()))
    }
}

/// Splitting yields at least one token.
pub proof fn lemma_split_commas_len(s: Seq<char>)
    ensures
        split_commas(s).len() >= 1,
    decreases s.len(),
{
    if s.len() > 0 {
        lemma_split_commas_len(s.drop_last());
    }
}

/// Whether every token of a split is an in-range integer token.
pub open spec fn tokens_ok(toks: Seq<Seq<char>>) -> bool {
    forall|i: int| 0 <= i < toks.len() ==> token_ok(#[trigger] toks[i])
}

/// The values of the tokens of a split, in order.
pub open spec fn token_values(toks: Seq<Seq<char>>) -> Seq<int> {
    toks.map_values(|t: Seq<char>| token_value(t))
}

/// The views of a vector of character vectors.
pub open spec fn views_of(toks: Seq<Vec<char>>) -> Seq<Seq<char>> {
    toks.map_values(|t: Vec<char>| t@)
}

/// A digit string's value only grows as digits are appended: the value of a
/// prefix is a lower bound for the value of the whole.
proof fn lemma_digits_value_prefix(s: Seq<char>, j: int)
    requires
        0 <= j <= s.len(),
    ensures
        digits_value(s.take(j)) <= digits_value(s),
    decreases s.len(),
{
    if j < s.len() {
        assert(s.drop_last().take(j) =~= s.take(j));
        lemma_digits_value_prefix(s.drop_last(), j);
    } else {
        assert(s.take(j) =~= s);
    }
}

/// Parse one token as a 64-bit signed integer. The parse succeeds exactly on
/// the in-range integer tokens; any other token is a configuration error.
pub fn parse_i64(tok: &Vec<char>) -> (r: Result<i64, CheckError>)
    ensures
        token_ok(tok@) ==> r is Ok && r->Ok_0 as int == token_value(tok@),
        !token_ok(tok@) ==> r == Err::<i64, CheckError>(CheckError::InvalidThreshold),
{
    let n = tok.len();
    if n == 0 {
        return Err(CheckError::InvalidThreshold);
    }
    let neg = tok[0] == '-';
    let start: usize = if neg { 1 } else { 0 };
    if neg && n == 1 {
        return Err(CheckError::InvalidThreshold);
    }
    let ghost digits: Seq<char> = tok@.skip(start as int);
    proof {
        if !neg {
            assert(digits =~= tok@);
        }
        assert(digits.take(0) =~= Seq::<char>::empty());
    }
    let mut mag: u64 = 0;
    let mut i: usize = start;
    while i < n
        invariant
            start <= i <= n == tok@.len(),
            start == (if neg { 1int } else { 0int }),
            neg ==> tok@[0] == '-',
            !neg ==> (tok@.len() > 0 && tok@[0] != '-' && digits == tok@),
            n > start,
            digits == tok@.skip(start as int),
            forall|j: int| 0 <= j < i - start ==> is_digit_char(#[trigger] digits[j]),
            mag == digits_value(digits.take(i - start)),
        decreases n - i,
    {
        let c = tok[i];
        proof {
            assert(digits[i - start] == tok@[i as int]);
        }
        if c < '0' || c > '9' {
            proof {
                assert(!is_digit_char(digits[i - start]));
                assert(!all_digits(digits));
            }
            return Err(CheckError::InvalidThreshold);
        }
        let d: u64 = (c as u32 - 48) as u64;
        proof {
            assert(is_digit_char(c));
            assert(d == digit_val(digits[i - start]));
            assert(digits.take(i - start + 1).drop_last() =~= digits.take(i - start));
            assert(digits.take(i - start + 1).last() == digits[i - start]);
            assert(digits_value(digits.take(i - start + 1)) == mag * 10 + d);
        }
        if mag > (18446744073709551615u64 - d) / 10 {
            proof {
                assert(mag * 10 + d > 18446744073709551615) by (nonlinear_arith)
                    requires
                        mag > (18446744073709551615u64 - d) / 10,
                        d <= 18446744073709551615,
                ;
                lemma_digits_value_prefix(digits, i - start + 1);
                assert(digits_value(digits) > 18446744073709551615);
                assert(!token_ok(tok@));
            }
            return Err(CheckError::InvalidThreshold);
        }
        mag = mag * 10 + d;
        i = i + 1;
    }
    proof {
        assert(digits.take(n - start) =~= digits);
        assert(all_digits(digits));
        assert(valid_int_token(tok@));
        assert(mag == digits_value(digits));
        if neg {
            assert(token_value(tok@) == -(digits_value(digits) as int));
        } else {
            assert(token_value(tok@) == digits_value(digits) as int);
        }
    }
    if neg {
        if mag > 9223372036854775808u64 {
            proof {
                assert(token_value(tok@) < i64::MIN);
            }
            return Err(CheckError::InvalidThreshold);
        }
        if mag == 9223372036854775808u64 {
            Ok(i64::MIN)
        } else {
            Ok(-(mag as i64))
        }
    } else {
        if mag > 9223372036854775807u64 {
            proof {
                assert(token_value(tok@) > i64::MAX);
            }
            return Err(CheckError::InvalidThreshold);
        }
        Ok(mag as i64)
    }
}

/// Split a configuration string at its commas into character-vector tokens.
pub fn split_commas_exec(s: &str) -> (toks: Vec<Vec<char>>)
    ensures
        views_of(toks@) == split_commas(s@),
{
    let n = s.unicode_len();
    let mut toks: Vec<Vec<char>> = Vec::new();
    let mut cur: Vec<char> = Vec::new();
    let mut i: usize = 0;
    proof {
        assert(s@.take(0) =~= Seq::<char>::empty());
        assert(views_of(toks@).push(cur@) =~~= split_commas(s@.take(0)));
    }
    while i < n
        invariant
            i <= n == s@.len(),
            views_of(toks@).push(cur@) == split_commas(s@.take(i as int)),
        decreases n - i,
    {
        let c = s.get_char(i);
        proof {
            assert(s@.take(i + 1).drop_last() =~= s@.take(i as int));
            assert(s@.take(i + 1).last() == s@[i as int]);
            lemma_split_commas_len(s@.take(i as int));
        }
        if c == ',' {
            toks.push(cur);
            cur = Vec::new();
            proof {
                assert(views_of(toks@).push(cur@) =~~= split_commas(s@.take(i + 1)));
            }
        } else {
            let ghost pre = split_commas(s@.take(i as int));
            cur.push(c);
            proof {
                assert(pre.update(pre.len() - 1, pre.last().push(s@[i as int])) =~~= views_of(
                    toks@,
                ).push(cur@));
            }
        }
        i = i + 1;
    }
    proof {
        assert(s@.take(n as int) =~= s@);
    }
    toks.push(cur);
    proof {
        assert(views_of(toks@) =~~= split_commas(s@));
    }
    toks
}

/// Parse a comma-separated threshold list. The parse succeeds exactly when
/// every token of the list is an in-range integer token, and then yields the
/// tokens' values in order.
pub fn parse_thresholds(s: &str) -> (r: Result<Vec<i64>, CheckError>)
    ensures
        tokens_ok(split_commas(s@)) ==> r is Ok && r->Ok_0@.map_values(|x: i64| x as int)
            == token_values(split_commas(s@)),
        !tokens_ok(split_commas(s@)) ==> r == Err::<Vec<i64>, CheckError>(
            CheckError::InvalidThreshold,
        ),
{
    let toks = split_commas_exec(s);
    let ghost spec_toks = split_commas(s@);
    let mut vals: Vec<i64> = Vec::new();
    let mut i: usize = 0;
    while i < toks.len()
        invariant
            i <= toks@.len(),
            views_of(toks@) == spec_toks,
            spec_toks == split_commas(s@),
            vals@.len() == i,
            forall|j: int| 0 <= j < i ==> token_ok(#[trigger] spec_toks[j]),
            forall|j: int| 0 <= j < i ==> #[trigger] vals@[j] as int == token_value(spec_toks[j]),
        decreases toks@.len() - i,
    {
        proof {
            assert(toks@[i as int]@ == spec_toks[i as int]);
        }
        match parse_i64(&toks[i]) {
            Ok(v) => {
                vals.push(v);
            },
            Err(e) => {
                proof {
                    assert(!token_ok(spec_toks[i as int]));
                }
                return Err(e);
            },
        }
        i = i + 1;
    }
    proof {
        assert(vals@.map_values(|x: i64| x as int) =~= token_values(spec_toks));
    }
    Ok(vals)
}

/// Parse an optional threshold list; when none was given, default to the
/// given single-element vector.
pub fn thresholds_or_default(opt: Option<&str>, default_value: i64) -> (r: Result<
    Vec<i64>,
    CheckError,
>)
    ensures
        match opt {
            None => r is Ok && r->Ok_0@ == seq![default_value],
            Some(s) => {
                &&& tokens_ok(split_commas(s@)) ==> r is Ok && r->Ok_0@.map_values(|x: i64| x as int)
                    == token_values(split_commas(s@))
                &&& !tokens_ok(split_commas(s@)) ==> r == Err::<Vec<i64>, CheckError>(
                    CheckError::InvalidThreshold,
                )
            },
        },
{
    match opt {
        None => {
            let mut vals: Vec<i64> = Vec::new();
            vals.push(default_value);
            proof {
                assert(vals@ =~= seq![default_value]);
            }
            Ok(vals)
        },
        Some(s) => parse_thresholds(s),
    }
}

} // verus!

