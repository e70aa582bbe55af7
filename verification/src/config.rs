//! The one configuration value the crawler reads: the cap on the visited
//! set, handed in as an optional textual setting and validated once.

use vstd::prelude::*;

verus! {

/// The cap used when the setting is absent or unparsable.
pub const DEFAULT_URL_LIMIT: usize = 50;

/// Whether `c` is a decimal digit.
pub open spec fn is_dec_digit(c: char) -> bool {
    48 <= c as u32 && c as u32 <= 57
}

/// The numeric value of a decimal digit.
pub open spec fn digit_val(c: char) -> nat {
    ((c as u32) - 48) as nat
}

/// Whether every character of `s` is a decimal digit.
pub open spec fn all_digits(s: Seq<char>) -> bool {
    forall|i: int| 0 <= i < s.len() ==> is_dec_digit(#[trigger] s[i])
}

/// The value of `s` read as a decimal numeral.
pub open spec fn dec_val(s: Seq<char>) -> nat
    decreases s.len(),
{
    if s.len() == 0 {
        0
    } else {
        dec_val(s.drop_last()) * 10 + digit_val(s.last())
    }
}

/// What `str::parse::<usize>` accepts: an optional leading `+`, then one or
/// more decimal digits, whose value fits in `usize`.
pub open spec fn spec_parse_usize(s: Seq<char>) -> Option<nat> {
    let body = if s.len() > 0 && s[0] == '+' {
        s.subrange(1, s.len() as int)
    } else {
        s
    };
    if body.len() > 0 && all_digits(body) && dec_val(body) <= usize::MAX {
        Some(dec_val(body))
    } else {
        None
    }
}

/// The visited-set cap that a textual setting yields: its numeric value
/// where it parses, and `DEFAULT_URL_LIMIT` where it is absent or does not.
pub open spec fn spec_effective_limit(setting: Option<Seq<char>>) -> usize {
    match setting {
        Some(s) => match spec_parse_usize(s) {
            Some(n) => n as usize,
            None => DEFAULT_URL_LIMIT,
        },
        None => DEFAULT_URL_LIMIT,
    }
}

/// Extending a numeral by one digit multiplies its value by ten and adds
/// the digit.
proof fn lemma_dec_val_push(s: Seq<char>, c: char)
    ensures
        dec_val(s.push(c)) == dec_val(s) * 10 + digit_val(c),
{
    assert(s.push(c).drop_last() =~= s);
    assert(s.push(c).last() == c);
}

/// A numeral's value is at least the value of any of its prefixes.
proof fn lemma_dec_val_prefix_le(s: Seq<char>, k: int)
    requires
        0 <= k <= s.len(),
    ensures
        dec_val(s.subrange(0, k)) <= dec_val(s),
    decreases s.len() - k,
{
    if k == s.len() {
        assert(s.subrange(0, k) =~= s);
    } else {
        let p = s.subrange(0, k);
        let q = s.subrange(0, k + 1);
        assert(q =~= p.push(s[k]));
        lemma_dec_val_push(p, s[k]);
        assert(dec_val(p) * 10 >= dec_val(p) * 1) by (nonlinear_arith);
        lemma_dec_val_prefix_le(s, k + 1);
    }
}

/// Reads a `usize` from decimal text, accepting exactly what
/// `str::parse::<usize>` accepts.
pub fn parse_usize(s: &str) -> (r: Option<usize>)
    ensures
        match spec_parse_usize(s@) {
            Some(n) => r == Some(n as usize),
            None => r is None,
        },
{
    let n = s.unicode_len();
    let start: usize = if n > 0 && s.get_char(0) == '+' {
        1
    } else {
        0
    };
    let ghost body = s@.subrange(start as int, n as int);
    if start >= n {
        return None;
    }
    let mut i: usize = start;
    let mut acc: usize = 0;
    proof {
        if start == 0 {
            assert(body =~= s@);
        }
        assert(s@.subrange(start as int, start as int) =~= Seq::<char>::empty());
    }
    while i < n
        invariant
            start <= i <= n,
            n == s@.len(),
            body == s@.subrange(start as int, n as int),
            all_digits(s@.subrange(start as int, i as int)),
            acc == dec_val(s@.subrange(start as int, i as int)),
            spec_parse_usize(s@) == (if body.len() > 0 && all_digits(body) && dec_val(body)
                <= usize::MAX {
                Some(dec_val(body))
            } else {
                None::<nat>
            }),
        decreases n - i,
    {
        let c = s.get_char(i);
        let cu = c as u32;
        let ghost pre = s@.subrange(start as int, i as int);
        proof {
            assert(s@.subrange(start as int, i as int + 1) =~= pre.push(s@[i as int]));
            lemma_dec_val_push(pre, s@[i as int]);
            assert(pre =~= body.subrange(0, i - start));
            assert(s@.subrange(start as int, i as int + 1) =~= body.subrange(0, i + 1 - start));
        }
        if cu < 48 || cu > 57 {
            // a non-digit inside the body makes the whole string unparsable
            return None;
        }
        let d = (cu - 48) as usize;
        if acc > usize::MAX / 10 {
            proof {
                assert(acc * 10 > usize::MAX) by (nonlinear_arith)
                    requires
                        acc > usize::MAX / 10,
                ;
                overflow_case(body, i + 1 - start, acc * 10 + d);
            }
            return None;
        }
        proof {
            assert(acc * 10 <= (usize::MAX / 10) * 10) by (nonlinear_arith)
                requires
                    acc <= usize::MAX / 10,
            ;
        }
        let shifted = acc * 10;
        if d > usize::MAX - shifted {
            proof {
                overflow_case(body, i + 1 - start, acc * 10 + d);
            }
            return None;
        }
        acc = shifted + d;
        proof {
            let ext = s@.subrange(start as int, i as int + 1);
            assert forall|j: int| 0 <= j < ext.len() implies is_dec_digit(#[trigger] ext[j]) by {
                if j < pre.len() {
                    assert(ext[j] == pre[j]);
                } else {
                    assert(ext[j] == s@[i as int]);
                }
            }
        }
        i = i + 1;
    }
    proof {
        assert(s@.subrange(start as int, i as int) =~= body);
    }
    Some(acc)
}

/// When some prefix of the body already exceeds `usize::MAX`, the whole
/// numeral does, so parsing fails.
proof fn overflow_case(body: Seq<char>, k: int, prefix_val: int)
    requires
        0 <= k <= body.len(),
        dec_val(body.subrange(0, k)) == prefix_val,
        prefix_val > usize::MAX,
    ensures
        dec_val(body) > usize::MAX,
{
    lemma_dec_val_prefix_le(body, k);
}

/// The visited-set cap for a crawl: the setting's value where it parses as
/// a `usize`, and `DEFAULT_URL_LIMIT` where it is absent or does not.
pub fn effective_limit(setting: Option<&str>) -> (r: usize)
    ensures
        r == spec_effective_limit(match setting {
            Some(s) => Some(s@),
            None => None,
        }),
{
    match setting {
        Some(s) => match parse_usize(s) {
            Some(n) => n,
            None => DEFAULT_URL_LIMIT,
        },
        None => DEFAULT_URL_LIMIT,
    }
}

} // verus!
