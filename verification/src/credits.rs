//! The credit count of a section: a non-negative decimal number, held
//! exactly as an integer mantissa and a decimal scale, so that
//! `mantissa / 10^scale` is the written value.  The grammar and the value
//! are specified exactly; parsing is verified against them.

use vstd::prelude::*;
use crate::text::{find_char, lemma_find_char_is, lemma_find_char_none};

verus! {

/// An ASCII decimal digit.
pub open spec fn is_digit(c: char) -> bool {
    48 <= c as u32 && c as u32 <= 57
}

/// The numeric value of a digit character.
pub open spec fn digit_val(c: char) -> nat {
    ((c as int) - 48) as nat
}

/// The integer read from the digits of `s` in order, ignoring dots.
pub open spec fn token_mantissa(s: Seq<char>) -> nat
    decreases s.len(),
{
    if s.len() == 0 {
        0
    } else if s.last() == '.' {
        token_mantissa(s.drop_last())
    } else {
        token_mantissa(s.drop_last()) * 10 + digit_val(s.last())
    }
}

/// How many dots `s` holds.
pub open spec fn count_dots(s: Seq<char>) -> nat
    decreases s.len(),
{
    if s.len() == 0 {
        0
    } else {
        count_dots(s.drop_last()) + if s.last() == '.' {
            1nat
        } else {
            0nat
        }
    }
}

/// The number of digits after the dot: the decimal scale of the token.
pub open spec fn token_scale(s: Seq<char>) -> nat {
    match find_char(s, '.') {
        None => 0,
        Some(i) => (s.len() - 1 - i) as nat,
    }
}

/// A well-formed non-negative decimal token: only digits and at most one
/// dot, and at least one digit.
pub open spec fn is_decimal_token(s: Seq<char>) -> bool {
    &&& s.len() > 0
    &&& forall|i: int| 0 <= i < s.len() ==> is_digit(s[i]) || s[i] == '.'
    &&& count_dots(s) <= 1
    &&& exists|i: int| 0 <= i < s.len() && is_digit(s[i])
}

/// A credit count: the decimal `mantissa / 10^scale`.
#[derive(Clone, Copy, PartialEq, Eq, Structural, Debug)]
pub struct Credits {
    pub mantissa: u64,
    pub scale: usize,
}

/// Dots in a prefix are no more than dots in the whole.
proof fn lemma_count_dots_prefix(s: Seq<char>, k: int)
    requires
        0 <= k <= s.len(),
    ensures
        count_dots(s.take(k)) <= count_dots(s),
    decreases s.len() - k,
{
    if k == s.len() {
        assert(s.take(k) =~= s);
    } else {
        assert(s.take(k + 1).drop_last() =~= s.take(k));
        assert(count_dots(s.take(k)) <= count_dots(s.take(k + 1)));
        lemma_count_dots_prefix(s, k + 1);
    }
}

/// The mantissa of a prefix is no more than the mantissa of the whole.
proof fn lemma_token_mantissa_prefix(s: Seq<char>, k: int)
    requires
        0 <= k <= s.len(),
    ensures
        token_mantissa(s.take(k)) <= token_mantissa(s),
    decreases s.len() - k,
{
    if k == s.len() {
        assert(s.take(k) =~= s);
    } else {
        assert(s.take(k + 1).drop_last() =~= s.take(k));
        let p = token_mantissa(s.take(k));
        assert(p * 10 == p + p * 9) by (nonlinear_arith);
        assert(p * 9 >= 0);
        assert(token_mantissa(s.take(k)) <= token_mantissa(s.take(k + 1)));
        lemma_token_mantissa_prefix(s, k + 1);
    }
}

/// Parse a credit token.  Returns the exact decimal value when the token is
/// a well-formed decimal whose mantissa fits in a `u64`, and nothing
/// otherwise.
pub fn parse_credits(token: &str) -> (r: Option<Credits>)
    ensures
        r is Some <==> is_decimal_token(token@) && token_mantissa(token@) <= u64::MAX,
        r matches Some(c) ==> c.mantissa == token_mantissa(token@) && c.scale == token_scale(
            token@,
        ),
{
    let n = token.unicode_len();
    if n == 0 {
        return None;
    }
    let mut mantissa: u64 = 0;
    let mut seen_dot = false;
    let mut dot_pos: usize = 0;
    let mut seen_digit = false;
    let mut i: usize = 0;
    proof {
        assert(token@.take(0) =~= Seq::<char>::empty());
    }
    while i < n
        invariant
            i <= n,
            n == token@.len(),
            forall|j: int| 0 <= j < i ==> is_digit(token@[j]) || token@[j] == '.',
            count_dots(token@.take(i as int)) == if seen_dot {
                1nat
            } else {
                0nat
            },
            seen_dot ==> dot_pos < i && token@[dot_pos as int] == '.' && (forall|j: int|
                0 <= j < dot_pos ==> token@[j] != '.'),
            !seen_dot ==> forall|j: int| 0 <= j < i ==> token@[j] != '.',
            seen_digit <==> exists|j: int| 0 <= j < i && is_digit(token@[j]),
            mantissa == token_mantissa(token@.take(i as int)),
        decreases n - i,
    {
        let c = token.get_char(i);
        let u = c as u32;
        proof {
            assert(token@.take(i + 1).drop_last() =~= token@.take(i as int));
            assert(token@.take(i + 1).last() == token@[i as int]);
        }
        if u == 46 {
            if seen_dot {
                proof {
                    lemma_count_dots_prefix(token@, i + 1);
                }
                return None;
            }
            seen_dot = true;
            dot_pos = i;
        } else if 48 <= u && u <= 57 {
            let d = (u - 48) as u64;
            if mantissa > (u64::MAX - d) / 10 {
                proof {
                    let q = (u64::MAX - d) / 10;
                    assert(q * 10 + ((u64::MAX - d) as int % 10) == u64::MAX - d);
                    assert(mantissa * 10 >= (q + 1) * 10) by (nonlinear_arith)
                        requires
                            mantissa >= q + 1,
                    ;
                    assert(token_mantissa(token@.take(i + 1)) == mantissa * 10 + d);
                    assert(token_mantissa(token@.take(i + 1)) > u64::MAX);
                    lemma_token_mantissa_prefix(token@, i + 1);
                }
                return None;
            }
            proof {
                let q = (u64::MAX - d) / 10;
                assert(q * 10 + ((u64::MAX - d) as int % 10) == u64::MAX - d);
                assert(mantissa * 10 <= q * 10) by (nonlinear_arith)
                    requires
                        mantissa <= q,
                ;
            }
            mantissa = mantissa * 10 + d;
            seen_digit = true;
        } else {
            proof {
                assert(!(is_digit(token@[i as int]) || token@[i as int] == '.'));
            }
            return None;
        }
        i = i + 1;
    }
    proof {
        assert(token@.take(n as int) =~= token@);
    }
    if !seen_digit {
        return None;
    }
    let scale: usize = if seen_dot {
        proof {
            lemma_find_char_is(token@, '.', dot_pos as int);
        }
        n - 1 - dot_pos
    } else {
        proof {
            lemma_find_char_none(token@, '.');
        }
        0
    };
    Some(Credits { mantissa, scale })
}

} // verus!
