//! Numeric tokens of the scene and material text formats.
//!
//! Tokens are byte strings. An integer token is an optional sign followed by
//! decimal digits; its value is exact. A floating-point token follows the
//! standard grammar for decimal floating-point literals: an optional sign,
//! then either a special word (`inf`, `infinity`, `nan`, in any letter case)
//! or digits with an optional fraction and an optional exponent. The library
//! validates such tokens; their numeric conversion is the caller's
//! floating-point concern.

use vstd::prelude::*;

verus! {

/// Decimal digit, bytes `0`..`9`.
pub open spec fn is_digit(b: u8) -> bool {
    48 <= b <= 57
}

/// Sign byte, `+` or `-`.
pub open spec fn is_sign(b: u8) -> bool {
    b == 43 || b == 45
}

/// Lower-cased byte: ASCII letters fold, everything else stays.
pub open spec fn lower(b: u8) -> u8 {
    if 65 <= b <= 90 {
        (b + 32) as u8
    } else {
        b
    }
}

/// Length of the leading run of decimal digits.
pub open spec fn digits_len(s: Seq<u8>) -> nat
    decreases s.len(),
{
    if s.len() == 0 || !is_digit(s[0]) {
        0
    } else {
        1 + digits_len(s.drop_first())
    }
}

/// Every byte is a decimal digit.
pub open spec fn all_digits(s: Seq<u8>) -> bool {
    forall|i: int| 0 <= i < s.len() ==> is_digit(#[trigger] s[i])
}

/// Value of a digit string, most significant digit first.
pub open spec fn digits_value(s: Seq<u8>) -> int
    decreases s.len(),
{
    if s.len() == 0 {
        0
    } else {
        digits_value(s.drop_last()) * 10 + (s.last() - 48)
    }
}

/// Integer token: an optional sign, then at least one digit and nothing
/// else.
pub open spec fn is_int_numeral(s: Seq<u8>) -> bool {
    let t = if s.len() > 0 && is_sign(s[0]) {
        s.drop_first()
    } else {
        s
    };
    t.len() > 0 && all_digits(t)
}

/// Value of an integer token.
pub open spec fn int_numeral_value(s: Seq<u8>) -> int {
    if s.len() > 0 && s[0] == 45 {
        -digits_value(s.drop_first())
    } else if s.len() > 0 && s[0] == 43 {
        digits_value(s.drop_first())
    } else {
        digits_value(s)
    }
}

/// Exponent part: `e` or `E`, an optional sign, then at least one digit and
/// nothing else.
pub open spec fn is_exponent(t: Seq<u8>) -> bool {
    t.len() >= 1 && (t[0] == 101 || t[0] == 69) && {
        let u = t.drop_first();
        let v = if u.len() > 0 && is_sign(u[0]) {
            u.drop_first()
        } else {
            u
        };
        v.len() > 0 && digits_len(v) == v.len()
    }
}

/// Number part of a floating-point token, after the optional sign: digits
/// with an optional `.`-fraction and an optional exponent, or a fraction
/// alone with an optional exponent.
pub open spec fn is_decimal_number(t: Seq<u8>) -> bool {
    let d = digits_len(t) as int;
    if d > 0 {
        let rest = t.skip(d);
        if rest.len() == 0 {
            true
        } else if rest[0] == 46 {
            let frac = rest.drop_first();
            let d2 = digits_len(frac) as int;
            let rest2 = frac.skip(d2);
            rest2.len() == 0 || is_exponent(rest2)
        } else {
            is_exponent(rest)
        }
    } else {
        t.len() >= 2 && t[0] == 46 && {
            let frac = t.drop_first();
            let d2 = digits_len(frac) as int;
            d2 > 0 && {
                let rest2 = frac.skip(d2);
                rest2.len() == 0 || is_exponent(rest2)
            }
        }
    }
}

/// The word `inf` in any letter case.
pub open spec fn is_word_inf(t: Seq<u8>) -> bool {
    t.len() == 3 && lower(t[0]) == 105 && lower(t[1]) == 110 && lower(t[2]) == 102
}

/// The word `infinity` in any letter case.
pub open spec fn is_word_infinity(t: Seq<u8>) -> bool {
    t.len() == 8 && lower(t[0]) == 105 && lower(t[1]) == 110 && lower(t[2]) == 102 && lower(t[3])
        == 105 && lower(t[4]) == 110 && lower(t[5]) == 105 && lower(t[6]) == 116 && lower(t[7])
        == 121
}

/// The word `nan` in any letter case.
pub open spec fn is_word_nan(t: Seq<u8>) -> bool {
    t.len() == 3 && lower(t[0]) == 110 && lower(t[1]) == 97 && lower(t[2]) == 110
}

/// Floating-point token: an optional sign, then a special word or a decimal
/// number.
pub open spec fn is_float_numeral(s: Seq<u8>) -> bool {
    let t = if s.len() > 0 && is_sign(s[0]) {
        s.drop_first()
    } else {
        s
    };
    is_word_inf(t) || is_word_infinity(t) || is_word_nan(t) || is_decimal_number(t)
}

/// Dropping the first element of a suffix moves the suffix one step.
pub proof fn lemma_skip_drop_first<T>(s: Seq<T>, i: int)
    requires
        0 <= i < s.len(),
    ensures
        s.skip(i).drop_first() == s.skip(i + 1),
{
    assert(s.skip(i).drop_first() =~= s.skip(i + 1));
}

/// A suffix of a suffix is a suffix.
pub proof fn lemma_skip_skip<T>(s: Seq<T>, a: int, b: int)
    requires
        0 <= a,
        0 <= b,
        a + b <= s.len(),
    ensures
        s.skip(a).skip(b) == s.skip(a + b),
{
    assert(s.skip(a).skip(b) =~= s.skip(a + b));
}

/// The leading digit run is no longer than the string.
pub proof fn lemma_digits_len_le(s: Seq<u8>)
    ensures
        digits_len(s) <= s.len(),
    decreases s.len(),
{
    if s.len() > 0 && is_digit(s[0]) {
        lemma_digits_len_le(s.drop_first());
    }
}

/// The whole string is digits exactly when the leading digit run is the
/// whole string.
pub proof fn lemma_all_digits_iff(s: Seq<u8>)
    ensures
        (digits_len(s) == s.len()) <==> all_digits(s),
    decreases s.len(),
{
    lemma_digits_len_le(s);
    if s.len() > 0 {
        lemma_all_digits_iff(s.drop_first());
        if is_digit(s[0]) {
            assert(all_digits(s.drop_first()) ==> all_digits(s)) by {
                if all_digits(s.drop_first()) {
                    assert forall|i: int| 0 <= i < s.len() implies is_digit(#[trigger] s[i]) by {
                        if i > 0 {
                            assert(s.drop_first()[i - 1] == s[i]);
                        }
                    }
                }
            }
            assert(all_digits(s) ==> all_digits(s.drop_first())) by {
                if all_digits(s) {
                    assert forall|i: int|
                        0 <= i < s.drop_first().len() implies is_digit(
                        #[trigger] s.drop_first()[i],
                    ) by {
                        assert(s.drop_first()[i] == s[i + 1]);
                    }
                }
            }
        }
    }
}

/// The value of a digit string is never negative.
pub proof fn lemma_digits_value_nonneg(s: Seq<u8>)
    requires
        all_digits(s),
    ensures
        digits_value(s) >= 0,
    decreases s.len(),
{
    if s.len() > 0 {
        assert(all_digits(s.drop_last())) by {
            assert forall|i: int| 0 <= i < s.drop_last().len() implies is_digit(
                #[trigger] s.drop_last()[i],
            ) by {
                assert(s.drop_last()[i] == s[i]);
            }
        }
        lemma_digits_value_nonneg(s.drop_last());
    }
}

/// Appending a digit multiplies the value by ten and adds the digit.
pub proof fn lemma_digits_value_push(s: Seq<u8>, b: u8)
    ensures
        digits_value(s.push(b)) == digits_value(s) * 10 + (b - 48),
{
    assert(s.push(b).drop_last() =~= s);
    assert(s.push(b).last() == b);
}

/// Number of leading digits from a position, scanned directly.
pub fn count_digits(s: &[u8], from: usize) -> (n: usize)
    requires
        from <= s@.len(),
    ensures
        n == digits_len(s@.skip(from as int)),
        from + n <= s@.len(),
{
    let mut j = from;
    while j < s.len() && 48 <= s[j] && s[j] <= 57
        invariant
            from <= j <= s@.len(),
            digits_len(s@.skip(from as int)) == (j - from) + digits_len(s@.skip(j as int)),
        decreases s@.len() - j,
    {
        proof {
            lemma_skip_drop_first(s@, j as int);
            assert(s@.skip(j as int)[0] == s@[j as int]);
        }
        j = j + 1;
    }
    proof {
        if j < s.len() {
            assert(s@.skip(j as int)[0] == s@[j as int]);
        }
        assert(digits_len(s@.skip(j as int)) == 0);
    }
    j - from
}

/// The integer value of a token, when the token is a well-formed integer
/// numeral whose value fits; `None` exactly when the token is malformed or
/// its value does not fit.
pub fn parse_i64(s: &[u8]) -> (r: Option<i64>)
    ensures
        r is Some <==> is_int_numeral(s@) && -0x8000_0000_0000_0000 <= int_numeral_value(s@)
            <= 0x7FFF_FFFF_FFFF_FFFF,
        r matches Some(v) ==> v == int_numeral_value(s@),
{
    let n = s.len();
    if n == 0 {
        return None;
    }
    let b0 = s[0];
    let neg = b0 == 45;
    let start: usize = if b0 == 43 || b0 == 45 {
        1
    } else {
        0
    };
    proof {
        if start == 1 {
            assert(s@.drop_first() =~= s@.skip(1));
        } else {
            assert(s@ =~= s@.skip(0));
        }
    }
    if start == n {
        return None;
    }
    let ghost t = s@.skip(start as int);
    let mut acc: u64 = 0;
    let mut over = false;
    let mut j = start;
    while j < n
        invariant
            start <= j <= n,
            n == s@.len(),
            t == s@.skip(start as int),
            t.len() == n - start,
            (s@.len() > 0 && is_sign(s@[0])) ==> (start == 1 && t == s@.drop_first()),
            !(s@.len() > 0 && is_sign(s@[0])) ==> (start == 0 && t == s@),
            forall|k: int| 0 <= k < j - start ==> is_digit(#[trigger] t[k]),
            !over ==> acc == digits_value(t.take(j - start)) && acc <= 0x8000_0000_0000_0000,
            over ==> digits_value(t.take(j - start)) > 0x8000_0000_0000_0000,
        decreases n - j,
    {
        let b = s[j];
        proof {
            assert(t[j - start] == s@[j as int]);
        }
        if b < 48 || b > 57 {
            proof {
                assert(!all_digits(t)) by {
                    assert(t[j - start] == s@[j as int]);
                    assert(!is_digit(t[j - start]));
                }
            }
            return None;
        }
        let d = b - 48;
        proof {
            assert(t.take(j + 1 - start) =~= t.take(j - start).push(t[j - start]));
            lemma_digits_value_push(t.take(j - start), b);
            assert(all_digits(t.take(j - start))) by {
                assert(forall|k: int|
                    0 <= k < j - start ==> #[trigger] t.take(j - start)[k] == t[k]);
            }
            lemma_digits_value_nonneg(t.take(j - start));
        }
        if over {
            // the value only grows as digits append
        } else {
            if acc > (0x8000_0000_0000_0000u64 - d as u64) / 10 {
                proof {
                    vstd::arithmetic::div_mod::lemma_fundamental_div_mod(
                        0x8000_0000_0000_0000 - d,
                        10,
                    );
                }
                over = true;
            } else {
                proof {
                    vstd::arithmetic::div_mod::lemma_fundamental_div_mod(
                        0x8000_0000_0000_0000 - d,
                        10,
                    );
                }
                acc = acc * 10 + d as u64;
            }
        }
        j = j + 1;
    }
    proof {
        assert(t.take(n - start) =~= t);
        lemma_all_digits_iff(t);
        if start == 1 {
            assert(s@.drop_first() == t);
        }
    }
    if over {
        return None;
    }
    if neg {
        if acc == 0x8000_0000_0000_0000u64 {
            Some(i64::MIN)
        } else {
            Some(-(acc as i64))
        }
    } else {
        if acc > 0x7FFF_FFFF_FFFF_FFFFu64 {
            None
        } else {
            Some(acc as i64)
        }
    }
}

fn lower_byte(b: u8) -> (r: u8)
    ensures
        r == lower(b),
{
    if 65 <= b && b <= 90 {
        b + 32
    } else {
        b
    }
}

/// Exponent check from a position.
fn is_exponent_at(s: &[u8], from: usize) -> (r: bool)
    requires
        from <= s@.len(),
    ensures
        r == is_exponent(s@.skip(from as int)),
{
    let ghost t = s@.skip(from as int);
    let n = s.len();
    if from == n {
        return false;
    }
    proof {
        assert(t[0] == s@[from as int]);
    }
    if !(s[from] == 101 || s[from] == 69) {
        return false;
    }
    proof {
        lemma_skip_drop_first(s@, from as int);
    }
    let ghost u = s@.skip(from as int + 1);
    let sstart: usize = if from + 1 < n && (s[from + 1] == 43 || s[from + 1] == 45) {
        proof {
            assert(u[0] == s@[from as int + 1]);
            lemma_skip_drop_first(s@, from as int + 1);
        }
        from + 2
    } else {
        proof {
            if from + 1 < n {
                assert(u[0] == s@[from as int + 1]);
            }
        }
        from + 1
    };
    let ghost v = s@.skip(sstart as int);
    if sstart == n {
        return false;
    }
    let d = count_digits(s, sstart);
    proof {
        lemma_digits_len_le(v);
    }
    sstart + d == n
}

/// Floating-point token check: `true` exactly when the bytes form a
/// floating-point numeral.
pub fn is_float_token(s: &[u8]) -> (r: bool)
    ensures
        r == is_float_numeral(s@),
{
    let n = s.len();
    let start: usize = if n > 0 && (s[0] == 43 || s[0] == 45) {
        1
    } else {
        0
    };
    proof {
        if start == 1 {
            assert(s@.drop_first() =~= s@.skip(1));
        } else {
            assert(s@ =~= s@.skip(0));
        }
    }
    let ghost t = s@.skip(start as int);
    // special words
    if n - start == 3 {
        let a = lower_byte(s[start]);
        let b = lower_byte(s[start + 1]);
        let c = lower_byte(s[start + 2]);
        proof {
            assert(t[0] == s@[start as int]);
            assert(t[1] == s@[start as int + 1]);
            assert(t[2] == s@[start as int + 2]);
        }
        if a == 105 && b == 110 && c == 102 {
            return true;
        }
        if a == 110 && b == 97 && c == 110 {
            return true;
        }
    }
    if n - start == 8 {
        proof {
            assert forall|k: int| 0 <= k < 8 implies t[k] == s@[start + k] by {}
        }
        let mut word_ok = lower_byte(s[start]) == 105;
        word_ok = word_ok && lower_byte(s[start + 1]) == 110;
        word_ok = word_ok && lower_byte(s[start + 2]) == 102;
        word_ok = word_ok && lower_byte(s[start + 3]) == 105;
        word_ok = word_ok && lower_byte(s[start + 4]) == 110;
        word_ok = word_ok && lower_byte(s[start + 5]) == 105;
        word_ok = word_ok && lower_byte(s[start + 6]) == 116;
        word_ok = word_ok && lower_byte(s[start + 7]) == 121;
        if word_ok {
            return true;
        }
    }
    // decimal number
    let d = count_digits(s, start);
    proof {
        lemma_skip_skip(s@, start as int, d as int);
    }
    if d > 0 {
        let p = start + d;
        let ghost rest = t.skip(d as int);
        if p == n {
            return true;
        }
        proof {
            assert(rest[0] == s@[p as int]);
        }
        if s[p] == 46 {
            proof {
                lemma_skip_drop_first(s@, p as int);
            }
            let d2 = count_digits(s, p + 1);
            let q = p + 1 + d2;
            proof {
                lemma_skip_skip(s@, p as int + 1, d2 as int);
            }
            q == n || is_exponent_at(s, q)
        } else {
            is_exponent_at(s, p)
        }
    } else {
        if start < n {
            proof {
                assert(t[0] == s@[start as int]);
            }
            if s[start] == 46 {
                proof {
                    lemma_skip_drop_first(s@, start as int);
                }
                let d2 = count_digits(s, start + 1);
                if d2 == 0 {
                    return false;
                }
                let q = start + 1 + d2;
                proof {
                    lemma_skip_skip(s@, start as int + 1, d2 as int);
                }
                q == n || is_exponent_at(s, q)
            } else {
                false
            }
        } else {
            false
        }
    }
}

} // verus!
