//! Reading numbers from text: whole numbers, and decimals such as `0.25`
//! as fixed-point values in units of `UNIT`, and the three-number nutrient
//! mix `"n,p,k"`.

use crate::UNIT;
use vstd::prelude::*;

verus! {

/// An ASCII decimal digit.
pub open spec fn is_digit(c: char) -> bool {
    '0' <= c && c <= '9'
}

/// Every character is a decimal digit.
pub open spec fn all_digits(s: Seq<char>) -> bool {
    forall|i: int| 0 <= i < s.len() ==> is_digit(#[trigger] s[i])
}

/// The number the digits spell, most significant first (zero for none).
pub open spec fn digits_value(s: Seq<char>) -> int
    decreases s.len(),
{
    if s.len() == 0 {
        0
    } else {
        digits_value(s.drop_last()) * 10 + (s.last() as int - '0' as int)
    }
}

/// Whitespace that is trimmed around a number.
pub open spec fn is_space(c: char) -> bool {
    c == ' ' || c == '\t' || c == '\n' || c == '\r'
}

/// The text without its leading whitespace.
pub open spec fn trim_start(s: Seq<char>) -> Seq<char>
    decreases s.len(),
{
    if s.len() > 0 && is_space(s[0]) {
        trim_start(s.drop_first())
    } else {
        s
    }
}

/// The text without its trailing whitespace.
pub open spec fn trim_end(s: Seq<char>) -> Seq<char>
    decreases s.len(),
{
    if s.len() > 0 && is_space(s.last()) {
        trim_end(s.drop_last())
    } else {
        s
    }
}

/// The text without whitespace at either end.
pub open spec fn trim(s: Seq<char>) -> Seq<char> {
    trim_end(trim_start(s))
}

/// The position of the first `c` at or after `from`, or the length if none.
pub open spec fn index_of(s: Seq<char>, c: char, from: int) -> int
    decreases s.len() - from,
{
    if from >= s.len() {
        s.len() as int
    } else if from >= 0 && s[from] == c {
        from
    } else {
        index_of(s, c, from + 1)
    }
}

/// A whole number of decimal digits up to `limit`, if `s` is one.
pub open spec fn whole_value(s: Seq<char>, limit: int) -> Option<int> {
    if s.len() > 0 && all_digits(s) && digits_value(s) <= limit {
        Some(digits_value(s))
    } else {
        None
    }
}

/// The largest magnitude a decimal is read as, in units of `UNIT` (the
/// number 10^11); larger numbers are read as this one.
pub const DECIMAL_CAP: u64 = 1_000_000_000_000_000;

/// Beyond this magnitude an exponent is not read exactly: any larger one
/// gives the same value.
pub const EXP_LIMIT: u128 = 0x40_0000_0000_0000_0000;

/// The position of the first `e` or `E` at or after `from`, or the length
/// if none.
pub open spec fn exp_marker(s: Seq<char>, from: int) -> int
    decreases s.len() - from,
{
    if from >= s.len() {
        s.len() as int
    } else if from >= 0 && (s[from] == 'e' || s[from] == 'E') {
        from
    } else {
        exp_marker(s, from + 1)
    }
}

/// The exponent written after `e`: an optional sign, then digits.
pub open spec fn exponent_of(t: Seq<char>) -> Option<int> {
    if t.len() > 0 && (t[0] == '+' || t[0] == '-') {
        let r = t.drop_first();
        if r.len() > 0 && all_digits(r) {
            Some(if t[0] == '-' { -digits_value(r) } else { digits_value(r) })
        } else {
            None
        }
    } else if t.len() > 0 && all_digits(t) {
        Some(digits_value(t))
    } else {
        None
    }
}

/// The digits `d` read as a whole number and scaled by ten to the power
/// `shift`, rounded towards zero: a negative shift drops that many of the
/// last digits.
pub open spec fn scaled_value(d: Seq<char>, shift: int) -> int {
    if shift >= 0 {
        digits_value(d) * pow10(shift as nat)
    } else if d.len() + shift > 0 {
        digits_value(d.take(d.len() + shift))
    } else {
        0
    }
}

/// The unsigned part of a decimal (`12`, `0.5`, `.5`, `3.`, `1e-1`,
/// `2.5E3`), in units of `UNIT`: digits with at most one point and at least
/// one digit, then optionally `e` or `E` and a signed whole exponent. The
/// value is rounded towards zero to a whole number of units (so digits
/// beyond the fourth after the point are dropped), and a value above
/// `DECIMAL_CAP` is read as `DECIMAL_CAP`.
pub open spec fn unsigned_decimal(s: Seq<char>) -> Option<int> {
    let ei = exp_marker(s, 0);
    let m = s.take(ei);
    let d = index_of(m, '.', 0);
    let whole = m.take(d);
    let frac = if d < m.len() {
        m.skip(d + 1)
    } else {
        Seq::empty()
    };
    let exp = if ei < s.len() {
        exponent_of(s.skip(ei + 1))
    } else {
        Some(0)
    };
    if all_digits(whole) && all_digits(frac) && whole.len() + frac.len() > 0 && exp is Some {
        let v = scaled_value(whole + frac, exp->0 - frac.len() + 4);
        Some(if v > DECIMAL_CAP { DECIMAL_CAP as int } else { v })
    } else {
        None
    }
}

/// The value of a decimal in units of `UNIT`, if the text is one:
/// whitespace around it is ignored, and a sign `+` or `-` may lead.
pub open spec fn decimal_units(s: Seq<char>) -> Option<int> {
    let t = trim(s);
    if t.len() > 0 && t[0] == '-' {
        match unsigned_decimal(t.drop_first()) {
            Some(v) => Some(-v),
            None => None,
        }
    } else if t.len() > 0 && t[0] == '+' {
        unsigned_decimal(t.drop_first())
    } else {
        unsigned_decimal(t)
    }
}

/// Ten to the power `n`.
pub open spec fn pow10(n: nat) -> int
    decreases n,
{
    if n == 0 {
        1
    } else {
        10 * pow10((n - 1) as nat)
    }
}

/// Digits spell a number below ten to the power of their count.
proof fn lemma_digits_bound(s: Seq<char>)
    requires
        all_digits(s),
    ensures
        0 <= digits_value(s) < pow10(s.len()),
    decreases s.len(),
{
    if s.len() > 0 {
        let p = s.drop_last();
        assert(all_digits(p)) by {
            assert forall|i: int| 0 <= i < p.len() implies is_digit(#[trigger] p[i]) by {
                assert(p[i] == s[i]);
            }
        }
        assert(is_digit(s[s.len() - 1]));
        lemma_digits_bound(p);
    }
}

/// Powers of ten grow with the exponent.
proof fn lemma_pow10_grows(a: nat, b: nat)
    requires
        a <= b,
    ensures
        1 <= pow10(a) <= pow10(b),
    decreases b,
{
    if b > 0 {
        if a < b {
            lemma_pow10_grows(a, (b - 1) as nat);
        } else {
            lemma_pow10_grows(0, (b - 1) as nat);
        }
    }
}

/// `exp_marker` lands at or after `from` and at most at the end.
proof fn lemma_exp_marker(s: Seq<char>, from: int)
    requires
        0 <= from <= s.len(),
    ensures
        from <= exp_marker(s, from) <= s.len(),
    decreases s.len() - from,
{
    if from < s.len() && !(s[from] == 'e' || s[from] == 'E') {
        lemma_exp_marker(s, from + 1);
    }
}

/// `index_of` lands at or after `from` and at most at the end; there it
/// finds `c`, and nothing before it from `from` on is `c`.
proof fn lemma_index_of(s: Seq<char>, c: char, from: int)
    requires
        0 <= from <= s.len(),
    ensures
        from <= index_of(s, c, from) <= s.len(),
        index_of(s, c, from) < s.len() ==> s[index_of(s, c, from)] == c,
        forall|j: int| from <= j < index_of(s, c, from) ==> s[j] != c,
    decreases s.len() - from,
{
    if from < s.len() && s[from] != c {
        lemma_index_of(s, c, from + 1);
    }
}

/// The characters of a string, one by one.
pub fn chars_of(s: &str) -> (r: Vec<char>)
    ensures
        r@ == s@,
{
    let n = s.unicode_len();
    let mut r: Vec<char> = Vec::new();
    let mut i: usize = 0;
    while i < n
        invariant
            n == s@.len(),
            i <= n,
            r@ == s@.take(i as int),
        decreases n - i,
    {
        r.push(s.get_char(i));
        i += 1;
        assert(r@ =~= s@.take(i as int));
    }
    assert(r@ =~= s@);
    r
}

/// Reads the digits `s[from..to]` as a whole number up to `limit`.
pub fn parse_whole(s: &Vec<char>, from: usize, to: usize, limit: u128) -> (r: Option<u128>)
    requires
        from <= to <= s@.len(),
        limit <= EXP_LIMIT,
    ensures
        r == match whole_value(s@.subrange(from as int, to as int), limit as int) {
            Some(v) => Some(v as u128),
            None => None::<u128>,
        },
        r matches Some(v) ==> v == digits_value(s@.subrange(from as int, to as int)) && v <= limit,
{
    let ghost t = s@.subrange(from as int, to as int);
    if from == to {
        return None;
    }
    let mut value: u128 = 0;
    let mut over = false;
    let mut i = from;
    while i < to
        invariant
            from <= i <= to <= s@.len(),
            t == s@.subrange(from as int, to as int),
            all_digits(s@.subrange(from as int, i as int)),
            !over ==> value == digits_value(s@.subrange(from as int, i as int)) && value <= limit,
            limit <= EXP_LIMIT,
            over ==> digits_value(s@.subrange(from as int, i as int)) > limit,
        decreases to - i,
    {
        let c = s[i];
        if !('0' <= c && c <= '9') {
            assert(t[i - from] == c);
            return None;
        }
        let ghost before = s@.subrange(from as int, i as int);
        let ghost after = s@.subrange(from as int, i + 1);
        assert(after.drop_last() =~= before);
        assert(after.last() == c);
        if !over {
            value = value * 10 + (c as u32 - '0' as u32) as u128;
            if value > limit {
                over = true;
            }
        }
        assert(all_digits(after)) by {
            assert forall|j: int| 0 <= j < after.len() implies is_digit(#[trigger] after[j]) by {
                if j < before.len() {
                    assert(after[j] == before[j]);
                }
            }
        }
        i += 1;
    }
    assert(t =~= s@.subrange(from as int, i as int));
    if over {
        None
    } else {
        Some(value)
    }
}

/// Reads a whole number up to `limit` from a string of digits alone.
pub fn parse_whole_str(s: &str, limit: u64) -> (r: Option<u64>)
    ensures
        r == match whole_value(s@, limit as int) {
            Some(v) => Some(v as u64),
            None => None::<u64>,
        },
        r matches Some(v) ==> whole_value(s@, limit as int) == Some(v as int),
{
    let cs = chars_of(s);
    assert(cs@.subrange(0, cs@.len() as int) =~= s@);
    match parse_whole(&cs, 0, cs.len(), limit as u128) {
        Some(v) => Some(v as u64),
        None => None,
    }
}

/// The position of the first `c` in `s[from..]`, or the length if none.
pub fn find_char(s: &Vec<char>, c: char, from: usize) -> (r: usize)
    requires
        from <= s@.len(),
    ensures
        r == index_of(s@, c, from as int),
{
    let mut i = from;
    while i < s.len()
        invariant
            from <= i <= s@.len(),
            index_of(s@, c, i as int) == index_of(s@, c, from as int),
        decreases s@.len() - i,
    {
        if s[i] == c {
            return i;
        }
        i += 1;
    }
    i
}

/// Whether `s[from..to]` holds decimal digits only.
fn digits_only(s: &Vec<char>, from: usize, to: usize) -> (r: bool)
    requires
        from <= to <= s@.len(),
    ensures
        r == all_digits(s@.subrange(from as int, to as int)),
{
    let mut i = from;
    while i < to
        invariant
            from <= i <= to <= s@.len(),
            all_digits(s@.subrange(from as int, i as int)),
        decreases to - i,
    {
        let c = s[i];
        if !('0' <= c && c <= '9') {
            assert(s@.subrange(from as int, to as int)[i - from] == c);
            return false;
        }
        assert forall|j: int| 0 <= j < i + 1 - from implies is_digit(#[trigger] s@.subrange(from as int, i + 1)[j]) by {
            if j < i - from {
                assert(s@.subrange(from as int, i + 1)[j] == s@.subrange(from as int, i as int)[j]);
            }
        }
        i += 1;
    }
    true
}

/// A copy of `s[from..to]`.
fn copy_range(s: &Vec<char>, from: usize, to: usize) -> (r: Vec<char>)
    requires
        from <= to <= s@.len(),
    ensures
        r@ == s@.subrange(from as int, to as int),
{
    let mut r: Vec<char> = Vec::new();
    let mut i = from;
    while i < to
        invariant
            from <= i <= to <= s@.len(),
            r@ == s@.subrange(from as int, i as int),
        decreases to - i,
    {
        r.push(s[i]);
        i += 1;
        assert(r@ =~= s@.subrange(from as int, i as int));
    }
    r
}

/// The position of the first `e` or `E` in `s`, or its length if none.
fn find_exp_marker(s: &Vec<char>) -> (r: usize)
    ensures
        r == exp_marker(s@, 0),
{
    let mut i: usize = 0;
    while i < s.len()
        invariant
            i <= s@.len(),
            exp_marker(s@, i as int) == exp_marker(s@, 0),
        decreases s@.len() - i,
    {
        if s[i] == 'e' || s[i] == 'E' {
            return i;
        }
        i += 1;
    }
    i
}

/// The digits `d`, scaled by ten to the power `shift` and rounded towards
/// zero, capped at `DECIMAL_CAP`.
fn scaled_capped(d: &Vec<char>, shift: i128) -> (r: u64)
    requires
        all_digits(d@),
        d@.len() > 0,
    ensures
        r == if scaled_value(d@, shift as int) > DECIMAL_CAP {
            DECIMAL_CAP as int
        } else {
            scaled_value(d@, shift as int)
        },
{
    let n = d.len();
    assert(d@.subrange(0, n as int) =~= d@);
    if shift < 0 {
        let keep: i128 = n as i128 + shift;
        if keep <= 0 {
            return 0;
        }
        let k = keep as usize;
        assert(d@.subrange(0, k as int) =~= d@.take(k as int));
        assert(all_digits(d@.take(k as int))) by {
            assert forall|j: int| 0 <= j < k implies is_digit(#[trigger] d@.take(k as int)[j]) by {
                assert(d@.take(k as int)[j] == d@[j]);
            }
        }
        proof {
            lemma_digits_bound(d@.take(k as int));
        }
        return match parse_whole(d, 0, k, DECIMAL_CAP as u128) {
            Some(v) => v as u64,
            None => DECIMAL_CAP,
        };
    }
    proof {
        lemma_digits_bound(d@);
        lemma_pow10_grows(0, shift as nat);
        assert(digits_value(d@) * pow10(shift as nat) >= digits_value(d@)) by (nonlinear_arith)
            requires
                digits_value(d@) >= 0,
                pow10(shift as nat) >= 1,
        ;
    }
    let m = match parse_whole(d, 0, n, DECIMAL_CAP as u128) {
        Some(m) => m,
        None => return DECIMAL_CAP,
    };
    if m == 0 {
        assert(digits_value(d@) * pow10(shift as nat) == 0) by (nonlinear_arith)
            requires
                digits_value(d@) == 0,
        ;
        return 0;
    }
    assert(pow10(0) == 1);
    assert(m == m * pow10(0nat)) by (nonlinear_arith)
        requires
            pow10(0nat) == 1,
    ;
    let mut v: u128 = m;
    let mut i: i128 = 0;
    while i < shift && v <= DECIMAL_CAP as u128
        invariant
            0 <= i <= shift,
            m == digits_value(d@),
            1 <= m <= DECIMAL_CAP,
            v == m * pow10(i as nat),
            v <= DECIMAL_CAP as u128 * 10,
        decreases shift - i,
    {
        assert(pow10((i + 1) as nat) == 10 * pow10(i as nat));
        assert(m * pow10((i + 1) as nat) == m * pow10(i as nat) * 10) by (nonlinear_arith)
            requires
                pow10((i + 1) as nat) == 10 * pow10(i as nat),
        ;
        v = v * 10;
        i += 1;
    }
    if v > DECIMAL_CAP as u128 {
        proof {
            lemma_pow10_grows(i as nat, shift as nat);
            assert(m * pow10(shift as nat) >= m * pow10(i as nat)) by (nonlinear_arith)
                requires
                    m >= 1,
                    pow10(shift as nat) >= pow10(i as nat),
            ;
        }
        DECIMAL_CAP
    } else {
        v as u64
    }
}

/// Reads the exponent `s[from..]`: its sign, and its magnitude where that
/// is at most `EXP_LIMIT`.
fn read_exponent(s: &Vec<char>, from: usize) -> (r: Option<(bool, Option<u128>)>)
    requires
        from <= s@.len(),
    ensures
        r is None <==> exponent_of(s@.subrange(from as int, s@.len() as int)) is None,
        r matches Some((_, Some(m))) ==> m <= EXP_LIMIT,
        r matches Some((negative, magnitude)) ==> {
            let e = exponent_of(s@.subrange(from as int, s@.len() as int))->0;
            match magnitude {
                Some(m) => e == if negative { -m } else { m as int },
                None => if negative { e < -EXP_LIMIT } else { e > EXP_LIMIT },
            }
        },
{
    let len = s.len();
    let ghost et = s@.subrange(from as int, len as int);
    let mut start = from;
    let mut negative = false;
    if start < len && (s[start] == '+' || s[start] == '-') {
        negative = s[start] == '-';
        start = start + 1;
        assert(s@.subrange(start as int, len as int) =~= et.drop_first());
    } else {
        assert(s@.subrange(start as int, len as int) =~= et);
    }
    if start == len || !digits_only(s, start, len) {
        return None;
    }
    let magnitude = parse_whole(s, start, len, EXP_LIMIT);
    proof {
        lemma_digits_bound(s@.subrange(start as int, len as int));
    }
    Some((negative, magnitude))
}

/// The value, capped at `DECIMAL_CAP`, of the digits `d` of which the last
/// `flen` follow the point, under an exponent of the given sign and
/// magnitude (`None` for one beyond `EXP_LIMIT`).
fn decimal_value(d: &Vec<char>, flen: usize, negative: bool, magnitude: Option<u128>, exp: Ghost<int>) -> (r: u64)
    requires
        all_digits(d@),
        d@.len() > 0,
        flen <= d@.len(),
        match magnitude {
            Some(m) => m <= EXP_LIMIT && exp@ == if negative { -m } else { m as int },
            None => if negative { exp@ < -EXP_LIMIT } else { exp@ > EXP_LIMIT },
        },
    ensures
        r == if scaled_value(d@, exp@ - flen + 4) > DECIMAL_CAP {
            DECIMAL_CAP as int
        } else {
            scaled_value(d@, exp@ - flen + 4)
        },
{
    let digits = d;
    let ghost exp = exp@;
    let ghost frac_len = flen as int;
    match magnitude {
        Some(e) => {
            let shift: i128 = if negative {
                -(e as i128)
            } else {
                e as i128
            } - flen as i128 + 4;
            assert(shift == exp - frac_len + 4);
            let r = scaled_capped(&digits, shift);
            assert(shift as int == exp - flen + 4);
            r
        },
        None => {
            // An exponent beyond EXP_LIMIT: no digit stays for a negative
            // one, and any non-zero digits pass the cap for a positive one.
            let ghost shift: int = exp - frac_len + 4;
            if negative {
                let n = digits.len();
                assert(n <= u64::MAX);
                assert(digits@.len() + shift <= 0);
                0
            } else {
                proof {
                    lemma_digits_bound(digits@);
                    lemma_pow10_grows(16, shift as nat);
                    assert(pow10(16) == 10_000_000_000_000_000) by {
                        reveal_with_fuel(pow10, 17);
                    }
                }
                assert(digits@.subrange(0, digits@.len() as int) =~= digits@);
                match parse_whole(&digits, 0, digits.len(), 0) {
                    Some(_) => {
                        assert(digits_value(digits@) * pow10(shift as nat) == 0) by (nonlinear_arith)
                            requires
                                digits_value(digits@) == 0,
                        ;
                        0
                    },
                    None => {
                        assert(digits_value(digits@) * pow10(shift as nat) >= pow10(shift as nat)) by (nonlinear_arith)
                            requires
                                digits_value(digits@) >= 1,
                                pow10(shift as nat) >= 1,
                        ;
                        DECIMAL_CAP
                    },
                }
            }
        },
    }
}

/// Reads an unsigned decimal from `s[from..to]`, in units of `UNIT`.
#[verifier::rlimit(30)]
fn parse_unsigned_decimal(s: &Vec<char>, from: usize, to: usize) -> (r: Option<i64>)
    requires
        from <= to <= s@.len(),
    ensures
        r == match unsigned_decimal(s@.subrange(from as int, to as int)) {
            Some(v) => Some(v as i64),
            None => None::<i64>,
        },
        r matches Some(v) ==> unsigned_decimal(s@.subrange(from as int, to as int)) == Some(v as int),
        r matches Some(v) ==> 0 <= v <= DECIMAL_CAP,
{
    let body = copy_range(s, from, to);
    let ghost t = s@.subrange(from as int, to as int);
    let len = body.len();
    let ei = find_exp_marker(&body);
    proof {
        lemma_exp_marker(body@, 0);
    }
    let mant = copy_range(&body, 0, ei);
    assert(mant@ =~= t.take(ei as int));
    let d = find_char(&mant, '.', 0);
    proof {
        lemma_index_of(mant@, '.', 0);
    }
    let fs = if d < mant.len() {
        d + 1
    } else {
        d
    };
    let ghost whole = mant@.take(d as int);
    let ghost frac = if d < mant@.len() {
        mant@.skip(d + 1)
    } else {
        Seq::empty()
    };
    assert(mant@.subrange(0, d as int) =~= whole);
    assert(mant@.subrange(fs as int, mant@.len() as int) =~= frac);
    if !digits_only(&mant, 0, d) || !digits_only(&mant, fs, mant.len()) || (d == 0 && fs == mant.len()) {
        return None;
    }
    let (negative, magnitude) = if ei < len {
        match read_exponent(&body, ei + 1) {
            Some(e) => e,
            None => return None,
        }
    } else {
        (false, Some(0u128))
    };
    proof {
        if ei < len {
            assert(body@.subrange(ei + 1, len as int) =~= t.skip(ei + 1));
        }
    }
    let ghost exp: int = if ei < len {
        exponent_of(t.skip(ei + 1))->0
    } else {
        0
    };
    // The digits of the whole and fractional parts together.
    let whole_digits = copy_range(&mant, 0, d);
    let frac_digits = copy_range(&mant, fs, mant.len());
    let mut digits = whole_digits;
    let mut j: usize = 0;
    while j < frac_digits.len()
        invariant
            j <= frac_digits@.len(),
            frac_digits@ == frac,
            digits@ == whole + frac.take(j as int),
        decreases frac_digits@.len() - j,
    {
        digits.push(frac_digits[j]);
        j += 1;
        assert(digits@ =~= whole + frac.take(j as int));
    }
    assert(frac.take(frac.len() as int) =~= frac);
    assert(all_digits(digits@)) by {
        assert forall|k: int| 0 <= k < digits@.len() implies is_digit(#[trigger] digits@[k]) by {
            if k < whole.len() {
                assert(digits@[k] == whole[k]);
            } else {
                assert(digits@[k] == frac[k - whole.len()]);
            }
        }
    }
    let value = decimal_value(&digits, frac_digits.len(), negative, magnitude, Ghost(exp));
    proof {
        assert(body@ == t);
        assert(ei == exp_marker(t, 0));
        assert(t.take(ei as int) == mant@);
        assert(d == index_of(mant@, '.', 0));
        if ei < len {
            assert(exponent_of(t.skip(ei + 1)) is Some);
        }
        assert(whole + frac == digits@);
    }
    Some(value as i64)
}

/// The three values of a nutrient mix `"n,p,k"` in units of `UNIT`, if the
/// text is exactly three decimals separated by two commas.
pub open spec fn npk_units(s: Seq<char>) -> Option<(int, int, int)> {
    let c1 = index_of(s, ',', 0);
    let c2 = index_of(s, ',', c1 + 1);
    let c3 = index_of(s, ',', c2 + 1);
    if c1 >= s.len() || c2 >= s.len() || c3 < s.len() {
        None
    } else {
        match (
            decimal_units(s.subrange(0, c1)),
            decimal_units(s.subrange(c1 + 1, c2)),
            decimal_units(s.subrange(c2 + 1, s.len() as int)),
        ) {
            (Some(n), Some(p), Some(k)) => Some((n, p, k)),
            _ => None,
        }
    }
}

/// Reads a decimal from `s[from..to]`, in units of `UNIT`: whitespace
/// around it is ignored and a sign may lead.
pub fn parse_decimal(s: &Vec<char>, from: usize, to: usize) -> (r: Option<i64>)
    requires
        from <= to <= s@.len(),
    ensures
        r == match decimal_units(s@.subrange(from as int, to as int)) {
            Some(v) => Some(v as i64),
            None => None::<i64>,
        },
        r matches Some(v) ==> decimal_units(s@.subrange(from as int, to as int)) == Some(v as int),
{
    let mut a = from;
    while a < to && (s[a] == ' ' || s[a] == '\t' || s[a] == '\n' || s[a] == '\r')
        invariant
            from <= a <= to <= s@.len(),
            trim_start(s@.subrange(from as int, to as int)) == trim_start(s@.subrange(a as int, to as int)),
        decreases to - a,
    {
        assert(s@.subrange(a as int, to as int).drop_first() =~= s@.subrange(a + 1, to as int));
        a += 1;
    }
    let mut b = to;
    while b > a && (s[b - 1] == ' ' || s[b - 1] == '\t' || s[b - 1] == '\n' || s[b - 1] == '\r')
        invariant
            from <= a <= b <= to <= s@.len(),
            trim_start(s@.subrange(from as int, to as int)) == s@.subrange(a as int, to as int),
            trim(s@.subrange(from as int, to as int)) == trim_end(s@.subrange(a as int, b as int)),
        decreases b - a,
    {
        assert(s@.subrange(a as int, b as int).drop_last() =~= s@.subrange(a as int, b - 1));
        b -= 1;
    }
    let ghost t = s@.subrange(a as int, b as int);
    assert(trim(s@.subrange(from as int, to as int)) == t);
    proof {
        if a < b {
            assert(t.drop_first() =~= s@.subrange(a + 1, b as int));
        }
    }
    if a < b && s[a] == '-' {
        match parse_unsigned_decimal(s, a + 1, b) {
            Some(v) => Some(-v),
            None => None,
        }
    } else if a < b && s[a] == '+' {
        parse_unsigned_decimal(s, a + 1, b)
    } else {
        parse_unsigned_decimal(s, a, b)
    }
}

/// Reads a nutrient mix `"n,p,k"`: three decimals separated by commas.
pub fn parse_npk(mix: &str) -> (r: Option<(i64, i64, i64)>)
    ensures
        match npk_units(mix@) {
            Some((n, p, k)) => r == Some((n as i64, p as i64, k as i64)),
            None => r is None,
        },
        r matches Some((n, p, k)) ==> npk_units(mix@) == Some((n as int, p as int, k as int)),
{
    let s = chars_of(mix);
    let c1 = find_char(&s, ',', 0);
    proof {
        lemma_index_of(s@, ',', 0);
    }
    if c1 >= s.len() {
        return None;
    }
    let c2 = find_char(&s, ',', c1 + 1);
    proof {
        lemma_index_of(s@, ',', c1 + 1);
    }
    if c2 >= s.len() {
        return None;
    }
    let c3 = find_char(&s, ',', c2 + 1);
    proof {
        lemma_index_of(s@, ',', c2 + 1);
    }
    if c3 < s.len() {
        return None;
    }
    let n = match parse_decimal(&s, 0, c1) {
        Some(v) => v,
        None => return None,
    };
    let p = match parse_decimal(&s, c1 + 1, c2) {
        Some(v) => v,
        None => return None,
    };
    let k = match parse_decimal(&s, c2 + 1, s.len()) {
        Some(v) => v,
        None => return None,
    };
    Some((n, p, k))
}

} // verus!
