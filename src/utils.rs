//! Coercion of string-encoded numbers into integers and fixed-point decimals.

use vstd::prelude::*;

verus! {

/// Largest magnitude that a signed 64-bit integer can take (that of `i64::MIN`).
pub const MAGNITUDE_LIMIT: u64 = 9223372036854775808;

pub open spec fn is_digit(c: char) -> bool {
    '0' <= c && c <= '9'
}

pub open spec fn digit_value(c: char) -> int {
    c as int - '0' as int
}

pub open spec fn all_digits(s: Seq<char>) -> bool {
    forall|i: int| 0 <= i < s.len() ==> is_digit(#[trigger] s[i])
}

/// The number that a run of decimal digits denotes.
pub open spec fn digits_value(s: Seq<char>) -> int
    decreases s.len(),
{
    if s.len() == 0 {
        0
    } else {
        digits_value(s.drop_last()) * 10 + digit_value(s.last())
    }
}

pub open spec fn has_sign(s: Seq<char>) -> bool {
    s.len() > 0 && (s[0] == '+' || s[0] == '-')
}

pub open spec fn is_negative(s: Seq<char>) -> bool {
    s.len() > 0 && s[0] == '-'
}

/// The text after an optional leading sign.
pub open spec fn unsigned_part(s: Seq<char>) -> Seq<char> {
    if has_sign(s) {
        s.drop_first()
    } else {
        s
    }
}

pub open spec fn signed(negative: bool, magnitude: int) -> int {
    if negative {
        -magnitude
    } else {
        magnitude
    }
}

pub open spec fn in_i64(v: int) -> bool {
    i64::MIN <= v <= i64::MAX
}

/// The integer that `s` denotes: an optional sign followed by one or more
/// decimal digits, whose value fits in 64 bits.
pub open spec fn int_text_value(s: Seq<char>) -> Option<int> {
    let u = unsigned_part(s);
    let v = signed(is_negative(s), digits_value(u));
    if u.len() > 0 && all_digits(u) && in_i64(v) {
        Some(v)
    } else {
        None
    }
}

/// Position of the first decimal point in `s`, if any.
pub open spec fn point_index(s: Seq<char>) -> Option<int>
    decreases s.len(),
{
    if s.len() == 0 {
        None
    } else if s[0] == '.' {
        Some(0)
    } else {
        match point_index(s.drop_first()) {
            Some(k) => Some(k + 1),
            None => None,
        }
    }
}

/// The digits of an unsigned decimal numeral with its point left out.
pub open spec fn numeral_digits(u: Seq<char>) -> Seq<char> {
    match point_index(u) {
        Some(k) => u.subrange(0, k) + u.subrange(k + 1, u.len() as int),
        None => u,
    }
}

/// How many digits of an unsigned decimal numeral follow its point.
pub open spec fn numeral_scale(u: Seq<char>) -> int {
    match point_index(u) {
        Some(k) => u.len() - k - 1,
        None => 0,
    }
}

pub open spec fn is_exponent_mark(c: char) -> bool {
    c == 'e' || c == 'E'
}

/// Position of the first exponent mark (`e` or `E`) in `s`, if any.
pub open spec fn exponent_index(s: Seq<char>) -> Option<int>
    decreases s.len(),
{
    if s.len() == 0 {
        None
    } else if is_exponent_mark(s[0]) {
        Some(0)
    } else {
        match exponent_index(s.drop_first()) {
            Some(k) => Some(k + 1),
            None => None,
        }
    }
}

pub open spec fn pow10(n: nat) -> int
    decreases n,
{
    if n == 0 {
        1
    } else {
        10 * pow10((n - 1) as nat)
    }
}

/// The integer an exponent's text denotes: an optional sign, then one or
/// more decimal digits.
pub open spec fn exponent_value(x: Seq<char>) -> Option<int> {
    let u = unsigned_part(x);
    if u.len() > 0 && all_digits(u) {
        Some(signed(is_negative(x), digits_value(u)))
    } else {
        None
    }
}

/// The numeral of an unsigned decimal, before any exponent mark.
pub open spec fn numeral_part(u: Seq<char>) -> Seq<char> {
    match exponent_index(u) {
        Some(k) => u.subrange(0, k),
        None => u,
    }
}

/// The exponent of an unsigned decimal: zero where it has no exponent mark.
pub open spec fn exponent_part(u: Seq<char>) -> Option<int> {
    match exponent_index(u) {
        Some(k) => exponent_value(u.subrange(k + 1, u.len() as int)),
        None => Some(0),
    }
}

/// The decimal `s` denotes, as (mantissa, scale) with value
/// `mantissa / 10^scale`: an optional sign, then digits with at most one
/// point among them and at least one digit, then optionally `e` or `E` and a
/// signed exponent. A negative scale is folded into the mantissa. The mantissa
/// must fit in 64 bits and the scale in 32.
pub open spec fn decimal_text_value(s: Seq<char>) -> Option<(int, int)> {
    let u = unsigned_part(s);
    let m = numeral_part(u);
    let d = numeral_digits(m);
    let e = exponent_part(u);
    if d.len() > 0 && all_digits(d) && e is Some {
        let raw = numeral_scale(m) - e->Some_0;
        let mag = if raw >= 0 {
            digits_value(d)
        } else {
            digits_value(d) * pow10((-raw) as nat)
        };
        let scale = if raw >= 0 {
            raw
        } else {
            0
        };
        let v = signed(is_negative(s), mag);
        if in_i64(v) && scale <= u32::MAX {
            Some((v, scale))
        } else {
            None
        }
    } else {
        None
    }
}

/// The type that a string failed to become.
#[derive(Clone, Copy, Debug, PartialEq, Eq, Structural)]
pub enum NumericTarget {
    Integer,
    Decimal,
}

/// A string that does not denote a number of the requested type.
#[derive(Clone, Debug)]
pub struct CoercionError {
    pub text: String,
    pub target: NumericTarget,
}

impl CoercionError {
    pub fn message(&self) -> (r: String)
        ensures
            r@ == self.text@,
    {
        self.text.clone()
    }
}

/// A fixed-point number: `mantissa / 10^scale`.
#[derive(Clone, Copy, Debug, PartialEq, Eq, Structural)]
pub struct Decimal {
    pub mantissa: i64,
    pub scale: u32,
}

pub proof fn lemma_digits_value_nonneg(s: Seq<char>)
    requires
        all_digits(s),
    ensures
        digits_value(s) >= 0,
    decreases s.len(),
{
    if s.len() > 0 {
        assert(is_digit(s[s.len() - 1]));
        lemma_digits_value_nonneg(s.drop_last());
    }
}

/// The characters of `s`, one by one.
fn chars_of(s: &str) -> (r: Vec<char>)
    ensures
        r@ == s@,
{
    let n = s.unicode_len();
    let mut r: Vec<char> = Vec::new();
    let mut i: usize = 0;
    while i < n
        invariant
            n == s@.len(),
            i <= n,
            r@ == s@.subrange(0, i as int),
        decreases n - i,
    {
        r.push(s.get_char(i));
        i = i + 1;
    }
    assert(r@ =~= s@);
    r
}

/// Largest exponent magnitude that is tracked exactly.
pub const EXPONENT_LIMIT: u128 = 1267650600228229401496703205376;

/// The value of a run of digits, or `None` where it exceeds `limit`.
fn bounded_value(ds: &Vec<char>, limit: u128) -> (r: Option<u128>)
    requires
        all_digits(ds@),
        limit <= EXPONENT_LIMIT,
    ensures
        match r {
            Some(m) => m as int == digits_value(ds@) && m <= limit,
            None => digits_value(ds@) > limit,
        },
{
    let mut m: u128 = 0;
    let mut over = false;
    let mut i: usize = 0;
    while i < ds.len()
        invariant
            all_digits(ds@),
            limit <= EXPONENT_LIMIT,
            i <= ds.len(),
            over ==> digits_value(ds@.subrange(0, i as int)) > limit,
            !over ==> m as int == digits_value(ds@.subrange(0, i as int)) && m <= limit,
        decreases ds.len() - i,
    {
        let c = ds[i];
        assert(is_digit(ds@[i as int]));
        proof {
            let pre = ds@.subrange(0, i as int);
            assert(ds@.subrange(0, i as int + 1).drop_last() =~= pre);
            lemma_digits_value_nonneg(pre);
        }
        if !over {
            let d = (c as u32 - '0' as u32) as u128;
            m = m * 10 + d;
            if m > limit {
                over = true;
            }
        }
        i = i + 1;
    }
    assert(ds@.subrange(0, ds.len() as int) =~= ds@);
    if over {
        None
    } else {
        Some(m)
    }
}

/// The value of a run of digits, or `None` where it exceeds the magnitude
/// limit.
fn magnitude(ds: &Vec<char>) -> (r: Option<u64>)
    requires
        all_digits(ds@),
    ensures
        match r {
            Some(m) => m as int == digits_value(ds@) && m <= MAGNITUDE_LIMIT,
            None => digits_value(ds@) > MAGNITUDE_LIMIT,
        },
{
    match bounded_value(ds, MAGNITUDE_LIMIT as u128) {
        Some(m) => Some(m as u64),
        None => None,
    }
}

/// Applies a sign to a magnitude, where the result fits in 64 bits.
fn signed_value(negative: bool, m: u64) -> (r: Option<i64>)
    requires
        m <= MAGNITUDE_LIMIT,
    ensures
        match r {
            Some(v) => v as int == signed(negative, m as int),
            None => !in_i64(signed(negative, m as int)),
        },
{
    if negative {
        if m == MAGNITUDE_LIMIT {
            Some(i64::MIN)
        } else {
            Some(-(m as i64))
        }
    } else if m <= i64::MAX as u64 {
        Some(m as i64)
    } else {
        None
    }
}

/// Parses a string-encoded integer: an optional `+` or `-`, then one or more
/// decimal digits, with a value that fits in an `i64`.
pub fn de_from_str_to_int(s: &str) -> (r: Result<i64, CoercionError>)
    ensures
        match r {
            Ok(v) => int_text_value(s@) == Some(v as int),
            Err(e) => int_text_value(s@) is None && e.text@ == s@ && e.target
                == NumericTarget::Integer,
        },
{
    let cs = chars_of(s);
    let negative = cs.len() > 0 && cs[0] == '-';
    let start: usize = if cs.len() > 0 && (cs[0] == '+' || cs[0] == '-') {
        1
    } else {
        0
    };
    assert(cs@.subrange(start as int, cs.len() as int) =~= unsigned_part(s@));
    let mut ds: Vec<char> = Vec::new();
    let mut i: usize = start;
    while i < cs.len()
        invariant
            start <= i <= cs.len(),
            cs@ == s@,
            cs@.subrange(start as int, cs.len() as int) == unsigned_part(s@),
            ds@ == cs@.subrange(start as int, i as int),
            all_digits(ds@),
        decreases cs.len() - i,
    {
        let c = cs[i];
        if !('0' <= c && c <= '9') {
            let e = CoercionError { text: String::from_str(s), target: NumericTarget::Integer };
            assert(unsigned_part(s@)[i - start] == c);
            assert(!all_digits(unsigned_part(s@)));
            return Err(e);
        }
        ds.push(c);
        i = i + 1;
    }
    assert(ds@ =~= unsigned_part(s@));
    let fail = CoercionError { text: String::from_str(s), target: NumericTarget::Integer };
    if ds.len() == 0 {
        return Err(fail);
    }
    match magnitude(&ds) {
        None => {
            proof {
                lemma_digits_value_nonneg(ds@);
            }
            Err(fail)
        },
        Some(m) => match signed_value(negative, m) {
            Some(v) => Ok(v),
            None => Err(fail),
        },
    }
}

proof fn lemma_point_index(u: Seq<char>, j: int)
    requires
        0 <= j <= u.len(),
        forall|t: int| 0 <= t < j ==> u[t] != '.',
    ensures
        point_index(u) matches Some(k) ==> j <= k < u.len() && u[k] == '.',
        j < u.len() && u[j] == '.' ==> point_index(u) == Some(j),
        j == u.len() ==> point_index(u) is None,
    decreases u.len(),
{
    if u.len() > 0 {
        let v = u.drop_first();
        if u[0] != '.' {
            lemma_point_index(v, if j > 0 { j - 1 } else { 0 });
        }
    }
}

proof fn lemma_exponent_index(u: Seq<char>, j: int)
    requires
        0 <= j <= u.len(),
        forall|t: int| 0 <= t < j ==> !is_exponent_mark(u[t]),
    ensures
        j < u.len() && is_exponent_mark(u[j]) ==> exponent_index(u) == Some(j),
        j == u.len() ==> exponent_index(u) is None,
    decreases u.len(),
{
    if u.len() > 0 {
        let v = u.drop_first();
        if !is_exponent_mark(u[0]) {
            lemma_exponent_index(v, if j > 0 { j - 1 } else { 0 });
        }
    }
}

proof fn lemma_pow10_grows(a: nat, b: nat)
    requires
        a <= b,
    ensures
        1 <= pow10(a) <= pow10(b),
    decreases b,
{
    if b > a {
        lemma_pow10_grows(a, (b - 1) as nat);
    } else if a > 0 {
        lemma_pow10_grows((a - 1) as nat, (a - 1) as nat);
    }
}

proof fn lemma_pow10_past_limit(n: nat)
    requires
        n >= 19,
    ensures
        pow10(n) > MAGNITUDE_LIMIT,
{
    reveal_with_fuel(pow10, 20);
    assert(pow10(19) == 10000000000000000000int);
    lemma_pow10_grows(19, n);
}

/// The characters of `cs` from `from` up to `to`.
fn slice_chars(cs: &Vec<char>, from: usize, to: usize) -> (r: Vec<char>)
    requires
        from <= to <= cs.len(),
    ensures
        r@ == cs@.subrange(from as int, to as int),
{
    let mut r: Vec<char> = Vec::new();
    let mut i: usize = from;
    while i < to
        invariant
            from <= i <= to <= cs.len(),
            r@ == cs@.subrange(from as int, i as int),
        decreases to - i,
    {
        r.push(cs[i]);
        i = i + 1;
    }
    r
}

fn digits_only(x: &Vec<char>) -> (r: bool)
    ensures
        r == all_digits(x@),
{
    let mut i: usize = 0;
    while i < x.len()
        invariant
            i <= x.len(),
            forall|t: int| 0 <= t < i ==> is_digit(#[trigger] x@[t]),
        decreases x.len() - i,
    {
        if !('0' <= x[i] && x[i] <= '9') {
            return false;
        }
        i = i + 1;
    }
    true
}

/// Position of the first exponent mark.
fn find_exponent(u: &Vec<char>) -> (r: Option<usize>)
    ensures
        match r {
            Some(k) => k < u.len() && exponent_index(u@) == Some(k as int),
            None => exponent_index(u@) is None,
        },
{
    let mut i: usize = 0;
    while i < u.len()
        invariant
            i <= u.len(),
            forall|t: int| 0 <= t < i ==> !is_exponent_mark(u@[t]),
        decreases u.len() - i,
    {
        if u[i] == 'e' || u[i] == 'E' {
            proof {
                lemma_exponent_index(u@, i as int);
            }
            return Some(i);
        }
        i = i + 1;
    }
    proof {
        lemma_exponent_index(u@, u.len() as int);
    }
    None
}

/// The digits and the scale of an unsigned numeral with at most one point.
fn scan_numeral(u: &Vec<char>) -> (r: Option<(Vec<char>, usize)>)
    ensures
        match r {
            Some((ds, sc)) => ds@ == numeral_digits(u@) && all_digits(ds@) && sc
                == numeral_scale(u@),
            None => !all_digits(numeral_digits(u@)),
        },
{
    let mut ds: Vec<char> = Vec::new();
    let mut point: Option<usize> = None;
    let mut i: usize = 0;
    while i < u.len()
        invariant
            i <= u.len(),
            all_digits(ds@),
            match point {
                None => ds@ == u@.subrange(0, i as int) && forall|t: int|
                    0 <= t < i ==> u@[t] != '.',
                Some(k) => k < i && u@[k as int] == '.' && (forall|t: int|
                    0 <= t < k ==> u@[t] != '.') && ds@ == u@.subrange(0, k as int)
                    + u@.subrange(k + 1, i as int),
            },
        decreases u.len() - i,
    {
        let c = u[i];
        if c == '.' && point.is_none() {
            point = Some(i);
            assert(ds@ =~= u@.subrange(0, i as int) + u@.subrange(i + 1, i + 1));
        } else if '0' <= c && c <= '9' {
            ds.push(c);
            proof {
                match point {
                    None => {
                        assert(ds@ =~= u@.subrange(0, i + 1));
                    },
                    Some(k) => {
                        assert(ds@ =~= u@.subrange(0, k as int) + u@.subrange(k + 1, i + 1));
                    },
                }
            }
        } else {
            proof {
                let t = i as int;
                match point {
                    None => {
                        lemma_point_index(u@, t + 1);
                        assert(numeral_digits(u@)[t] == c);
                        assert(!is_digit(numeral_digits(u@)[t]));
                    },
                    Some(k) => {
                        lemma_point_index(u@, k as int);
                        assert(numeral_digits(u@)[t - 1] == c);
                        assert(!is_digit(numeral_digits(u@)[t - 1]));
                    },
                }
            }
            return None;
        }
        i = i + 1;
    }
    match point {
        Some(k) => {
            proof {
                lemma_point_index(u@, k as int);
                assert(numeral_digits(u@) =~= ds@);
            }
            Some((ds, u.len() - k - 1))
        },
        None => {
            proof {
                lemma_point_index(u@, u.len() as int);
                assert(u@.subrange(0, u.len() as int) =~= u@);
            }
            Some((ds, 0))
        },
    }
}

/// Multiplies a magnitude by `10^shift`, or `None` where the product exceeds
/// the magnitude limit.
fn shifted(m: u64, shift: u128) -> (r: Option<u64>)
    requires
        m <= MAGNITUDE_LIMIT,
    ensures
        match r {
            Some(p) => p as int == m * pow10(shift as nat) && p <= MAGNITUDE_LIMIT,
            None => m * pow10(shift as nat) > MAGNITUDE_LIMIT,
        },
{
    if m == 0 {
        assert(m * pow10(shift as nat) == 0);
        return Some(0);
    }
    if shift > 19 {
        proof {
            lemma_pow10_past_limit(shift as nat);
            assert(m * pow10(shift as nat) >= pow10(shift as nat)) by (nonlinear_arith)
                requires
                    m >= 1,
                    pow10(shift as nat) >= 1,
            ;
        }
        return None;
    }
    let mut p: u128 = m as u128;
    let mut t: u128 = 0;
    while t < shift
        invariant
            t <= shift <= 19,
            1 <= m <= MAGNITUDE_LIMIT,
            p as int == m * pow10(t as nat),
            p <= MAGNITUDE_LIMIT,
        decreases shift - t,
    {
        assert(pow10((t + 1) as nat) == 10 * pow10(t as nat));
        assert(m * pow10((t + 1) as nat) == 10 * (m * pow10(t as nat))) by (nonlinear_arith)
            requires
                pow10((t + 1) as nat) == 10 * pow10(t as nat),
        ;
        p = p * 10;
        t = t + 1;
        if p > MAGNITUDE_LIMIT as u128 {
            proof {
                lemma_pow10_grows(t as nat, shift as nat);
                assert(m * pow10(shift as nat) >= m * pow10(t as nat)) by (nonlinear_arith)
                    requires
                        m >= 1,
                        pow10(shift as nat) >= pow10(t as nat),
                ;
            }
            return None;
        }
    }
    Some(p as u64)
}

/// Parses a string-encoded decimal into a fixed-point value: an optional `+`
/// or `-`, then decimal digits with at most one point among them and at least
/// one digit, then optionally `e` or `E` and a signed exponent. The result
/// must have a mantissa that fits in an `i64` and a scale that fits in a `u32`;
/// the names of infinities and of NaN are not numerals here.
pub fn de_from_str_to_float(s: &str) -> (r: Result<Decimal, CoercionError>)
    ensures
        match r {
            Ok(d) => decimal_text_value(s@) == Some((d.mantissa as int, d.scale as int)),
            Err(e) => decimal_text_value(s@) is None && e.text@ == s@ && e.target
                == NumericTarget::Decimal,
        },
{
    let cs = chars_of(s);
    let negative = cs.len() > 0 && cs[0] == '-';
    let start: usize = if cs.len() > 0 && (cs[0] == '+' || cs[0] == '-') {
        1
    } else {
        0
    };
    let fail = CoercionError { text: String::from_str(s), target: NumericTarget::Decimal };
    let u = slice_chars(&cs, start, cs.len());
    assert(u@ =~= unsigned_part(s@));
    let mark = find_exponent(&u);
    let numeral = match mark {
        Some(k) => slice_chars(&u, 0, k),
        None => slice_chars(&u, 0, u.len()),
    };
    assert(numeral@ =~= numeral_part(u@));
    let mut exp_negative = false;
    let mut exp_mag: Option<u128> = Some(0);
    if let Some(k) = mark {
        let x = slice_chars(&u, k + 1, u.len());
        let x_start: usize = if x.len() > 0 && (x[0] == '+' || x[0] == '-') {
            1
        } else {
            0
        };
        let xd = slice_chars(&x, x_start, x.len());
        assert(xd@ =~= unsigned_part(x@));
        if xd.len() == 0 || !digits_only(&xd) {
            return Err(fail);
        }
        exp_negative = x.len() > 0 && x[0] == '-';
        exp_mag = bounded_value(&xd, EXPONENT_LIMIT);
    }
    let ghost e = exponent_part(u@);
    assert(e is Some);
    assert(match exp_mag {
        Some(em) => e->Some_0 == signed(exp_negative, em as int),
        None => if exp_negative {
            e->Some_0 < -EXPONENT_LIMIT
        } else {
            e->Some_0 > EXPONENT_LIMIT
        },
    });
    let (ds, sc0) = match scan_numeral(&numeral) {
        Some(p) => p,
        None => {
            return Err(fail);
        },
    };
    if ds.len() == 0 {
        return Err(fail);
    }
    let ghost d = numeral_digits(numeral@);
    let ghost raw = sc0 - e->Some_0;
    proof {
        lemma_digits_value_nonneg(d);
    }
    match exp_mag {
        None => {
            if exp_negative {
                return Err(fail);
            }
            proof {
                lemma_pow10_grows(0, (-raw) as nat);
            }
            match magnitude(&ds) {
                None => {
                    assert(digits_value(d) * pow10((-raw) as nat) >= digits_value(d))
                        by (nonlinear_arith)
                        requires
                            digits_value(d) >= 0,
                            pow10((-raw) as nat) >= 1,
                    ;
                    Err(fail)
                },
                Some(m) => match shifted(m, 19) {
                    Some(p) => {
                        proof {
                            lemma_pow10_past_limit(19);
                            assert(m == 0) by (nonlinear_arith)
                                requires
                                    p == m * pow10(19),
                                    p <= MAGNITUDE_LIMIT,
                                    pow10(19) > MAGNITUDE_LIMIT,
                            ;
                            assert(digits_value(d) * pow10((-raw) as nat) == 0);
                        }
                        Ok(Decimal { mantissa: 0, scale: 0 })
                    },
                    None => {
                        proof {
                            lemma_pow10_grows(19, (-raw) as nat);
                            assert(m * pow10((-raw) as nat) >= m * pow10(19))
                                by (nonlinear_arith)
                                requires
                                    m >= 0,
                                    pow10((-raw) as nat) >= pow10(19),
                            ;
                        }
                        Err(fail)
                    },
                },
            }
        },
        Some(em) => {
            let raw_exec: i128 = if exp_negative {
                sc0 as i128 + em as i128
            } else {
                sc0 as i128 - em as i128
            };
            assert(raw_exec == raw);
            if raw_exec >= 0 {
                if raw_exec > u32::MAX as i128 {
                    return Err(fail);
                }
                match magnitude(&ds) {
                    None => Err(fail),
                    Some(m) => match signed_value(negative, m) {
                        Some(v) => Ok(Decimal { mantissa: v, scale: raw_exec as u32 }),
                        None => Err(fail),
                    },
                }
            } else {
                let shift = (-raw_exec) as u128;
                proof {
                    lemma_pow10_grows(0, shift as nat);
                }
                match magnitude(&ds) {
                    None => {
                        assert(digits_value(d) * pow10(shift as nat) >= digits_value(d))
                            by (nonlinear_arith)
                            requires
                                digits_value(d) >= 0,
                                pow10(shift as nat) >= 1,
                        ;
                        Err(fail)
                    },
                    Some(m) => match shifted(m, shift) {
                        Some(p) => match signed_value(negative, p) {
                            Some(v) => Ok(Decimal { mantissa: v, scale: 0 }),
                            None => Err(fail),
                        },
                        None => Err(fail),
                    },
                }
            }
        },
    }
}

} // verus!
