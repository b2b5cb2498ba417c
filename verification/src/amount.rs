//! Fixed-point decimal quantities.
//!
//! Every numeric quantity of the protocol (mass, distance, emission factor,
//! PCF value) is a non-negative decimal with at most six fractional digits,
//! stored as an integer count of millionths in an [`Amount`]. The protocol
//! requires the emission calculation to be bit-reproducible across independent
//! re-executions, so all arithmetic on quantities is exact integer arithmetic;
//! the product of two quantities is truncated back to six fractional digits.

use vstd::prelude::*;

verus! {

/// Number of [`Amount`] steps that make up one whole unit.
pub const MICROS_PER_UNIT: u64 = 1_000_000;

/// A non-negative fixed-point decimal: `micros` millionths of a unit.
#[derive(Clone, Copy, Debug, PartialEq, Eq, Structural)]
pub struct Amount {
    pub micros: u64,
}

impl Amount {
    /// The quantity as an exact count of millionths.
    pub open spec fn as_int(self) -> int {
        self.micros as int
    }

    pub fn zero() -> (r: Amount)
        ensures
            r.micros == 0,
    {
        Amount { micros: 0 }
    }

    pub fn from_micros(micros: u64) -> (r: Amount)
        ensures
            r.micros == micros,
    {
        Amount { micros }
    }

    pub fn as_micros(&self) -> (r: u64)
        ensures
            r == self.micros,
    {
        self.micros
    }

    /// Exact sum of two quantities; `None` when the sum does not fit.
    pub fn checked_add(self, other: Amount) -> (r: Option<Amount>)
        ensures
            self.as_int() + other.as_int() <= u64::MAX ==> r == Some(Amount {
                micros: (self.micros + other.micros) as u64,
            }),
            self.as_int() + other.as_int() > u64::MAX ==> r is None,
    {
        match self.micros.checked_add(other.micros) {
            Some(m) => Some(Amount { micros: m }),
            None => None,
        }
    }

    /// The product of two quantities, truncated to six fractional digits;
    /// `None` when the product does not fit.
    pub fn checked_mul(self, other: Amount) -> (r: Option<Amount>)
        ensures
            mul_fixed(self.as_int(), other.as_int()) <= u64::MAX ==> r == Some(Amount {
                micros: mul_fixed(self.as_int(), other.as_int()) as u64,
            }),
            mul_fixed(self.as_int(), other.as_int()) > u64::MAX ==> r is None,
    {
        proof {
            lemma_mul_fixed_bounds(self.as_int(), other.as_int());
            assert(u64::MAX * u64::MAX < u128::MAX);
        }
        let wide: u128 = (self.micros as u128) * (other.micros as u128);
        let q: u128 = wide / (MICROS_PER_UNIT as u128);
        proof {
            assert(q == mul_fixed(self.as_int(), other.as_int()));
        }
        if q > u64::MAX as u128 {
            None
        } else {
            Some(Amount { micros: q as u64 })
        }
    }
}

/// Fixed-point product: the mathematical product scaled back to millionths,
/// truncating toward zero.
pub open spec fn mul_fixed(a: int, b: int) -> int {
    (a * b) / (MICROS_PER_UNIT as int)
}

pub proof fn lemma_mul_fixed_nonneg(a: int, b: int)
    requires
        0 <= a,
        0 <= b,
    ensures
        0 <= mul_fixed(a, b),
{
    assert(0 <= (a * b) / (MICROS_PER_UNIT as int)) by (nonlinear_arith)
        requires
            0 <= a,
            0 <= b,
    ;
}

proof fn lemma_mul_fixed_bounds(a: int, b: int)
    requires
        0 <= a <= u64::MAX,
        0 <= b <= u64::MAX,
    ensures
        0 <= a * b <= u64::MAX * u64::MAX,
        0 <= mul_fixed(a, b) <= a * b,
{
    assert(0 <= a * b <= u64::MAX * u64::MAX) by (nonlinear_arith)
        requires
            0 <= a <= u64::MAX,
            0 <= b <= u64::MAX,
    ;
    assert(0 <= (a * b) / (MICROS_PER_UNIT as int) <= a * b) by (nonlinear_arith)
        requires
            0 <= a * b,
    ;
}

pub open spec fn is_digit(c: char) -> bool {
    '0' <= c && c <= '9'
}

pub open spec fn digit_val(c: char) -> int {
    c as int - '0' as int
}

pub open spec fn all_digits(s: Seq<char>) -> bool {
    forall|i: int| 0 <= i < s.len() ==> is_digit(#[trigger] s[i])
}

/// The number denoted by a sequence of decimal digits, most significant first.
pub open spec fn digits_val(s: Seq<char>) -> int
    decreases s.len(),
{
    if s.len() == 0 {
        0
    } else {
        digits_val(s.drop_last()) * 10 + digit_val(s.last())
    }
}

pub open spec fn pow10(n: nat) -> int
    decreases n,
{
    if n == 0 {
        1
    } else {
        10 * pow10((n - 1) as nat)
    }
}

/// Index of the first occurrence of `c` in `s`, or `s.len()` if absent.
pub open spec fn char_pos(s: Seq<char>, c: char) -> int
    decreases s.len(),
{
    if s.len() == 0 {
        0
    } else if s[0] == c {
        0
    } else {
        1 + char_pos(s.drop_first(), c)
    }
}

/// The written form of a quantity: an integer part of one or more digits,
/// then a point and one to six fractional digits; the fractional part may
/// be omitted altogether.
pub open spec fn valid_decimal(t: Seq<char>) -> bool {
    let d = char_pos(t, '.');
    if d == t.len() {
        t.len() > 0 && all_digits(t)
    } else {
        let fp = t.skip(d + 1);
        d > 0 && all_digits(t.take(d)) && 1 <= fp.len() <= 6 && all_digits(fp)
    }
}

/// The number of millionths a valid decimal denotes.
pub open spec fn micros_of(t: Seq<char>) -> int {
    let d = char_pos(t, '.');
    if d == t.len() {
        digits_val(t) * (MICROS_PER_UNIT as int)
    } else {
        let fp = t.skip(d + 1);
        digits_val(t.take(d)) * (MICROS_PER_UNIT as int) + digits_val(fp) * pow10(
            (6 - fp.len()) as nat,
        )
    }
}

proof fn lemma_digits_val_nonneg(s: Seq<char>)
    requires
        all_digits(s),
    ensures
        digits_val(s) >= 0,
    decreases s.len(),
{
    if s.len() > 0 {
        lemma_digits_val_nonneg(s.drop_last());
    }
}

proof fn lemma_digits_val_upper(s: Seq<char>)
    requires
        all_digits(s),
    ensures
        digits_val(s) < pow10(s.len()),
    decreases s.len(),
{
    if s.len() > 0 {
        lemma_digits_val_upper(s.drop_last());
    }
}

proof fn lemma_digits_val_take_le(s: Seq<char>, i: int)
    requires
        all_digits(s),
        0 <= i <= s.len(),
    ensures
        0 <= digits_val(s.take(i)) <= digits_val(s),
    decreases s.len(),
{
    assert(all_digits(s.take(i)));
    lemma_digits_val_nonneg(s.take(i));
    if i == s.len() {
        assert(s.take(i) =~= s);
    } else {
        let shorter = s.drop_last();
        assert(all_digits(shorter));
        assert(shorter.take(i) =~= s.take(i));
        lemma_digits_val_take_le(shorter, i);
        lemma_digits_val_nonneg(shorter);
    }
}

pub(crate) proof fn lemma_char_pos_spec(s: Seq<char>, c: char)
    ensures
        0 <= char_pos(s, c) <= s.len(),
        char_pos(s, c) < s.len() ==> s[char_pos(s, c)] == c,
        forall|j: int| 0 <= j < char_pos(s, c) ==> s[j] != c,
    decreases s.len(),
{
    if s.len() > 0 && s[0] != c {
        lemma_char_pos_spec(s.drop_first(), c);
        let p = char_pos(s, c);
        if p < s.len() {
            assert(s[p] == s.drop_first()[p - 1]);
        }
        assert forall|j: int| 0 <= j < p implies s[j] != c by {
            if j > 0 {
                assert(s[j] == s.drop_first()[j - 1]);
            }
        }
    }
}

pub(crate) proof fn lemma_char_pos_is(s: Seq<char>, c: char, i: int)
    requires
        0 <= i <= s.len(),
        forall|j: int| 0 <= j < i ==> s[j] != c,
        i < s.len() ==> s[i] == c,
        i == s.len() ==> forall|j: int| 0 <= j < s.len() ==> s[j] != c,
    ensures
        char_pos(s, c) == i,
    decreases s.len(),
{
    if s.len() > 0 && s[0] != c {
        lemma_char_pos_is(s.drop_first(), c, i - 1);
    }
}

/// Relies on std's `String::push`: appends one character at the end.
#[verifier::external_body]
fn push_char(s: &mut String, c: char)
    ensures
        final(s)@ == old(s)@.push(c),
{
    s.push(c);
}

fn exec_pow10(w: u64) -> (r: u64)
    requires
        w <= 6,
    ensures
        r == pow10(w as nat),
        r >= 1,
{
    let r: u64 = match w {
        0 => 1,
        1 => 10,
        2 => 100,
        3 => 1_000,
        4 => 10_000,
        5 => 100_000,
        _ => 1_000_000,
    };
    proof {
        assert(pow10(0) == 1);
        assert(pow10(1) == 10);
        assert(pow10(2) == 100);
        assert(pow10(3) == 1000);
        assert(pow10(4) == 10000);
        assert(pow10(5) == 100000);
        assert(pow10(6) == 1000000);
    }
    r
}

/// The quantity a decimal text denotes: its count of millionths, when the
/// text is a valid decimal and the quantity is representable.
pub open spec fn decimal_value(t: Seq<char>) -> Option<int> {
    if valid_decimal(t) && 0 <= micros_of(t) <= u64::MAX {
        Some(micros_of(t))
    } else {
        None
    }
}

/// Index of the first occurrence of `c`, or the character length if absent.
pub(crate) fn find_char(t: &str, c: char) -> (r: usize)
    ensures
        r == char_pos(t@, c),
        r <= t@.len(),
{
    let n = t.unicode_len();
    let mut i: usize = 0;
    while i < n
        invariant
            0 <= i <= n,
            n == t@.len(),
            forall|j: int| 0 <= j < i ==> t@[j] != c,
        decreases n - i,
    {
        if t.get_char(i) == c {
            proof {
                lemma_char_pos_is(t@, c, i as int);
            }
            return i;
        }
        i = i + 1;
    }
    proof {
        lemma_char_pos_is(t@, c, n as int);
    }
    n
}

/// Value of the digit run `t[from..to]`; `None` when a non-digit occurs in it
/// or the value exceeds `u64::MAX`.
fn parse_digit_run(t: &str, from: usize, to: usize) -> (r: Option<u64>)
    requires
        from <= to <= t@.len(),
    ensures
        match r {
            Some(v) => all_digits(t@.subrange(from as int, to as int)) && v == digits_val(
                t@.subrange(from as int, to as int),
            ),
            None => !(all_digits(t@.subrange(from as int, to as int)) && digits_val(
                t@.subrange(from as int, to as int),
            ) <= u64::MAX),
        },
{
    let ghost whole = t@.subrange(from as int, to as int);
    let mut acc: u64 = 0;
    let mut i: usize = from;
    proof {
        assert(whole.take(0) =~= Seq::<char>::empty());
    }
    while i < to
        invariant
            from <= i <= to <= t@.len(),
            whole == t@.subrange(from as int, to as int),
            all_digits(whole.take(i - from)),
            acc == digits_val(whole.take(i - from)),
        decreases to - i,
    {
        let c = t.get_char(i);
        proof {
            assert(whole[i - from] == t@[i as int]);
        }
        if !('0' <= c && c <= '9') {
            proof {
                assert(!is_digit(whole[i - from]));
            }
            return None;
        }
        let d: u64 = (c as u32 - '0' as u32) as u64;
        let ghost prefix = whole.take(i - from);
        let ghost extended = whole.take(i + 1 - from);
        proof {
            assert(extended =~= prefix.push(whole[i - from]));
            assert(extended.drop_last() =~= prefix);
            assert(digits_val(extended) == acc * 10 + d);
        }
        let step = match acc.checked_mul(10) {
            Some(x) => x.checked_add(d),
            None => None,
        };
        match step {
            Some(x) => {
                acc = x;
            },
            None => {
                proof {
                    if all_digits(whole) {
                        lemma_digits_val_take_le(whole, i + 1 - from);
                        lemma_digits_val_nonneg(extended);
                    }
                }
                return None;
            },
        }
        i = i + 1;
    }
    proof {
        assert(whole.take(to - from) =~= whole);
    }
    Some(acc)
}

impl Amount {
    /// Reads a quantity from its written decimal form. `None` when the text
    /// is not a valid decimal or denotes more than the largest quantity.
    pub fn parse_decimal(t: &str) -> (r: Option<Amount>)
        ensures
            match r {
                Some(a) => valid_decimal(t@) && micros_of(t@) == a.as_int(),
                None => !(valid_decimal(t@) && micros_of(t@) <= u64::MAX),
            },
    {
        proof {
            lemma_char_pos_spec(t@, '.');
        }
        let n = t.unicode_len();
        let d = find_char(t, '.');
        if d == n {
            // no fractional part
            if n == 0 {
                return None;
            }
            let vi = match parse_digit_run(t, 0, n) {
                Some(v) => v,
                None => {
                    proof {
                        assert(t@.subrange(0, n as int) =~= t@);
                        if all_digits(t@) {
                            lemma_digits_val_nonneg(t@);
                            assert(digits_val(t@) * (MICROS_PER_UNIT as int) >= digits_val(t@))
                                by (nonlinear_arith)
                                requires
                                    digits_val(t@) >= 0,
                            ;
                        }
                    }
                    return None;
                },
            };
            proof {
                assert(t@.subrange(0, n as int) =~= t@);
            }
            match vi.checked_mul(MICROS_PER_UNIT) {
                Some(m) => Some(Amount { micros: m }),
                None => None,
            }
        } else {
            if d == 0 {
                return None;
            }
            let fp_len = n - (d + 1);
            if fp_len < 1 || fp_len > 6 {
                return None;
            }
            let ghost ip = t@.take(d as int);
            let ghost fp = t@.skip(d + 1);
            proof {
                assert(t@.subrange(0, d as int) =~= ip);
                assert(t@.subrange(d + 1, n as int) =~= fp);
            }
            proof {
                if valid_decimal(t@) {
                    lemma_digits_val_nonneg(ip);
                    lemma_digits_val_nonneg(fp);
                    lemma_pow10_pos((6 - fp.len()) as nat);
                    assert(digits_val(fp) * pow10((6 - fp.len()) as nat) >= 0)
                        by (nonlinear_arith)
                        requires
                            digits_val(fp) >= 0,
                            pow10((6 - fp.len()) as nat) >= 1,
                    ;
                }
            }
            let vi = match parse_digit_run(t, 0, d) {
                Some(v) => v,
                None => {
                    proof {
                        if valid_decimal(t@) {
                            assert(digits_val(ip) * (MICROS_PER_UNIT as int) >= digits_val(ip))
                                by (nonlinear_arith)
                                requires
                                    digits_val(ip) >= 0,
                            ;
                        }
                    }
                    return None;
                },
            };
            let vf = match parse_digit_run(t, d + 1, n) {
                Some(v) => v,
                None => {
                    proof {
                        if all_digits(fp) {
                            lemma_digits_val_upper(fp);
                            lemma_pow10_vals();
                            lemma_pow10_mono(fp.len() as nat, 6);
                        }
                    }
                    return None;
                },
            };
            proof {
                lemma_digits_val_upper(fp);
                lemma_digits_val_nonneg(fp);
                lemma_digits_val_nonneg(ip);
            }
            let scale = exec_pow10(6 - fp_len as u64);
            proof {
                lemma_pow10_mul_bound(vf as int, fp.len() as int);
            }
            let frac_micros: u64 = vf * scale;
            match vi.checked_mul(MICROS_PER_UNIT) {
                Some(m) => match m.checked_add(frac_micros) {
                    Some(total) => Some(Amount { micros: total }),
                    None => None,
                },
                None => {
                    proof {
                        assert(digits_val(ip) * (MICROS_PER_UNIT as int) >= digits_val(ip))
                            by (nonlinear_arith)
                            requires
                                digits_val(ip) >= 0,
                        ;
                    }
                    None
                },
            }
        }
    }
}

/// The character that writes the decimal digit `d`.
pub open spec fn digit_char(d: int) -> char {
    if d == 0 {
        '0'
    } else if d == 1 {
        '1'
    } else if d == 2 {
        '2'
    } else if d == 3 {
        '3'
    } else if d == 4 {
        '4'
    } else if d == 5 {
        '5'
    } else if d == 6 {
        '6'
    } else if d == 7 {
        '7'
    } else if d == 8 {
        '8'
    } else {
        '9'
    }
}

/// The shortest run of digits that writes the non-negative number `n`.
pub open spec fn digit_seq(n: int) -> Seq<char>
    decreases n,
{
    if n < 10 {
        seq![digit_char(n)]
    } else {
        digit_seq(n / 10).push(digit_char(n % 10))
    }
}

/// The run of exactly `w` digits that writes `n`, zero-padded at the front.
pub open spec fn digit_seq_pad(n: int, w: nat) -> Seq<char>
    decreases w,
{
    if w == 0 {
        Seq::empty()
    } else {
        digit_seq_pad(n / 10, (w - 1) as nat).push(digit_char(n % 10))
    }
}

proof fn lemma_digit_char(d: int)
    requires
        0 <= d <= 9,
    ensures
        is_digit(digit_char(d)),
        digit_val(digit_char(d)) == d,
{
}

proof fn lemma_digit_seq(n: int)
    requires
        n >= 0,
    ensures
        all_digits(digit_seq(n)),
        digits_val(digit_seq(n)) == n,
        digit_seq(n).len() >= 1,
    decreases n,
{
    if n < 10 {
        lemma_digit_char(n);
        let s = digit_seq(n);
        assert(s.len() == 1);
        assert(s.last() == digit_char(n));
        assert(s.drop_last() =~= Seq::<char>::empty());
        assert(digits_val(Seq::<char>::empty()) == 0);
        assert(digits_val(s) == digits_val(s.drop_last()) * 10 + digit_val(s.last()));
    } else {
        lemma_digit_seq(n / 10);
        lemma_digit_char(n % 10);
        let s = digit_seq(n);
        assert(s.last() == digit_char(n % 10));
        assert(s.drop_last() =~= digit_seq(n / 10));
        assert(digits_val(s) == digits_val(s.drop_last()) * 10 + digit_val(s.last()));
        assert(digits_val(s) == (n / 10) * 10 + n % 10);
        vstd::arithmetic::div_mod::lemma_fundamental_div_mod(n, 10);
    }
}

proof fn lemma_digit_seq_pad(n: int, w: nat)
    requires
        0 <= n < pow10(w),
    ensures
        all_digits(digit_seq_pad(n, w)),
        digits_val(digit_seq_pad(n, w)) == n,
        digit_seq_pad(n, w).len() == w,
    decreases w,
{
    if w == 0 {
        assert(n == 0);
    } else {
        assert(n / 10 < pow10((w - 1) as nat)) by (nonlinear_arith)
            requires
                0 <= n < 10 * pow10((w - 1) as nat),
        ;
        lemma_digit_seq_pad(n / 10, (w - 1) as nat);
        lemma_digit_char(n % 10);
        let s = digit_seq_pad(n, w);
        assert(s.drop_last() =~= digit_seq_pad(n / 10, (w - 1) as nat));
        assert(digits_val(s) == (n / 10) * 10 + n % 10);
        vstd::arithmetic::div_mod::lemma_fundamental_div_mod(n, 10);
    }
}

fn push_digit(s: &mut String, d: u64)
    requires
        d < 10,
    ensures
        final(s)@ == old(s)@.push(digit_char(d as int)),
{
    match d {
        0 => push_char(s, '0'),
        1 => push_char(s, '1'),
        2 => push_char(s, '2'),
        3 => push_char(s, '3'),
        4 => push_char(s, '4'),
        5 => push_char(s, '5'),
        6 => push_char(s, '6'),
        7 => push_char(s, '7'),
        8 => push_char(s, '8'),
        _ => push_char(s, '9'),
    }
}

fn append_u64(s: &mut String, n: u64)
    ensures
        final(s)@ == old(s)@ + digit_seq(n as int),
    decreases n,
{
    if n >= 10 {
        append_u64(s, n / 10);
        push_digit(s, n % 10);
        proof {
            assert((old(s)@ + digit_seq((n / 10) as int)).push(digit_char((n % 10) as int)) =~= old(
                s,
            )@ + digit_seq(n as int));
        }
    } else {
        push_digit(s, n);
        proof {
            assert(old(s)@.push(digit_char(n as int)) =~= old(s)@ + digit_seq(n as int));
        }
    }
}

fn append_u64_pad(s: &mut String, n: u64, w: u64)
    requires
        n < pow10(w as nat),
    ensures
        final(s)@ == old(s)@ + digit_seq_pad(n as int, w as nat),
    decreases w,
{
    if w > 0 {
        proof {
            assert((n as int) / 10 < pow10((w - 1) as nat)) by (nonlinear_arith)
                requires
                    0 <= n < 10 * pow10((w - 1) as nat),
            ;
        }
        append_u64_pad(s, n / 10, w - 1);
        push_digit(s, n % 10);
        proof {
            assert((old(s)@ + digit_seq_pad((n / 10) as int, (w - 1) as nat)).push(
                digit_char((n % 10) as int),
            ) =~= old(s)@ + digit_seq_pad(n as int, w as nat));
        }
    } else {
        proof {
            assert(old(s)@ + digit_seq_pad(n as int, 0) =~= old(s)@);
        }
    }
}

impl Amount {
    /// Writes the quantity as a decimal: the integer part, a point, and the
    /// fractional digits with trailing zeroes removed (at least one digit).
    /// [`Amount::parse_decimal`] reads the result back to the same quantity.
    pub fn to_decimal_string(&self) -> (r: String)
        ensures
            valid_decimal(r@),
            micros_of(r@) == self.as_int(),
    {
        let ip: u64 = self.micros / MICROS_PER_UNIT;
        let f: u64 = self.micros % MICROS_PER_UNIT;
        let mut s = String::new();
        append_u64(&mut s, ip);
        let ghost ipseq = digit_seq(ip as int);
        proof {
            lemma_digit_seq(ip as int);
            assert(s@ =~= ipseq);
        }
        push_char(&mut s, '.');
        let ghost mid = s@;
        let ghost mut fpseq = Seq::<char>::empty();
        if f == 0 {
            push_digit(&mut s, 0);
            proof {
                fpseq = seq![digit_char(0)];
                lemma_digit_char(0);
                assert(fpseq.len() == 1);
                assert(fpseq.last() == digit_char(0));
                assert(fpseq.drop_last() =~= Seq::<char>::empty());
                assert(digits_val(Seq::<char>::empty()) == 0);
                assert(digits_val(fpseq) == digits_val(fpseq.drop_last()) * 10 + digit_val(
                    fpseq.last(),
                ));
                assert(digits_val(fpseq) == 0);
                assert(s@ =~= mid + fpseq);
                lemma_pow10_pos((6 - fpseq.len()) as nat);
                assert(0 * pow10((6 - fpseq.len()) as nat) == 0);
            }
        } else {
            let mut v: u64 = f;
            let mut w: u64 = 6;
            proof {
                lemma_pow10_vals();
                assert(v as int * pow10(0) == f as int);
            }
            while v % 10 == 0
                invariant
                    1 <= w <= 6,
                    1 <= v,
                    v as int * pow10((6 - w) as nat) == f as int,
                    v < pow10(w as nat),
                    f < MICROS_PER_UNIT,
                decreases v,
            {
                proof {
                    assert(v >= 10);
                    if w == 1 {
                        reveal_with_fuel(pow10, 8);
                        assert(v as int * pow10(5) >= 10 * pow10(5)) by (nonlinear_arith)
                            requires
                                v >= 10,
                                pow10(5) >= 0,
                        ;
                        assert(false);
                    }
                    assert((v as int / 10) * pow10((6 - (w - 1)) as nat) == v as int * pow10(
                        (6 - w) as nat,
                    )) by (nonlinear_arith)
                        requires
                            v as int % 10 == 0,
                            v >= 10,
                            pow10((6 - (w - 1)) as nat) == 10 * pow10((6 - w) as nat),
                    ;
                    assert(v as int / 10 < pow10((w - 1) as nat)) by (nonlinear_arith)
                        requires
                            0 <= v as int,
                            (v as int) < 10 * pow10((w - 1) as nat),
                    ;
                }
                v = v / 10;
                w = w - 1;
            }
            append_u64_pad(&mut s, v, w);
            proof {
                lemma_digit_seq_pad(v as int, w as nat);
                fpseq = digit_seq_pad(v as int, w as nat);
                assert(s@ =~= mid + fpseq);
            }
        }
        proof {
            let t = s@;
            let dlen = ipseq.len() as int;
            assert(t =~= ipseq + seq!['.'] + fpseq);
            assert forall|j: int| 0 <= j < dlen implies t[j] != '.' by {
                assert(t[j] == ipseq[j]);
                assert(is_digit(ipseq[j]));
            }
            assert(t[dlen] == '.');
            lemma_char_pos_is(t, '.', dlen);
            assert(t.take(dlen) =~= ipseq);
            assert(t.skip(dlen + 1) =~= fpseq);
            assert(digits_val(fpseq) * pow10((6 - fpseq.len()) as nat) == f as int);
            assert(micros_of(t) == ip as int * (MICROS_PER_UNIT as int) + f as int);
            assert(ip as int * (MICROS_PER_UNIT as int) + f as int == self.micros as int);
        }
        s
    }
}

proof fn lemma_pow10_mul_bound(v: int, fplen: int)
    requires
        1 <= fplen <= 6,
        0 <= v < pow10(fplen as nat),
    ensures
        v * pow10((6 - fplen) as nat) <= pow10(6) - pow10((6 - fplen) as nat),
        pow10(6) == 1000000,
        pow10((6 - fplen) as nat) >= 1,
{
    lemma_pow10_split(fplen as nat, (6 - fplen) as nat);
    lemma_pow10_vals();
    lemma_pow10_pos((6 - fplen) as nat);
    assert(v * pow10((6 - fplen) as nat) <= (pow10(fplen as nat) - 1) * pow10((6 - fplen) as nat))
        by (nonlinear_arith)
        requires
            v <= pow10(fplen as nat) - 1,
            pow10((6 - fplen) as nat) >= 1,
    ;
    assert((pow10(fplen as nat) - 1) * pow10((6 - fplen) as nat) == pow10(fplen as nat) * pow10(
        (6 - fplen) as nat,
    ) - pow10((6 - fplen) as nat)) by (nonlinear_arith);
}

proof fn lemma_pow10_pos(n: nat)
    ensures
        pow10(n) >= 1,
    decreases n,
{
    if n > 0 {
        lemma_pow10_pos((n - 1) as nat);
    }
}

proof fn lemma_pow10_vals()
    ensures
        pow10(6) == 1000000,
{
    reveal_with_fuel(pow10, 8);
}

proof fn lemma_pow10_mono(a: nat, b: nat)
    requires
        a <= b,
    ensures
        pow10(a) <= pow10(b),
    decreases b,
{
    if a < b {
        lemma_pow10_mono(a, (b - 1) as nat);
        lemma_pow10_pos((b - 1) as nat);
    }
}

proof fn lemma_pow10_split(a: nat, b: nat)
    ensures
        pow10((a + b) as nat) == pow10(a) * pow10(b),
    decreases a,
{
    if a == 0 {
        assert(pow10(b) * 1 == pow10(b)) by (nonlinear_arith);
    } else {
        lemma_pow10_split((a - 1) as nat, b);
        assert(10 * (pow10((a - 1) as nat) * pow10(b)) == (10 * pow10((a - 1) as nat)) * pow10(b))
            by (nonlinear_arith);
    }
}

} // verus!
