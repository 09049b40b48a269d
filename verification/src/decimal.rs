use vstd::prelude::*;
use vstd::string::StringExecFns;
use vstd::string::StrSliceExecFns;
use vstd::arithmetic::div_mod::lemma_fundamental_div_mod;
use vstd::arithmetic::div_mod::lemma_fundamental_div_mod_converse;
use crate::DecodeError;

verus! {

/// An exact base-10 fractional number: `mantissa / 10^scale`.
///
/// This is the working representation of every monetary amount and share
/// quantity. The working precision is fixed: the mantissa is a signed
/// 64-bit integer and at most [`MAX_SCALE`] fractional digits are kept,
/// which is ample for currency and share-quantity fields. A value is kept
/// canonical (see [`Decimal::wf`]) so that equal numbers have equal
/// representations and the wire round trip is exact.
#[derive(Clone, Copy, Debug, PartialEq, Eq, Structural)]
pub struct Decimal {
    /// The signed digits of the number, as an integer.
    pub mantissa: i64,
    /// How many of the mantissa's trailing digits lie right of the point.
    pub scale: usize,
}

/// The largest number of fractional digits a [`Decimal`] may carry.
pub const MAX_SCALE: usize = 18;

/// The largest mantissa magnitude a [`Decimal`] may carry.
pub const MAX_MANTISSA: i64 = 9_223_372_036_854_775_807;

/// Whether `c` is a base-10 digit.
pub open spec fn is_digit(c: char) -> bool {
    48 <= c as u32 <= 57
}

/// The numeric value of a digit character.
pub open spec fn digit_val(c: char) -> int {
    c as u32 - 48
}

/// The digit character for a value below ten.
pub open spec fn digit_char(d: int) -> char {
    if d == 0 {
        '0'
    } else if d == 1 {
        '1'
    } else if d == 2 {
        '2'
    } else if d == 3 {
        '3'
    } else if d == 4 {
        '4'
    } else if d == 5 {
        '5'
    } else if d == 6 {
        '6'
    } else if d == 7 {
        '7'
    } else if d == 8 {
        '8'
    } else {
        '9'
    }
}

/// Whether every character of `s` is a base-10 digit.
pub open spec fn all_digits(s: Seq<char>) -> bool {
    forall|i: int| 0 <= i < s.len() ==> is_digit(#[trigger] s[i])
}

/// The number a digit string denotes, most significant digit first.
pub open spec fn digits_val(s: Seq<char>) -> int
    decreases s.len(),
{
    if s.len() == 0 {
        0
    } else {
        digits_val(s.drop_last()) * 10 + digit_val(s.last())
    }
}

/// Ten to the `k`.
pub open spec fn pow10(k: nat) -> int
    decreases k,
{
    if k == 0 {
        1
    } else {
        10 * pow10((k - 1) as nat)
    }
}

/// The shortest digit string for `n`: no leading zero except for zero itself.
pub open spec fn digits_of(n: nat) -> Seq<char>
    decreases n,
{
    if n < 10 {
        seq![digit_char(n as int)]
    } else {
        digits_of(n / 10).push(digit_char((n % 10) as int))
    }
}

/// The last `width` digits of `n`, zero-padded on the left.
pub open spec fn num_text(n: nat, width: nat) -> Seq<char>
    decreases width,
{
    if width == 0 {
        Seq::empty()
    } else {
        num_text(n / 10, (width - 1) as nat).push(digit_char((n % 10) as int))
    }
}

/// The index of the first `.` of `s`, or `s.len()` if there is none.
pub open spec fn dot_pos(s: Seq<char>) -> int
    decreases s.len(),
{
    if s.len() == 0 {
        0
    } else if s[0] == '.' {
        0
    } else {
        1 + dot_pos(s.skip(1))
    }
}

/// `f` with its trailing zero characters removed.
pub open spec fn strip_zeros(f: Seq<char>) -> Seq<char>
    decreases f.len(),
{
    if f.len() > 0 && f.last() == '0' {
        strip_zeros(f.drop_last())
    } else {
        f
    }
}

impl Decimal {
    /// Canonical form: magnitude within the working precision, a minimal
    /// scale (no trailing fractional zero), and no negative zero.
    pub open spec fn wf(self) -> bool {
        &&& -MAX_MANTISSA <= self.mantissa <= MAX_MANTISSA
        &&& self.scale <= MAX_SCALE
        &&& self.scale > 0 ==> self.mantissa % 10 != 0
        &&& self.mantissa == 0 ==> self.scale == 0
    }

    /// The mantissa's magnitude.
    pub open spec fn abs_mantissa(self) -> nat {
        if self.mantissa < 0 {
            (-self.mantissa) as nat
        } else {
            self.mantissa as nat
        }
    }
}

/// The canonical wire text of a decimal: an optional minus sign, the
/// integer digits, and, when the scale is positive, a point followed by
/// exactly `scale` fractional digits.
pub open spec fn dec_text(d: Decimal) -> Seq<char> {
    let sign: Seq<char> = if d.mantissa < 0 { seq!['-'] } else { Seq::empty() };
    let m = d.abs_mantissa();
    if d.scale == 0 {
        sign + digits_of(m)
    } else {
        sign + digits_of(m / pow10(d.scale as nat) as nat) + seq!['.'] + num_text(m, d.scale as nat)
    }
}

/// The decimal a canonical or redundant numeral denotes, if the text is a
/// well-formed base-10 numeral whose canonical value fits the working
/// precision; `None` otherwise.
pub open spec fn spec_decode(s: Seq<char>) -> Option<Decimal> {
    if s.len() == 0 {
        None
    } else {
        let neg = s[0] == '-';
        let b = if neg { s.skip(1) } else { s };
        let dp = dot_pos(b);
        if dp == b.len() {
            if b.len() > 0 && all_digits(b) {
                spec_make(neg, digits_val(b), 0)
            } else {
                None
            }
        } else {
            let ip = b.subrange(0, dp);
            let fp = b.subrange(dp + 1, b.len() as int);
            if ip.len() > 0 && fp.len() > 0 && all_digits(ip) && all_digits(fp) {
                let cf = strip_zeros(fp);
                spec_make(neg, digits_val(ip + cf), cf.len() as int)
            } else {
                None
            }
        }
    }
}

/// Assembles the decoded decimal, or rejects a value beyond the working
/// precision.
pub open spec fn spec_make(neg: bool, m: int, scale: int) -> Option<Decimal> {
    if m > MAX_MANTISSA || scale > MAX_SCALE {
        None
    } else {
        Some(
            Decimal {
                mantissa: if neg { (-m) as i64 } else { m as i64 },
                scale: scale as usize,
            },
        )
    }
}

/// Facts about the digit characters.
pub proof fn lemma_digit_char(d: int)
    requires
        0 <= d < 10,
    ensures
        is_digit(digit_char(d)),
        digit_val(digit_char(d)) == d,
        digit_char(d) != '.',
        digit_char(d) != '-',
        digit_char(d) == '0' <==> d == 0,
{
}

/// A digit string denotes a non-negative number.
pub proof fn lemma_digits_val_nonneg(s: Seq<char>)
    requires
        all_digits(s),
    ensures
        digits_val(s) >= 0,
    decreases s.len(),
{
    if s.len() > 0 {
        assert(all_digits(s.drop_last()));
        lemma_digits_val_nonneg(s.drop_last());
        assert(is_digit(s.last()));
    }
}

/// Powers of ten are positive.
pub proof fn lemma_pow10_pos(k: nat)
    ensures
        pow10(k) >= 1,
    decreases k,
{
    if k > 0 {
        lemma_pow10_pos((k - 1) as nat);
    }
}

/// Powers of ten grow with the exponent.
pub proof fn lemma_pow10_mono(j: nat, k: nat)
    requires
        j <= k,
    ensures
        pow10(j) <= pow10(k),
    decreases k,
{
    if j < k {
        lemma_pow10_mono(j, (k - 1) as nat);
        lemma_pow10_pos((k - 1) as nat);
    }
}

/// Appending one digit multiplies the denoted number by ten and adds it.
pub proof fn lemma_digits_val_push(s: Seq<char>, c: char)
    ensures
        digits_val(s.push(c)) == digits_val(s) * 10 + digit_val(c),
{
    assert(s.push(c).drop_last() =~= s);
    assert(s.push(c).last() == c);
}

/// The number a concatenation denotes, from the numbers of its halves.
pub proof fn lemma_digits_val_concat(a: Seq<char>, b: Seq<char>)
    ensures
        digits_val(a + b) == digits_val(a) * pow10(b.len()) + digits_val(b),
    decreases b.len(),
{
    if b.len() == 0 {
        assert(a + b =~= a);
    } else {
        lemma_digits_val_concat(a, b.drop_last());
        assert((a + b).drop_last() =~= a + b.drop_last());
        assert((a + b).last() == b.last());
        let p = pow10((b.len() - 1) as nat);
        assert((digits_val(a) * p + digits_val(b.drop_last())) * 10 == digits_val(a) * (10 * p)
            + digits_val(b.drop_last()) * 10) by (nonlinear_arith);
    }
}

/// `digits_of` writes exactly the number it was given.
pub proof fn lemma_digits_of(n: nat)
    ensures
        digits_val(digits_of(n)) == n,
        all_digits(digits_of(n)),
        digits_of(n).len() >= 1,
    decreases n,
{
    if n < 10 {
        lemma_digit_char(n as int);
        let s = seq![digit_char(n as int)];
        assert(s.drop_last() =~= Seq::<char>::empty());
        assert(digits_val(Seq::<char>::empty()) == 0);
        assert(digits_val(s) == digit_val(digit_char(n as int)));
    } else {
        lemma_digits_of(n / 10);
        lemma_digit_char((n % 10) as int);
        lemma_digits_val_push(digits_of(n / 10), digit_char((n % 10) as int));
        lemma_fundamental_div_mod(n as int, 10);
        assert(digits_of(n) == digits_of(n / 10).push(digit_char((n % 10) as int)));
        assert(digits_val(digits_of(n)) == digits_val(digits_of(n / 10)) * 10 + digit_val(
            digit_char((n % 10) as int),
        ));
        assert(digits_val(digits_of(n / 10)) * 10 == (n / 10) * 10);
        assert(n as int == 10 * (n as int / 10) + n as int % 10);
        assert(n as int / 10 == (n / 10) as int);
        assert(n as int % 10 == (n % 10) as int);
        assert forall|i: int| 0 <= i < digits_of(n).len() implies is_digit(
            #[trigger] digits_of(n)[i],
        ) by {
            if i < digits_of(n / 10).len() {
                assert(is_digit(digits_of(n / 10)[i]));
            }
        }
    }
}

/// `num_text` writes the number's remainder modulo the matching power of ten.
pub proof fn lemma_num_text(n: nat, w: nat)
    ensures
        digits_val(num_text(n, w)) == n as int % pow10(w),
        all_digits(num_text(n, w)),
        num_text(n, w).len() == w,
    decreases w,
{
    lemma_pow10_pos(w);
    if w == 0 {
        assert(n % 1 == 0) by (nonlinear_arith);
    } else {
        lemma_num_text(n / 10, (w - 1) as nat);
        lemma_digit_char((n % 10) as int);
        lemma_digits_val_push(num_text(n / 10, (w - 1) as nat), digit_char((n % 10) as int));
        let p = pow10((w - 1) as nat);
        lemma_pow10_pos((w - 1) as nat);
        let q = (n / 10) as int / p;
        let r1 = (n / 10) as int % p;
        lemma_fundamental_div_mod((n / 10) as int, p);
        lemma_fundamental_div_mod(n as int, 10);
        assert(n == (q * p + r1) * 10 + n % 10);
        assert((q * p + r1) * 10 == q * (10 * p) + r1 * 10) by (nonlinear_arith);
        assert(0 <= r1 * 10 + n % 10 < 10 * p) by (nonlinear_arith)
            requires
                0 <= r1 < p,
                0 <= n % 10 < 10,
        ;
        lemma_fundamental_div_mod_converse(n as int, 10 * p, q, r1 * 10 + (n % 10) as int);
    }
}

/// A digit string's last digit is the denoted number's last digit.
pub proof fn lemma_digits_val_last(s: Seq<char>)
    requires
        s.len() > 0,
        all_digits(s),
    ensures
        digits_val(s) % 10 == digit_val(s.last()),
{
    assert(is_digit(s.last()));
    lemma_fundamental_div_mod_converse(
        digits_val(s),
        10,
        digits_val(s.drop_last()),
        digit_val(s.last()),
    );
}

/// Where no character is a point, `dot_pos` is the whole length.
pub proof fn lemma_dot_pos_none(b: Seq<char>)
    requires
        forall|k: int| 0 <= k < b.len() ==> b[k] != '.',
    ensures
        dot_pos(b) == b.len(),
    decreases b.len(),
{
    if b.len() > 0 {
        lemma_dot_pos_none(b.skip(1));
    }
}

/// `dot_pos` finds the first point.
pub proof fn lemma_dot_pos_found(b: Seq<char>, j: int)
    requires
        0 <= j < b.len(),
        b[j] == '.',
        forall|k: int| 0 <= k < j ==> b[k] != '.',
    ensures
        dot_pos(b) == j,
    decreases b.len(),
{
    if j > 0 {
        lemma_dot_pos_found(b.skip(1), j - 1);
    }
}

/// Trailing zero characters do not survive `strip_zeros`.
pub proof fn lemma_strip_zeros_drop(f: Seq<char>, j: int)
    requires
        0 <= j <= f.len(),
        forall|k: int| j <= k < f.len() ==> f[k] == '0',
    ensures
        strip_zeros(f) == strip_zeros(f.take(j)),
    decreases f.len() - j,
{
    if j == f.len() {
        assert(f.take(j) =~= f);
    } else {
        assert(f.last() == '0');
        assert(f.drop_last() =~= f.take(f.len() - 1));
        lemma_strip_zeros_drop(f.take(f.len() - 1), j);
        assert(f.take(f.len() - 1).take(j) =~= f.take(j));
    }
}

/// A string without a trailing zero is already stripped.
pub proof fn lemma_strip_zeros_keep(f: Seq<char>)
    requires
        f.len() == 0 || f.last() != '0',
    ensures
        strip_zeros(f) == f,
{
}

/// A prefix of a digit string denotes no more than the whole.
pub proof fn lemma_digits_val_prefix(s: Seq<char>, k: int)
    requires
        all_digits(s),
        0 <= k <= s.len(),
    ensures
        digits_val(s.take(k)) <= digits_val(s),
{
    assert(s =~= s.take(k) + s.skip(k));
    lemma_digits_val_concat(s.take(k), s.skip(k));
    assert(all_digits(s.take(k)));
    assert(all_digits(s.skip(k)));
    lemma_digits_val_nonneg(s.take(k));
    lemma_digits_val_nonneg(s.skip(k));
    let p = pow10(s.skip(k).len());
    lemma_pow10_pos(s.skip(k).len());
    assert(digits_val(s.take(k)) * 1 <= digits_val(s.take(k)) * p) by (nonlinear_arith)
        requires
            digits_val(s.take(k)) >= 0,
            p >= 1,
    ;
}

/// Reading one more digit of a string.
pub proof fn lemma_digits_val_step(s: Seq<char>, k: int)
    requires
        0 <= k < s.len(),
    ensures
        digits_val(s.take(k + 1)) == digits_val(s.take(k)) * 10 + digit_val(s[k]),
{
    assert(s.take(k + 1).drop_last() =~= s.take(k));
    assert(s.take(k + 1).last() == s[k]);
}

/// The digit character for a value below ten.
fn digit_str(d: u64) -> (r: &'static str)
    requires
        d < 10,
    ensures
        r@ =~= seq![digit_char(d as int)],
{
    proof {
        reveal_strlit("0");
        reveal_strlit("1");
        reveal_strlit("2");
        reveal_strlit("3");
        reveal_strlit("4");
        reveal_strlit("5");
        reveal_strlit("6");
        reveal_strlit("7");
        reveal_strlit("8");
        reveal_strlit("9");
    }
    match d {
        0 => "0",
        1 => "1",
        2 => "2",
        3 => "3",
        4 => "4",
        5 => "5",
        6 => "6",
        7 => "7",
        8 => "8",
        _ => "9",
    }
}

/// The shortest digit string for `n`.
fn u64_digits(n: u64) -> (s: String)
    ensures
        s@ == digits_of(n as nat),
    decreases n,
{
    if n < 10 {
        String::from_str(digit_str(n))
    } else {
        let mut s = u64_digits(n / 10);
        s.append(digit_str(n % 10));
        proof {
            assert(s@ =~= digits_of((n / 10) as nat).push(digit_char((n % 10) as int)));
        }
        s
    }
}

/// The last `width` digits of `n`, zero-padded on the left.
fn u64_fixed(n: u64, width: usize) -> (s: String)
    ensures
        s@ == num_text(n as nat, width as nat),
    decreases width,
{
    if width == 0 {
        String::new()
    } else {
        let mut s = u64_fixed(n / 10, width - 1);
        s.append(digit_str(n % 10));
        proof {
            assert(s@ =~= num_text((n / 10) as nat, (width - 1) as nat).push(
                digit_char((n % 10) as int),
            ));
        }
        s
    }
}

/// Ten to the `k`, within the working precision.
fn pow10_u64(k: usize) -> (p: u64)
    requires
        k <= MAX_SCALE,
    ensures
        p as int == pow10(k as nat),
{
    proof {
        reveal_with_fuel(pow10, 19);
    }
    let mut p: u64 = 1;
    let mut i: usize = 0;
    while i < k
        invariant
            i <= k <= MAX_SCALE,
            p as int == pow10(i as nat),
        decreases k - i,
    {
        proof {
            lemma_pow10_mono((i + 1) as nat, 18);
            reveal_with_fuel(pow10, 19);
            assert(pow10(18) == 1000000000000000000);
        }
        p = p * 10;
        i = i + 1;
    }
    p
}

impl Decimal {
    /// Whether this value is canonical, decided at run time.
    pub fn check(&self) -> (r: bool)
        ensures
            r == self.wf(),
    {
        -MAX_MANTISSA <= self.mantissa && self.scale <= MAX_SCALE && (self.scale == 0
            || self.mantissa % 10 != 0) && (self.mantissa != 0 || self.scale == 0)
    }

    /// The decimal holding a whole number.
    pub fn from_int(v: i64) -> (r: Decimal)
        requires
            v != i64::MIN,
        ensures
            r == (Decimal { mantissa: v, scale: 0 }),
            r.wf(),
    {
        Decimal { mantissa: v, scale: 0 }
    }

    /// The canonical wire text of this decimal.
    pub fn encode(&self) -> (s: String)
        requires
            self.wf(),
        ensures
            s@ == dec_text(*self),
    {
        proof {
            reveal_strlit("-");
            reveal_strlit(".");
        }
        let neg = self.mantissa < 0;
        let m: u64 = if neg {
            (-self.mantissa) as u64
        } else {
            self.mantissa as u64
        };
        let mut s = if neg {
            String::from_str("-")
        } else {
            String::new()
        };
        let ghost sign: Seq<char> = if neg { seq!['-'] } else { Seq::empty() };
        proof {
            assert(s@ =~= sign);
        }
        if self.scale == 0 {
            let ds = u64_digits(m);
            s.append(ds.as_str());
            proof {
                assert(s@ =~= dec_text(*self));
            }
            s
        } else {
            let p = pow10_u64(self.scale);
            proof {
                lemma_pow10_pos(self.scale as nat);
            }
            let q = m / p;
            let ds = u64_digits(q);
            s.append(ds.as_str());
            s.append(".");
            let fs = u64_fixed(m, self.scale);
            s.append(fs.as_str());
            proof {
                assert(s@ =~= dec_text(*self));
            }
            s
        }
    }
}

/// The base-10 text of a signed integer.
pub open spec fn int_text(v: int) -> Seq<char> {
    if v < 0 {
        seq!['-'] + digits_of((-v) as nat)
    } else {
        digits_of(v as nat)
    }
}

/// Writes a signed integer in base 10.
pub fn int_to_text(v: i64) -> (s: String)
    requires
        v != i64::MIN,
    ensures
        s@ == int_text(v as int),
{
    proof {
        reveal_strlit("-");
    }
    if v < 0 {
        let mut s = String::from_str("-");
        let ds = u64_digits((-v) as u64);
        s.append(ds.as_str());
        proof {
            assert(s@ =~= int_text(v as int));
        }
        s
    } else {
        let s = u64_digits(v as u64);
        s
    }
}

/// Accumulates a digit string's value, or reports that it lies beyond the
/// working precision.
fn digits_to_u64(digits: &Vec<char>) -> (r: Option<u64>)
    requires
        all_digits(digits@),
    ensures
        match r {
            Some(v) => v == digits_val(digits@) && v <= MAX_MANTISSA,
            None => digits_val(digits@) > MAX_MANTISSA,
        },
{
    let mut acc: u64 = 0;
    let mut k: usize = 0;
    proof {
        assert(digits@.take(0) =~= Seq::<char>::empty());
    }
    while k < digits.len()
        invariant
            0 <= k <= digits.len(),
            all_digits(digits@),
            acc == digits_val(digits@.take(k as int)),
            acc <= MAX_MANTISSA,
        decreases digits.len() - k,
    {
        let c = digits[k];
        let u = c as u32;
        proof {
            assert(is_digit(digits@[k as int]));
        }
        let d: u64 = (u - 48) as u64;
        proof {
            lemma_digits_val_step(digits@, k as int);
        }
        if acc > 922_337_203_685_477_580 || (acc == 922_337_203_685_477_580 && d > 7) {
            proof {
                lemma_digits_val_prefix(digits@, k + 1);
            }
            return None;
        }
        acc = acc * 10 + d;
        k = k + 1;
    }
    proof {
        assert(digits@.take(digits.len() as int) =~= digits@);
    }
    Some(acc)
}

impl Decimal {
    /// Parses the wire text of a decimal.
    ///
    /// The text must be an optionally minus-signed base-10 numeral with at
    /// most one point and digits on both of its sides; anything else —
    /// an empty string, a sign alone, an exponent, stray characters — is
    /// rejected as [`DecodeError::MalformedNumber`], as is a numeral whose
    /// canonical value lies beyond the working precision. Redundant
    /// leading integer zeros and trailing fractional zeros are dropped, so
    /// texts that differ only in them decode to the same value.
    #[verifier::loop_isolation(false)]
    #[verifier::rlimit(100)]
    #[verifier::spinoff_prover]
    pub fn decode(s: &str) -> (r: Result<Decimal, DecodeError>)
        ensures
            match spec_decode(s@) {
                Some(d) => r == Ok::<Decimal, DecodeError>(d) && d.wf(),
                None => r == Err::<Decimal, DecodeError>(DecodeError::MalformedNumber),
            },
    {
        let n = s.unicode_len();
        if n == 0 {
            return Err(DecodeError::MalformedNumber);
        }
        let neg = s.get_char(0) == '-';
        let start: usize = if neg {
            1
        } else {
            0
        };
        let ghost b: Seq<char> = if neg {
            s@.skip(1)
        } else {
            s@
        };
        proof {
            if !neg {
                assert(s@.skip(0) =~= s@);
            }
            assert(forall|j: int| 0 <= j < b.len() ==> b[j] == s@[start + j]);
        }
        if start == n {
            return Err(DecodeError::MalformedNumber);
        }
        // Find the first point.
        let mut dot: usize = start;
        while dot < n && s.get_char(dot) != '.'
            invariant
                start <= dot <= n,
                n == s@.len(),
                start < n,
                forall|k: int| start <= k < dot ==> s@[k] != '.',
            decreases n - dot,
        {
            dot = dot + 1;
        }
        let ghost dp: int = dot - start;
        proof {
            if dot < n {
                lemma_dot_pos_found(b, dp);
            } else {
                lemma_dot_pos_none(b);
            }
        }
        // The integer part may not be empty.
        if dot == start {
            return Err(DecodeError::MalformedNumber);
        }
        // Nor may a fractional part that the point announces.
        if dot < n && dot + 1 == n {
            return Err(DecodeError::MalformedNumber);
        }
        // Pass over the redundant trailing fractional zeros.
        let mut fe: usize = n;
        if dot < n {
            while fe > dot + 1 && s.get_char(fe - 1) == '0'
                invariant
                    dot + 1 <= fe <= n,
                    n == s@.len(),
                    dot < n,
                    forall|k: int| fe <= k < n ==> s@[k] == '0',
                decreases fe,
            {
                fe = fe - 1;
            }
        }
        let scale: usize = if dot < n {
            fe - (dot + 1)
        } else {
            0
        };
        let ghost ip: Seq<char> = b.subrange(0, dp);
        let ghost fp: Seq<char> = b.subrange(dp + 1, b.len() as int);
        let ghost cf: Seq<char> = strip_zeros(fp);
        proof {
            if dot < n {
                lemma_strip_zeros_drop(fp, scale as int);
                if scale > 0 {
                    assert(fp.take(scale as int).last() == s@[fe - 1]);
                    lemma_strip_zeros_keep(fp.take(scale as int));
                } else {
                    assert(fp.take(0) =~= Seq::<char>::empty());
                    lemma_strip_zeros_keep(fp.take(0));
                }
                assert(cf =~= fp.take(scale as int));
            }
        }
        if scale > MAX_SCALE {
            return Err(DecodeError::MalformedNumber);
        }
        // Collect the canonical digits, validating every character.
        let ghost d_seq: Seq<char> = if dot < n {
            ip + cf
        } else {
            b
        };
        let mut digits: Vec<char> = Vec::new();
        let mut i: usize = start;
        while i < dot
            invariant
                start <= i <= dot <= n,
                n == s@.len(),
                start < dot,
                b == (if neg {
                    s@.skip(1)
                } else {
                    s@
                }),
                forall|j: int| 0 <= j < b.len() ==> b[j] == s@[start + j],
                digits@ =~= s@.subrange(start as int, i as int),
                all_digits(digits@),
            decreases dot - i,
        {
            let c = s.get_char(i);
            let u = c as u32;
            if u < 48 || u > 57 {
                proof {
                    assert(!is_digit(s@[i as int]));
                    assert(ip[i - start] == s@[i as int]);
                }
                return Err(DecodeError::MalformedNumber);
            }
            digits.push(c);
            i = i + 1;
        }
        proof {
            assert(digits@ =~= s@.subrange(start as int, dot as int));
            assert(digits@ =~= ip);
        }
        if dot < n {
            let mut j: usize = dot + 1;
            while j < fe
                invariant
                    dot + 1 <= j <= fe <= n,
                    n == s@.len(),
                    dot < n,
                    fe - (dot + 1) == scale,
                    b == (if neg {
                        s@.skip(1)
                    } else {
                        s@
                    }),
                    forall|j2: int| 0 <= j2 < b.len() ==> b[j2] == s@[start + j2],
                    dp == dot - start,
                    start <= dot,
                    ip == b.subrange(0, dp),
                    cf == fp.take(scale as int),
                    fp == b.subrange(dp + 1, b.len() as int),
                    digits@ =~= ip + fp.take(j - dot - 1),
                    all_digits(digits@),
                decreases fe - j,
            {
                let c = s.get_char(j);
                let u = c as u32;
                if u < 48 || u > 57 {
                    proof {
                        assert(!is_digit(s@[j as int]));
                        assert(fp[j - dot - 1] == s@[j as int]);
                    }
                    return Err(DecodeError::MalformedNumber);
                }
                digits.push(c);
                proof {
                    assert(digits@ =~= ip + fp.take(j + 1 - dot - 1));
                }
                j = j + 1;
            }
            proof {
                assert(digits@ =~= ip + cf);
            }
        }
        proof {
            assert(digits@ =~= d_seq);
            // Every character of the fractional part is a digit: the kept
            // ones were checked, the stripped ones are zeros.
            if dot < n {
                assert forall|k: int| 0 <= k < fp.len() implies is_digit(#[trigger] fp[k]) by {
                    if k < scale {
                        assert(fp[k] == cf[k]);
                        assert(is_digit(d_seq[dp + k]));
                    } else {
                        assert(fp[k] == s@[dot + 1 + k]);
                        assert(s@[dot + 1 + k] == '0');
                    }
                }
            }
        }
        let m = match digits_to_u64(&digits) {
            Some(m) => m,
            None => {
                return Err(DecodeError::MalformedNumber);
            },
        };
        let mantissa: i64 = if neg {
            -(m as i64)
        } else {
            m as i64
        };
        let d = Decimal { mantissa, scale };
        proof {
            if scale > 0 {
                lemma_digits_val_last(d_seq);
                assert(d_seq.last() == cf.last());
                assert(cf.last() == s@[fe - 1]);
                assert(s@[fe - 1] != '0');
                assert(digit_val(s@[fe - 1]) != 0);
                assert(m as int % 10 != 0);
                if neg && (-(m as int)) % 10 == 0 {
                    lemma_fundamental_div_mod(-(m as int), 10);
                    lemma_fundamental_div_mod_converse(
                        m as int,
                        10,
                        -((-(m as int)) / 10),
                        0,
                    );
                    assert(false);
                }
            }
        }
        Ok(d)
    }
}

/// Round trip: every well-formed decimal decodes back from its own wire
/// text, bit for bit.
#[verifier::rlimit(60)]
pub proof fn lemma_decimal_round_trip(d: Decimal)
    requires
        d.wf(),
    ensures
        spec_decode(dec_text(d)) == Some(d),
{
    let m = d.abs_mantissa();
    let s = dec_text(d);
    let sign: Seq<char> = if d.mantissa < 0 { seq!['-'] } else { Seq::empty() };
    lemma_digits_of(m);
    if d.scale == 0 {
        let ds = digits_of(m);
        assert(s =~= sign + ds);
        let b = if d.mantissa < 0 { s.skip(1) } else { s };
        if d.mantissa < 0 {
            assert(s[0] == '-');
            assert(b =~= ds);
        } else {
            assert(is_digit(s[0]));
            assert(s[0] != '-');
            assert(b =~= ds);
        }
        assert forall|k: int| 0 <= k < b.len() implies b[k] != '.' by {
            assert(is_digit(ds[k]));
        }
        lemma_dot_pos_none(b);
        assert(spec_make(d.mantissa < 0, m as int, 0) == Some(d));
    } else {
        let p = pow10(d.scale as nat);
        lemma_pow10_pos(d.scale as nat);
        lemma_fundamental_div_mod(m as int, p);
        let q = m / p as nat;
        let ids = digits_of(q);
        let fds = num_text(m, d.scale as nat);
        lemma_digits_of(q);
        lemma_num_text(m, d.scale as nat);
        assert(s =~= sign + ids + seq!['.'] + fds);
        let b = if d.mantissa < 0 { s.skip(1) } else { s };
        assert(b =~= ids + seq!['.'] + fds);
        if d.mantissa < 0 {
            assert(s[0] == '-');
        } else {
            assert(b[0] == ids[0]);
            assert(is_digit(ids[0]));
            assert(s[0] != '-');
        }
        let dp = ids.len() as int;
        assert(b[dp] == '.');
        assert forall|k: int| 0 <= k < dp implies b[k] != '.' by {
            assert(b[k] == ids[k]);
            assert(is_digit(ids[k]));
        }
        lemma_dot_pos_found(b, dp);
        let ip = b.subrange(0, dp);
        let fp = b.subrange(dp + 1, b.len() as int);
        assert(ip =~= ids);
        assert(fp =~= fds);
        // The mantissa's magnitude keeps its last digit nonzero.
        assert(m as int % 10 != 0) by {
            if d.mantissa < 0 && m as int % 10 == 0 {
                lemma_fundamental_div_mod(m as int, 10);
                lemma_fundamental_div_mod_converse(
                    d.mantissa as int,
                    10,
                    -((m as int) / 10),
                    0,
                );
                assert(false);
            }
        }
        assert(fds.last() == digit_char((m % 10) as int)) by {
            reveal_with_fuel(num_text, 2);
        }
        lemma_digit_char((m % 10) as int);
        assert(fds.last() != '0');
        lemma_strip_zeros_keep(fp);
        lemma_digits_val_concat(ids, fds);
        assert(digits_val(ip + strip_zeros(fp)) == q * p + m as int % p);
        assert(q * p + m as int % p == m as int);
        assert(spec_make(d.mantissa < 0, m as int, d.scale as int) == Some(d));
    }
}

} // verus!
